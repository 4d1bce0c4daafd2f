//! The boundary of the engine: raw records in, snapshot text out.

pub mod csv_writer;
pub mod error;
pub mod parse;

pub use csv_writer::write_snapshot;
pub use error::IoError;
pub use parse::RawTransactionRecord;
pub use parse::TransactionKind;
