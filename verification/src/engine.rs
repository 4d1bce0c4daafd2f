//! The transaction processor: from an event to the operation on an account.

pub mod error;
pub mod laws;
pub mod processor;

pub use error::EngineError;
pub use processor::EngineState;
pub use processor::TransactionProcessor;
