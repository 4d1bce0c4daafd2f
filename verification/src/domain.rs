//! Money, accounts, events and the rules that move money between balances.

pub mod account;
pub mod amount;
pub mod amount_laws;
pub mod error;
pub mod laws;
pub mod operations;
pub mod transaction;

pub use account::AccountView;
pub use account::ClientAccount;
pub use amount::AmountType;
pub use amount::FixedPoint;
pub use error::DomainError;
pub use operations::AccountOperation;
pub use operations::OperationView;
pub use operations::apply_chargeback;
pub use operations::apply_deposit;
pub use operations::apply_dispute;
pub use operations::apply_resolve;
pub use operations::apply_withdrawal;
pub use transaction::RecordView;
pub use transaction::Transaction;
pub use transaction::TransactionRecord;
pub use transaction::TransactionView;
