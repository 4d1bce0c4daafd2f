//! The names that most callers need, in one place.

pub use crate::domain::AccountOperation;
pub use crate::domain::AmountType;
pub use crate::domain::ClientAccount;
pub use crate::domain::DomainError;
pub use crate::domain::FixedPoint;
pub use crate::domain::Transaction;
pub use crate::domain::TransactionRecord;
pub use crate::engine::EngineError;
pub use crate::engine::TransactionProcessor;
pub use crate::io::IoError;
pub use crate::io::RawTransactionRecord;
pub use crate::io::write_snapshot;
pub use crate::storage::ClientAccountEntry;
pub use crate::storage::ClientAccountManager;
pub use crate::storage::ConcurrentAccountManager;
pub use crate::storage::ConcurrentTransactionStore;
pub use crate::storage::StorageError;
pub use crate::storage::TransactionStoreManager;
pub use crate::streaming::AbortOnError;
pub use crate::streaming::ErrorPolicy;
pub use crate::streaming::ShardAssignment;
pub use crate::streaming::SilentSkip;
pub use crate::streaming::SkipErrors;
pub use crate::streaming::StreamCombinator;
pub use crate::streaming::StreamProcessor;
