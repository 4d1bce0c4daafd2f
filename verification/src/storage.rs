//! Where accounts and transaction records are kept.

pub mod concurrent;
pub mod concurrent_transaction_store;
pub mod error;
pub mod traits;

pub use concurrent::ConcurrentAccountManager;
pub use concurrent::ConcurrentEntry;
pub use concurrent_transaction_store::ConcurrentTransactionStore;
pub use error::StorageError;
pub use traits::ClientAccountEntry;
pub use traits::ClientAccountManager;
pub use traits::TransactionStoreManager;
