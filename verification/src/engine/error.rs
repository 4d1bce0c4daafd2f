//! Failures of transaction processing.

use vstd::prelude::*;
use crate::domain::amount::append_number;
use crate::domain::amount::nat_digits;
use crate::domain::error::DomainError;
use crate::storage::error::StorageError;
use crate::storage::error::is_text_of;

verus! {

/// Why an event was not applied.
#[derive(Debug)]
pub enum EngineError {
    TransactionNotFound(u32),
    TransactionNotDisputed(u32),
    TransactionAlreadyDisputed(u32),
    CannotDisputeWithdrawal,
    Domain(DomainError),
    Storage(StorageError),
}

impl EngineError {
    /// The text shown for this error, as far as the error itself fixes it.
    pub open spec fn message(self) -> Option<Seq<char>> {
        match self {
            EngineError::TransactionNotFound(tx) => Some(
                "Transaction not found: "@ + nat_digits(tx as nat),
            ),
            EngineError::TransactionNotDisputed(tx) => Some(
                "Transaction not under dispute: "@ + nat_digits(tx as nat),
            ),
            EngineError::TransactionAlreadyDisputed(tx) => Some(
                "Transaction already disputed: "@ + nat_digits(tx as nat),
            ),
            EngineError::CannotDisputeWithdrawal => Some("Cannot dispute a withdrawal"@),
            EngineError::Domain(e) => Some("Domain error: "@ + e.message()),
            EngineError::Storage(e) => match e.message() {
                Some(m) => Some("Storage error: "@ + m),
                None => None,
            },
        }
    }

    /// Renders the error as text: `message`, or where a storage error wraps
    /// an error of the operating system, `Storage error: ` and its text.
    pub fn to_string(&self) -> (text: String)
        ensures
            is_text_of(text@, self.message(), "Storage error: "@),
    {
        match self {
            EngineError::TransactionNotFound(tx) => {
                let mut text = String::from_str("Transaction not found: ");
                append_number(&mut text, *tx as u64);
                text
            },
            EngineError::TransactionNotDisputed(tx) => {
                let mut text = String::from_str("Transaction not under dispute: ");
                append_number(&mut text, *tx as u64);
                text
            },
            EngineError::TransactionAlreadyDisputed(tx) => {
                let mut text = String::from_str("Transaction already disputed: ");
                append_number(&mut text, *tx as u64);
                text
            },
            EngineError::CannotDisputeWithdrawal => String::from_str("Cannot dispute a withdrawal"),
            EngineError::Domain(e) => {
                let detail = e.to_string();
                String::from_str("Domain error: ").concat(detail.as_str())
            },
            EngineError::Storage(e) => {
                let detail = e.to_string();
                let text = String::from_str("Storage error: ").concat(detail.as_str());
                assert(text@.subrange(0, "Storage error: "@.len() as int) == "Storage error: "@);
                text
            },
        }
    }
}

impl From<DomainError> for EngineError {
    fn from(error: DomainError) -> (wrapped: EngineError) {
        EngineError::Domain(error)
    }
}

impl vstd::std_specs::convert::FromSpecImpl<DomainError> for EngineError {
    open spec fn obeys_from_spec() -> bool {
        true
    }

    open spec fn from_spec(error: DomainError) -> EngineError {
        EngineError::Domain(error)
    }
}

impl From<StorageError> for EngineError {
    fn from(error: StorageError) -> (wrapped: EngineError) {
        EngineError::Storage(error)
    }
}

impl vstd::std_specs::convert::FromSpecImpl<StorageError> for EngineError {
    open spec fn obeys_from_spec() -> bool {
        true
    }

    open spec fn from_spec(error: StorageError) -> EngineError {
        EngineError::Storage(error)
    }
}

} // verus!
