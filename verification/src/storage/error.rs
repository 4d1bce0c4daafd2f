//! Failures of the storage layer.

use vstd::prelude::*;
use crate::domain::error::DomainError;

verus! {

/// `std::io::Error`, carried as it is: nothing is known of what it holds.
#[verifier::external_type_specification]
#[verifier::external_body]
pub struct ExIoError(std::io::Error);

/// Why the storage layer refused or failed.
#[derive(Debug)]
pub enum StorageError {
    NotFound,
    IoError(std::io::Error),
    DomainError(DomainError),
}

/// `std::io::Error::to_string`: the text that the error displays. Nothing is
/// claimed of it.
#[verifier::external_body]
pub(crate) fn io_error_text(error: &std::io::Error) -> (text: String) {
    error.to_string()
}

/// Whether `text` starts with `prefix`.
pub open spec fn starts_with(text: Seq<char>, prefix: Seq<char>) -> bool {
    prefix.len() <= text.len() && text.subrange(0, prefix.len() as int) == prefix
}

/// Whether `text` is the text of an error: the given text where the error
/// has one, and else any text that starts with `prefix`.
pub open spec fn is_text_of(text: Seq<char>, message: Option<Seq<char>>, prefix: Seq<char>) -> bool {
    match message {
        Some(m) => text == m,
        None => starts_with(text, prefix),
    }
}

impl StorageError {
    /// The text shown for this error, as far as the error itself fixes it: an
    /// error of the operating system brings a text of its own.
    pub open spec fn message(self) -> Option<Seq<char>> {
        match self {
            StorageError::NotFound => Some("Entity not found"@),
            StorageError::IoError(_) => None,
            StorageError::DomainError(e) => Some("Domain error: "@ + e.message()),
        }
    }

    /// Renders the error as text: `message`, or for an error of the operating
    /// system `I/O error: ` and the text that it brings.
    pub fn to_string(&self) -> (text: String)
        ensures
            is_text_of(text@, self.message(), "I/O error: "@),
    {
        match self {
            StorageError::NotFound => String::from_str("Entity not found"),
            StorageError::IoError(e) => {
                let detail = io_error_text(e);
                let text = String::from_str("I/O error: ").concat(detail.as_str());
                assert(text@.subrange(0, "I/O error: "@.len() as int) == "I/O error: "@);
                text
            },
            StorageError::DomainError(e) => {
                let detail = e.to_string();
                String::from_str("Domain error: ").concat(detail.as_str())
            },
        }
    }
}

impl From<std::io::Error> for StorageError {
    fn from(error: std::io::Error) -> (wrapped: StorageError) {
        StorageError::IoError(error)
    }
}

impl vstd::std_specs::convert::FromSpecImpl<std::io::Error> for StorageError {
    open spec fn obeys_from_spec() -> bool {
        true
    }

    open spec fn from_spec(error: std::io::Error) -> StorageError {
        StorageError::IoError(error)
    }
}

impl From<DomainError> for StorageError {
    fn from(error: DomainError) -> (wrapped: StorageError) {
        StorageError::DomainError(error)
    }
}

impl vstd::std_specs::convert::FromSpecImpl<DomainError> for StorageError {
    open spec fn obeys_from_spec() -> bool {
        true
    }

    open spec fn from_spec(error: DomainError) -> StorageError {
        StorageError::DomainError(error)
    }
}

} // verus!
