//! Failures at the boundary: of the source, or of a field of a record.

use vstd::prelude::*;
use crate::domain::error::DomainError;
use crate::storage::error::StorageError;
use crate::storage::error::io_error_text;
use crate::storage::error::is_text_of;
use crate::storage::error::starts_with;

verus! {

/// `csv::Error`, carried as it is: nothing is known of what it holds.
#[verifier::external_type_specification]
#[verifier::external_body]
pub struct ExCsvError(csv::Error);

/// `csv_async::Error`, carried as it is: nothing is known of what it holds.
#[verifier::external_type_specification]
#[verifier::external_body]
pub struct ExCsvAsyncError(csv_async::Error);

/// Why a record could not be turned into an event.
#[derive(Debug)]
pub enum IoError {
    Csv(csv::Error),
    CsvAsync(csv_async::Error),
    Io(std::io::Error),
    InvalidTransactionType(String),
    MissingField(String),
    InvalidAmount(String),
    Domain(DomainError),
    Storage(StorageError),
}

/// `csv::Error`'s `to_string`: the text that the error displays. Nothing is
/// claimed of it.
#[verifier::external_body]
fn csv_error_text(error: &csv::Error) -> (text: String) {
    error.to_string()
}

/// `csv_async::Error`'s `to_string`: the text that the error displays. Nothing
/// is claimed of it.
#[verifier::external_body]
fn csv_async_error_text(error: &csv_async::Error) -> (text: String) {
    error.to_string()
}

/// `prefix` followed by `detail`.
fn prefixed(prefix: &str, detail: &str) -> (text: String)
    ensures
        text@ == prefix@ + detail@,
        starts_with(text@, prefix@),
{
    let text = String::from_str(prefix).concat(detail);
    assert(text@.subrange(0, prefix@.len() as int) == prefix@);
    text
}

impl IoError {
    /// The text shown for this error, as far as the error itself fixes it: an
    /// error of the CSV reader or of the operating system brings a text of
    /// its own.
    pub open spec fn message(self) -> Option<Seq<char>> {
        match self {
            IoError::Csv(_) => None,
            IoError::CsvAsync(_) => None,
            IoError::Io(_) => None,
            IoError::InvalidTransactionType(t) => Some("Invalid transaction type: "@ + t@),
            IoError::MissingField(t) => Some("Missing required field: "@ + t@),
            IoError::InvalidAmount(t) => Some("Invalid amount format: "@ + t@),
            IoError::Domain(e) => Some("Domain error: "@ + e.message()),
            IoError::Storage(e) => match e.message() {
                Some(m) => Some("Storage error: "@ + m),
                None => None,
            },
        }
    }

    /// The words that the text of this error starts with.
    pub open spec fn prefix(self) -> Seq<char> {
        match self {
            IoError::Csv(_) => "CSV parsing error: "@,
            IoError::CsvAsync(_) => "CSV async parsing error: "@,
            IoError::Io(_) => "IO error: "@,
            IoError::InvalidTransactionType(_) => "Invalid transaction type: "@,
            IoError::MissingField(_) => "Missing required field: "@,
            IoError::InvalidAmount(_) => "Invalid amount format: "@,
            IoError::Domain(_) => "Domain error: "@,
            IoError::Storage(_) => "Storage error: "@,
        }
    }

    /// Renders the error as text: `message`, or where the error brings a text
    /// of its own, `prefix` and that text.
    pub fn to_string(&self) -> (text: String)
        ensures
            is_text_of(text@, self.message(), self.prefix()),
    {
        match self {
            IoError::Csv(e) => prefixed("CSV parsing error: ", csv_error_text(e).as_str()),
            IoError::CsvAsync(e) => prefixed(
                "CSV async parsing error: ",
                csv_async_error_text(e).as_str(),
            ),
            IoError::Io(e) => prefixed("IO error: ", io_error_text(e).as_str()),
            IoError::InvalidTransactionType(t) => prefixed(
                "Invalid transaction type: ",
                t.as_str(),
            ),
            IoError::MissingField(t) => prefixed("Missing required field: ", t.as_str()),
            IoError::InvalidAmount(t) => prefixed("Invalid amount format: ", t.as_str()),
            IoError::Domain(e) => prefixed("Domain error: ", e.to_string().as_str()),
            IoError::Storage(e) => prefixed("Storage error: ", e.to_string().as_str()),
        }
    }
}

impl From<csv::Error> for IoError {
    fn from(error: csv::Error) -> (wrapped: IoError) {
        IoError::Csv(error)
    }
}

impl vstd::std_specs::convert::FromSpecImpl<csv::Error> for IoError {
    open spec fn obeys_from_spec() -> bool {
        true
    }

    open spec fn from_spec(error: csv::Error) -> IoError {
        IoError::Csv(error)
    }
}

impl From<csv_async::Error> for IoError {
    fn from(error: csv_async::Error) -> (wrapped: IoError) {
        IoError::CsvAsync(error)
    }
}

impl vstd::std_specs::convert::FromSpecImpl<csv_async::Error> for IoError {
    open spec fn obeys_from_spec() -> bool {
        true
    }

    open spec fn from_spec(error: csv_async::Error) -> IoError {
        IoError::CsvAsync(error)
    }
}

impl From<std::io::Error> for IoError {
    fn from(error: std::io::Error) -> (wrapped: IoError) {
        IoError::Io(error)
    }
}

impl vstd::std_specs::convert::FromSpecImpl<std::io::Error> for IoError {
    open spec fn obeys_from_spec() -> bool {
        true
    }

    open spec fn from_spec(error: std::io::Error) -> IoError {
        IoError::Io(error)
    }
}

impl From<DomainError> for IoError {
    fn from(error: DomainError) -> (wrapped: IoError) {
        IoError::Domain(error)
    }
}

impl vstd::std_specs::convert::FromSpecImpl<DomainError> for IoError {
    open spec fn obeys_from_spec() -> bool {
        true
    }

    open spec fn from_spec(error: DomainError) -> IoError {
        IoError::Domain(error)
    }
}

impl From<StorageError> for IoError {
    fn from(error: StorageError) -> (wrapped: IoError) {
        IoError::Storage(error)
    }
}

impl vstd::std_specs::convert::FromSpecImpl<StorageError> for IoError {
    open spec fn obeys_from_spec() -> bool {
        true
    }

    open spec fn from_spec(error: StorageError) -> IoError {
        IoError::Storage(error)
    }
}

} // verus!
