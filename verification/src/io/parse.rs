//! From a raw record, as a source hands it over, to an event.

use vstd::prelude::*;
use super::error::IoError;
use crate::domain::amount::AmountType;
use crate::domain::amount::text_chars;
use crate::domain::amount::trim_bounds;
use crate::domain::amount::trimmed;
use crate::domain::transaction::Transaction;

verus! {

/// A record as read from the input: the type of the event by name, the client,
/// the transaction, and the amount as text where the record has one.
#[derive(Debug)]
pub struct RawTransactionRecord {
    pub tx_type: String,
    pub client: u16,
    pub tx: u32,
    pub amount: Option<String>,
}

/// The five kinds of event.
#[derive(Debug, Clone, Copy, PartialEq, Eq, Structural)]
pub enum TransactionKind {
    Deposit,
    Withdrawal,
    Dispute,
    Resolve,
    Chargeback,
}

/// The lowercase form of a text, as `str::to_lowercase` gives it.
pub uninterp spec fn lowercased(text: Seq<char>) -> Seq<char>;

/// `str::to_lowercase`: the lowercase form of the text by Unicode's rules.
#[verifier::external_body]
fn lowercase(text: &str) -> (lower: String)
    ensures
        lower@ == lowercased(text@),
{
    text.to_lowercase()
}

/// The kind that a name, in lowercase, stands for.
pub open spec fn kind_named(name: Seq<char>) -> Option<TransactionKind> {
    if name == "deposit"@ {
        Some(TransactionKind::Deposit)
    } else if name == "withdrawal"@ {
        Some(TransactionKind::Withdrawal)
    } else if name == "dispute"@ {
        Some(TransactionKind::Dispute)
    } else if name == "resolve"@ {
        Some(TransactionKind::Resolve)
    } else if name == "chargeback"@ {
        Some(TransactionKind::Chargeback)
    } else {
        None
    }
}

/// The kind that the type field of a record stands for: its name is read
/// without surrounding white space and without regard to case.
pub open spec fn kind_of_field(field: Seq<char>) -> Option<TransactionKind> {
    kind_named(lowercased(trimmed(field)))
}

/// Whether `result` is what a record of the given kind and fields is turned
/// into. An unknown kind is refused with the type field as it was written; a
/// deposit or withdrawal needs an amount that `A` reads; the other kinds take
/// no amount, and one that is there is left unread.
pub open spec fn event_of<A: AmountType>(
    kind: Option<TransactionKind>,
    record: RawTransactionRecord,
    result: Result<Transaction<A>, IoError>,
) -> bool {
    match kind {
        None => result matches Err(IoError::InvalidTransactionType(t)) && t@ == record.tx_type@,
        Some(TransactionKind::Deposit) => match record.amount {
            None => result matches Err(IoError::MissingField(m)) && m@
                == "amount required for deposit"@,
            Some(text) => match A::parsed(text@) {
                Ok(v) => result matches Ok(Transaction::Deposit { client_id, tx_id, amount })
                    && client_id == record.client && tx_id == record.tx && amount.value() == v,
                Err(_) => result matches Err(IoError::InvalidAmount(t)) && t@ == text@,
            },
        },
        Some(TransactionKind::Withdrawal) => match record.amount {
            None => result matches Err(IoError::MissingField(m)) && m@
                == "amount required for withdrawal"@,
            Some(text) => match A::parsed(text@) {
                Ok(v) => result matches Ok(Transaction::Withdrawal { client_id, tx_id, amount })
                    && client_id == record.client && tx_id == record.tx && amount.value() == v,
                Err(_) => result matches Err(IoError::InvalidAmount(t)) && t@ == text@,
            },
        },
        Some(TransactionKind::Dispute) => result matches Ok(
            Transaction::Dispute { client_id, tx_id },
        ) && client_id == record.client && tx_id == record.tx,
        Some(TransactionKind::Resolve) => result matches Ok(
            Transaction::Resolve { client_id, tx_id },
        ) && client_id == record.client && tx_id == record.tx,
        Some(TransactionKind::Chargeback) => result matches Ok(
            Transaction::Chargeback { client_id, tx_id },
        ) && client_id == record.client && tx_id == record.tx,
    }
}

/// Whether two texts are the same.
fn same_text(a: &str, b: &str) -> (same: bool)
    ensures
        same == (a@ == b@),
{
    String::from_str(a) == String::from_str(b)
}

impl TransactionKind {
    /// The kind that a name, in lowercase, stands for.
    pub fn from_name(name: &str) -> (kind: Option<TransactionKind>)
        ensures
            kind == kind_named(name@),
    {
        if same_text(name, "deposit") {
            Some(TransactionKind::Deposit)
        } else if same_text(name, "withdrawal") {
            Some(TransactionKind::Withdrawal)
        } else if same_text(name, "dispute") {
            Some(TransactionKind::Dispute)
        } else if same_text(name, "resolve") {
            Some(TransactionKind::Resolve)
        } else if same_text(name, "chargeback") {
            Some(TransactionKind::Chargeback)
        } else {
            None
        }
    }
}

/// The text of `amount` read as an amount of a deposit or withdrawal.
fn read_amount<A: AmountType>(amount: Option<String>, missing: &str) -> (result: Result<A, IoError>)
    ensures
        match amount {
            None => result matches Err(IoError::MissingField(m)) && m@ == missing@,
            Some(text) => match A::parsed(text@) {
                Ok(v) => result matches Ok(a) && a.value() == v,
                Err(_) => result matches Err(IoError::InvalidAmount(t)) && t@ == text@,
            },
        },
{
    match amount {
        None => Err(IoError::MissingField(String::from_str(missing))),
        Some(text) => match A::from_decimal_str(text.as_str()) {
            Ok(value) => Ok(value),
            Err(_) => Err(IoError::InvalidAmount(text)),
        },
    }
}

impl RawTransactionRecord {
    /// The kind of event that the type field names, if any.
    pub fn kind(&self) -> (kind: Option<TransactionKind>)
        ensures
            kind == kind_of_field(self.tx_type@),
    {
        let chars = text_chars(self.tx_type.as_str());
        let (lo, hi) = trim_bounds(&chars);
        let name = lowercase(self.tx_type.as_str().substring_char(lo, hi));
        TransactionKind::from_name(name.as_str())
    }

    /// Turns the record into an event of the given kind.
    pub fn into_event<A: AmountType>(self, kind: Option<TransactionKind>) -> (result: Result<
        Transaction<A>,
        IoError,
    >)
        ensures
            event_of::<A>(kind, self, result),
    {
        match kind {
            None => Err(IoError::InvalidTransactionType(self.tx_type)),
            Some(TransactionKind::Deposit) => {
                match read_amount::<A>(self.amount, "amount required for deposit") {
                    Ok(amount) => Ok(
                        Transaction::Deposit { client_id: self.client, tx_id: self.tx, amount },
                    ),
                    Err(e) => Err(e),
                }
            },
            Some(TransactionKind::Withdrawal) => {
                match read_amount::<A>(self.amount, "amount required for withdrawal") {
                    Ok(amount) => Ok(
                        Transaction::Withdrawal { client_id: self.client, tx_id: self.tx, amount },
                    ),
                    Err(e) => Err(e),
                }
            },
            Some(TransactionKind::Dispute) => Ok(
                Transaction::Dispute { client_id: self.client, tx_id: self.tx },
            ),
            Some(TransactionKind::Resolve) => Ok(
                Transaction::Resolve { client_id: self.client, tx_id: self.tx },
            ),
            Some(TransactionKind::Chargeback) => Ok(
                Transaction::Chargeback { client_id: self.client, tx_id: self.tx },
            ),
        }
    }

    /// Turns the record into an event.
    pub fn parse<A: AmountType>(self) -> (result: Result<Transaction<A>, IoError>)
        ensures
            event_of::<A>(kind_of_field(self.tx_type@), self, result),
    {
        let kind = self.kind();
        self.into_event(kind)
    }
}

} // verus!
