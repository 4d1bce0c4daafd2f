//! The events that the engine consumes, and the record kept of a deposit or
//! withdrawal for later disputes.

use vstd::prelude::*;
use super::amount::AmountType;

verus! {

/// The mathematical model of an event. Amounts are in ten-thousandths.
pub enum TransactionView {
    Deposit { client_id: u16, tx_id: u32, amount: int },
    Withdrawal { client_id: u16, tx_id: u32, amount: int },
    Dispute { client_id: u16, tx_id: u32 },
    Resolve { client_id: u16, tx_id: u32 },
    Chargeback { client_id: u16, tx_id: u32 },
}

impl TransactionView {
    /// The client that the event is about.
    pub open spec fn client_id(self) -> u16 {
        match self {
            TransactionView::Deposit { client_id, .. } => client_id,
            TransactionView::Withdrawal { client_id, .. } => client_id,
            TransactionView::Dispute { client_id, .. } => client_id,
            TransactionView::Resolve { client_id, .. } => client_id,
            TransactionView::Chargeback { client_id, .. } => client_id,
        }
    }

    /// The transaction that the event creates or refers to.
    pub open spec fn tx_id(self) -> u32 {
        match self {
            TransactionView::Deposit { tx_id, .. } => tx_id,
            TransactionView::Withdrawal { tx_id, .. } => tx_id,
            TransactionView::Dispute { tx_id, .. } => tx_id,
            TransactionView::Resolve { tx_id, .. } => tx_id,
            TransactionView::Chargeback { tx_id, .. } => tx_id,
        }
    }
}

/// An account event. Only deposits and withdrawals carry an amount.
#[derive(Debug, Clone, PartialEq, Eq)]
pub enum Transaction<A: AmountType> {
    Deposit { client_id: u16, tx_id: u32, amount: A },
    Withdrawal { client_id: u16, tx_id: u32, amount: A },
    Dispute { client_id: u16, tx_id: u32 },
    Resolve { client_id: u16, tx_id: u32 },
    Chargeback { client_id: u16, tx_id: u32 },
}

impl<A: AmountType> View for Transaction<A> {
    type V = TransactionView;

    open spec fn view(&self) -> TransactionView {
        match *self {
            Transaction::Deposit { client_id, tx_id, amount } => TransactionView::Deposit {
                client_id,
                tx_id,
                amount: amount.value(),
            },
            Transaction::Withdrawal { client_id, tx_id, amount } => TransactionView::Withdrawal {
                client_id,
                tx_id,
                amount: amount.value(),
            },
            Transaction::Dispute { client_id, tx_id } => TransactionView::Dispute {
                client_id,
                tx_id,
            },
            Transaction::Resolve { client_id, tx_id } => TransactionView::Resolve {
                client_id,
                tx_id,
            },
            Transaction::Chargeback { client_id, tx_id } => TransactionView::Chargeback {
                client_id,
                tx_id,
            },
        }
    }
}

impl<A: AmountType> Transaction<A> {
    /// The client that the event is about.
    pub fn client_id(&self) -> (id: u16)
        ensures
            id == self@.client_id(),
    {
        match self {
            Transaction::Deposit { client_id, .. } => *client_id,
            Transaction::Withdrawal { client_id, .. } => *client_id,
            Transaction::Dispute { client_id, .. } => *client_id,
            Transaction::Resolve { client_id, .. } => *client_id,
            Transaction::Chargeback { client_id, .. } => *client_id,
        }
    }

    /// The transaction that the event creates or refers to.
    pub fn tx_id(&self) -> (id: u32)
        ensures
            id == self@.tx_id(),
    {
        match self {
            Transaction::Deposit { tx_id, .. } => *tx_id,
            Transaction::Withdrawal { tx_id, .. } => *tx_id,
            Transaction::Dispute { tx_id, .. } => *tx_id,
            Transaction::Resolve { tx_id, .. } => *tx_id,
            Transaction::Chargeback { tx_id, .. } => *tx_id,
        }
    }
}

/// The mathematical model of a transaction record.
pub struct RecordView {
    pub client_id: u16,
    pub amount: int,
}

/// What is remembered of a deposit or withdrawal: whose it was and how much.
#[derive(Debug, Clone, PartialEq, Eq)]
pub struct TransactionRecord<A: AmountType> {
    pub client_id: u16,
    pub amount: A,
}

impl<A: AmountType> View for TransactionRecord<A> {
    type V = RecordView;

    open spec fn view(&self) -> RecordView {
        RecordView { client_id: self.client_id, amount: self.amount.value() }
    }
}

impl<A: AmountType> TransactionRecord<A> {
    /// The record of a transaction of `amount` by `client_id`.
    pub fn new(client_id: u16, amount: A) -> (record: Self)
        ensures
            record.client_id == client_id,
            record.amount == amount,
    {
        TransactionRecord { client_id, amount }
    }
}

} // verus!
