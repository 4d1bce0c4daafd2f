//! Applies events to the account store, with the transaction log as the
//! memory of what a dispute, resolve or chargeback refers to.

use vstd::prelude::*;
use std::marker::PhantomData;
use super::error::EngineError;
use crate::domain::account::AccountView;
use crate::domain::amount::AmountType;
use crate::domain::operations::AccountOperation;
use crate::domain::operations::OperationView;
use crate::domain::transaction::RecordView;
use crate::domain::transaction::Transaction;
use crate::domain::transaction::TransactionRecord;
use crate::domain::transaction::TransactionView;
use crate::storage::error::StorageError;
use crate::storage::traits::ClientAccountManager;
use crate::storage::traits::TransactionStoreManager;
use crate::storage::traits::account_of;

verus! {

/// The mathematical model of what a processor works on: the accounts by
/// client id and the transaction records by transaction id.
pub struct EngineState {
    pub accounts: Map<u16, AccountView>,
    pub records: Map<u32, RecordView>,
}

/// The record that `client_id` may refer to by `tx_id`: the one in the log,
/// unless another client made that transaction.
pub open spec fn own_record(records: Map<u32, RecordView>, client_id: u16, tx_id: u32) -> Option<
    RecordView,
> {
    if records.contains_key(tx_id) && records[tx_id].client_id == client_id {
        Some(records[tx_id])
    } else {
        None
    }
}

/// The operation that an event asks for. A dispute, resolve or chargeback
/// takes its amount from the log; it asks for nothing where the log has no
/// record of the transaction for that client. The log makes no difference
/// between deposits and withdrawals: a withdrawal can be disputed like a
/// deposit, and its amount then moves from available to held.
pub open spec fn operation_for(event: TransactionView, records: Map<u32, RecordView>) -> Option<
    OperationView,
> {
    match event {
        TransactionView::Deposit { amount, .. } => Some(OperationView::Deposit { amount }),
        TransactionView::Withdrawal { amount, .. } => Some(OperationView::Withdrawal { amount }),
        TransactionView::Dispute { client_id, tx_id } => match own_record(
            records,
            client_id,
            tx_id,
        ) {
            Some(record) => Some(OperationView::Dispute { tx_id, amount: record.amount }),
            None => None,
        },
        TransactionView::Resolve { client_id, tx_id } => match own_record(
            records,
            client_id,
            tx_id,
        ) {
            Some(record) => Some(OperationView::Resolve { tx_id, amount: record.amount }),
            None => None,
        },
        TransactionView::Chargeback { client_id, tx_id } => match own_record(
            records,
            client_id,
            tx_id,
        ) {
            Some(record) => Some(OperationView::Chargeback { tx_id, amount: record.amount }),
            None => None,
        },
    }
}

/// The log after an event that was applied: a deposit or withdrawal is
/// recorded under its transaction id, other events leave the log alone. An
/// id that is used again replaces the record that was there.
pub open spec fn records_after(event: TransactionView, records: Map<u32, RecordView>) -> Map<
    u32,
    RecordView,
> {
    match event {
        TransactionView::Deposit { client_id, tx_id, amount } => records.insert(
            tx_id,
            RecordView { client_id, amount },
        ),
        TransactionView::Withdrawal { client_id, tx_id, amount } => records.insert(
            tx_id,
            RecordView { client_id, amount },
        ),
        _ => records,
    }
}

/// What processing an event returns: `TransactionNotFound` where the event
/// refers to a transaction that the log does not hold for its client, the
/// error of the operation where the account rules refuse it, `Ok` otherwise.
pub open spec fn outcome_of<A: AmountType>(state: EngineState, event: TransactionView) -> Result<
    (),
    EngineError,
> {
    match operation_for(event, state.records) {
        None => Err(EngineError::TransactionNotFound(event.tx_id())),
        Some(operation) => match operation.outcome::<A>(
            account_of(state.accounts, event.client_id()),
        ) {
            Ok(_) => Ok(()),
            Err(e) => Err(EngineError::Storage(StorageError::DomainError(e))),
        },
    }
}

/// The state after processing an event: where the event is refused nothing
/// changes; otherwise the account of its client is replaced by the result of
/// the operation, and a deposit or withdrawal is recorded in the log.
pub open spec fn state_after<A: AmountType>(state: EngineState, event: TransactionView) -> EngineState {
    match operation_for(event, state.records) {
        None => state,
        Some(operation) => match operation.outcome::<A>(
            account_of(state.accounts, event.client_id()),
        ) {
            Ok(next) => EngineState {
                accounts: state.accounts.insert(event.client_id(), next),
                records: records_after(event, state.records),
            },
            Err(_) => state,
        },
    }
}

/// A transaction processor over an account store and a transaction log.
pub struct TransactionProcessor<A, M, T> where
    A: AmountType,
    M: ClientAccountManager<A>,
    T: TransactionStoreManager<A>,
 {
    account_manager: M,
    transaction_store: T,
    _phantom: PhantomData<A>,
}

impl<A, M, T> TransactionProcessor<A, M, T> where
    A: AmountType,
    M: ClientAccountManager<A>,
    T: TransactionStoreManager<A>,
 {
    /// The accounts and records that the processor works on.
    pub closed spec fn state(&self) -> EngineState {
        EngineState {
            accounts: self.account_manager.accounts(),
            records: self.transaction_store.records(),
        }
    }

    /// The account store of the processor.
    pub closed spec fn manager(&self) -> M {
        self.account_manager
    }

    /// A processor over the given store and log.
    pub fn new(account_manager: M, transaction_store: T) -> (processor: Self)
        ensures
            processor.state() == (EngineState {
                accounts: account_manager.accounts(),
                records: transaction_store.records(),
            }),
            processor.manager() == account_manager,
    {
        TransactionProcessor { account_manager, transaction_store, _phantom: PhantomData }
    }

    /// Processes one event.
    pub fn process_transaction(&mut self, tx: Transaction<A>) -> (result: Result<(), EngineError>)
        ensures
            final(self).state() == state_after::<A>(old(self).state(), tx@),
            result == outcome_of::<A>(old(self).state(), tx@),
    {
        match tx {
            Transaction::Deposit { client_id, tx_id, amount } => self.process_deposit(
                client_id,
                tx_id,
                amount,
            ),
            Transaction::Withdrawal { client_id, tx_id, amount } => self.process_withdrawal(
                client_id,
                tx_id,
                amount,
            ),
            Transaction::Dispute { client_id, tx_id } => self.process_dispute(client_id, tx_id),
            Transaction::Resolve { client_id, tx_id } => self.process_resolve(client_id, tx_id),
            Transaction::Chargeback { client_id, tx_id } => self.process_chargeback(
                client_id,
                tx_id,
            ),
        }
    }

    /// The account store, for reading accounts and taking snapshots.
    pub fn account_manager(&self) -> (manager: &M)
        ensures
            *manager == self.manager(),
            manager.accounts() == self.state().accounts,
    {
        &self.account_manager
    }

    fn process_deposit(&mut self, client_id: u16, tx_id: u32, amount: A) -> (result: Result<
        (),
        EngineError,
    >)
        ensures
            final(self).state() == state_after::<A>(
                old(self).state(),
                TransactionView::Deposit { client_id, tx_id, amount: amount.value() },
            ),
            result == outcome_of::<A>(
                old(self).state(),
                TransactionView::Deposit { client_id, tx_id, amount: amount.value() },
            ),
    {
        match self.account_manager.try_update(client_id, AccountOperation::Deposit { amount }) {
            Ok(()) => {
                self.transaction_store.insert(tx_id, TransactionRecord::new(client_id, amount));
                Ok(())
            },
            Err(e) => Err(EngineError::Storage(e)),
        }
    }

    fn process_withdrawal(&mut self, client_id: u16, tx_id: u32, amount: A) -> (result: Result<
        (),
        EngineError,
    >)
        ensures
            final(self).state() == state_after::<A>(
                old(self).state(),
                TransactionView::Withdrawal { client_id, tx_id, amount: amount.value() },
            ),
            result == outcome_of::<A>(
                old(self).state(),
                TransactionView::Withdrawal { client_id, tx_id, amount: amount.value() },
            ),
    {
        match self.account_manager.try_update(client_id, AccountOperation::Withdrawal { amount }) {
            Ok(()) => {
                self.transaction_store.insert(tx_id, TransactionRecord::new(client_id, amount));
                Ok(())
            },
            Err(e) => Err(EngineError::Storage(e)),
        }
    }

    /// The amount of transaction `tx_id`, where the log holds it for `client_id`.
    fn recorded_amount(&self, client_id: u16, tx_id: u32) -> (amount: Option<A>)
        ensures
            match amount {
                Some(a) => own_record(self.state().records, client_id, tx_id) matches Some(r)
                    && r.amount == a.value(),
                None => own_record(self.state().records, client_id, tx_id) is None,
            },
    {
        match self.transaction_store.get(tx_id) {
            Some(record) => if record.client_id != client_id {
                None
            } else {
                Some(record.amount)
            },
            None => None,
        }
    }

    fn process_dispute(&mut self, client_id: u16, tx_id: u32) -> (result: Result<(), EngineError>)
        ensures
            final(self).state() == state_after::<A>(
                old(self).state(),
                TransactionView::Dispute { client_id, tx_id },
            ),
            result == outcome_of::<A>(
                old(self).state(),
                TransactionView::Dispute { client_id, tx_id },
            ),
    {
        let amount = match self.recorded_amount(client_id, tx_id) {
            Some(amount) => amount,
            None => {
                return Err(EngineError::TransactionNotFound(tx_id));
            },
        };
        match self.account_manager.try_update(
            client_id,
            AccountOperation::Dispute { tx_id, amount },
        ) {
            Ok(()) => Ok(()),
            Err(e) => Err(EngineError::Storage(e)),
        }
    }

    fn process_resolve(&mut self, client_id: u16, tx_id: u32) -> (result: Result<(), EngineError>)
        ensures
            final(self).state() == state_after::<A>(
                old(self).state(),
                TransactionView::Resolve { client_id, tx_id },
            ),
            result == outcome_of::<A>(
                old(self).state(),
                TransactionView::Resolve { client_id, tx_id },
            ),
    {
        let amount = match self.recorded_amount(client_id, tx_id) {
            Some(amount) => amount,
            None => {
                return Err(EngineError::TransactionNotFound(tx_id));
            },
        };
        match self.account_manager.try_update(
            client_id,
            AccountOperation::Resolve { tx_id, amount },
        ) {
            Ok(()) => Ok(()),
            Err(e) => Err(EngineError::Storage(e)),
        }
    }

    fn process_chargeback(&mut self, client_id: u16, tx_id: u32) -> (result: Result<
        (),
        EngineError,
    >)
        ensures
            final(self).state() == state_after::<A>(
                old(self).state(),
                TransactionView::Chargeback { client_id, tx_id },
            ),
            result == outcome_of::<A>(
                old(self).state(),
                TransactionView::Chargeback { client_id, tx_id },
            ),
    {
        let amount = match self.recorded_amount(client_id, tx_id) {
            Some(amount) => amount,
            None => {
                return Err(EngineError::TransactionNotFound(tx_id));
            },
        };
        match self.account_manager.try_update(
            client_id,
            AccountOperation::Chargeback { tx_id, amount },
        ) {
            Ok(()) => Ok(()),
            Err(e) => Err(EngineError::Storage(e)),
        }
    }
}

} // verus!
