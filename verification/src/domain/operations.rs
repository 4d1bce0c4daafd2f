//! The five operations on an account, each all-or-nothing: on an error the
//! account is left as it was.

use vstd::prelude::*;
use super::account::AccountView;
use super::account::ClientAccount;
use super::amount::AmountType;
use super::error::DomainError;

verus! {

/// A deposit of `amount`: the amount must be positive, the account unlocked,
/// and the new available balance an amount that `A` can hold.
pub open spec fn after_deposit<A: AmountType>(account: AccountView, amount: int) -> Result<
    AccountView,
    DomainError,
> {
    if amount <= 0 {
        Err(DomainError::InvalidAmount)
    } else if account.locked {
        Err(DomainError::AccountLocked)
    } else if !A::representable(account.available + amount) {
        Err(DomainError::Overflow)
    } else {
        Ok(AccountView { available: account.available + amount, ..account })
    }
}

/// A withdrawal of `amount`: the amount must be positive, the account
/// unlocked, and the available balance at least the amount.
pub open spec fn after_withdrawal<A: AmountType>(account: AccountView, amount: int) -> Result<
    AccountView,
    DomainError,
> {
    if amount <= 0 {
        Err(DomainError::InvalidAmount)
    } else if account.locked {
        Err(DomainError::AccountLocked)
    } else if account.available < amount {
        Err(DomainError::InsufficientFunds)
    } else if !A::representable(account.available - amount) {
        Err(DomainError::Overflow)
    } else {
        Ok(AccountView { available: account.available - amount, ..account })
    }
}

/// A dispute of transaction `tx_id` over `amount`: the account must be
/// unlocked, the transaction not yet disputed, and the available balance at
/// least the amount, which then moves from available to held.
pub open spec fn after_dispute<A: AmountType>(
    account: AccountView,
    tx_id: u32,
    amount: int,
) -> Result<AccountView, DomainError> {
    if account.locked {
        Err(DomainError::AccountLocked)
    } else if account.disputed.contains(tx_id) {
        Err(DomainError::AlreadyDisputed)
    } else if account.available < amount {
        Err(DomainError::InsufficientFunds)
    } else if !A::representable(account.available - amount) || !A::representable(
        account.held + amount,
    ) {
        Err(DomainError::Overflow)
    } else {
        Ok(
            AccountView {
                available: account.available - amount,
                held: account.held + amount,
                disputed: account.disputed.insert(tx_id),
                ..account
            },
        )
    }
}

/// A resolve of transaction `tx_id` over `amount`: the account must be
/// unlocked, the transaction disputed, and the held balance at least the
/// amount, which then moves back from held to available.
pub open spec fn after_resolve<A: AmountType>(
    account: AccountView,
    tx_id: u32,
    amount: int,
) -> Result<AccountView, DomainError> {
    if account.locked {
        Err(DomainError::AccountLocked)
    } else if !account.disputed.contains(tx_id) {
        Err(DomainError::NotDisputed)
    } else if account.held < amount {
        Err(DomainError::InsufficientFunds)
    } else if !A::representable(account.held - amount) || !A::representable(
        account.available + amount,
    ) {
        Err(DomainError::Overflow)
    } else {
        Ok(
            AccountView {
                available: account.available + amount,
                held: account.held - amount,
                disputed: account.disputed.remove(tx_id),
                ..account
            },
        )
    }
}

/// A chargeback of transaction `tx_id` over `amount`: the transaction must be
/// disputed and the held balance at least the amount, which then leaves the
/// account; the account is locked. A locked account does not refuse it.
pub open spec fn after_chargeback<A: AmountType>(
    account: AccountView,
    tx_id: u32,
    amount: int,
) -> Result<AccountView, DomainError> {
    if !account.disputed.contains(tx_id) {
        Err(DomainError::NotDisputed)
    } else if account.held < amount {
        Err(DomainError::InsufficientFunds)
    } else if !A::representable(account.held - amount) {
        Err(DomainError::Overflow)
    } else {
        Ok(
            AccountView {
                held: account.held - amount,
                locked: true,
                disputed: account.disputed.remove(tx_id),
                ..account
            },
        )
    }
}

/// One of the five operations, with what it needs: the way to hand an
/// operation to a store, which applies it to the account it holds.
#[derive(Debug)]
pub enum AccountOperation<A: AmountType> {
    Deposit { amount: A },
    Withdrawal { amount: A },
    Dispute { tx_id: u32, amount: A },
    Resolve { tx_id: u32, amount: A },
    Chargeback { tx_id: u32, amount: A },
}

/// The mathematical model of an operation. Amounts are in ten-thousandths.
pub enum OperationView {
    Deposit { amount: int },
    Withdrawal { amount: int },
    Dispute { tx_id: u32, amount: int },
    Resolve { tx_id: u32, amount: int },
    Chargeback { tx_id: u32, amount: int },
}

impl OperationView {
    /// What the operation makes of `account`: the new state, or the error.
    pub open spec fn outcome<A: AmountType>(self, account: AccountView) -> Result<
        AccountView,
        DomainError,
    > {
        match self {
            OperationView::Deposit { amount } => after_deposit::<A>(account, amount),
            OperationView::Withdrawal { amount } => after_withdrawal::<A>(account, amount),
            OperationView::Dispute { tx_id, amount } => after_dispute::<A>(account, tx_id, amount),
            OperationView::Resolve { tx_id, amount } => after_resolve::<A>(account, tx_id, amount),
            OperationView::Chargeback { tx_id, amount } => after_chargeback::<A>(
                account,
                tx_id,
                amount,
            ),
        }
    }

    /// The account after the operation: the new state where it succeeds, the
    /// old one where it is refused.
    pub open spec fn effect<A: AmountType>(self, account: AccountView) -> AccountView {
        match self.outcome::<A>(account) {
            Ok(next) => next,
            Err(_) => account,
        }
    }
}

impl<A: AmountType> View for AccountOperation<A> {
    type V = OperationView;

    open spec fn view(&self) -> OperationView {
        match *self {
            AccountOperation::Deposit { amount } => OperationView::Deposit {
                amount: amount.value(),
            },
            AccountOperation::Withdrawal { amount } => OperationView::Withdrawal {
                amount: amount.value(),
            },
            AccountOperation::Dispute { tx_id, amount } => OperationView::Dispute {
                tx_id,
                amount: amount.value(),
            },
            AccountOperation::Resolve { tx_id, amount } => OperationView::Resolve {
                tx_id,
                amount: amount.value(),
            },
            AccountOperation::Chargeback { tx_id, amount } => OperationView::Chargeback {
                tx_id,
                amount: amount.value(),
            },
        }
    }
}

impl<A: AmountType> AccountOperation<A> {
    /// Applies the operation to `account`.
    pub fn apply(&self, account: &mut ClientAccount<A>) -> (result: Result<(), DomainError>)
        ensures
            applied(self@.outcome::<A>(old(account)@), old(account)@, final(account)@, result),
    {
        match self {
            AccountOperation::Deposit { amount } => apply_deposit(account, *amount),
            AccountOperation::Withdrawal { amount } => apply_withdrawal(account, *amount),
            AccountOperation::Dispute { tx_id, amount } => apply_dispute(account, *tx_id, *amount),
            AccountOperation::Resolve { tx_id, amount } => apply_resolve(account, *tx_id, *amount),
            AccountOperation::Chargeback { tx_id, amount } => apply_chargeback(
                account,
                *tx_id,
                *amount,
            ),
        }
    }
}

/// Whether `result` and the account after the call are what `outcome` asks
/// for: the new state on success, the error and the old state otherwise.
pub open spec fn applied(
    outcome: Result<AccountView, DomainError>,
    before: AccountView,
    after: AccountView,
    result: Result<(), DomainError>,
) -> bool {
    match outcome {
        Ok(next) => result is Ok && after == next,
        Err(e) => result == Err::<(), DomainError>(e) && after == before,
    }
}

/// Credits `amount` to the available balance.
pub fn apply_deposit<A: AmountType>(account: &mut ClientAccount<A>, amount: A) -> (result: Result<
    (),
    DomainError,
>)
    ensures
        applied(
            after_deposit::<A>(old(account)@, amount.value()),
            old(account)@,
            final(account)@,
            result,
        ),
{
    if !A::zero().less_than(&amount) {
        return Err(DomainError::InvalidAmount);
    }
    if account.is_locked() {
        return Err(DomainError::AccountLocked);
    }
    let new_available = match account.available().checked_add(amount) {
        Some(sum) => sum,
        None => {
            return Err(DomainError::Overflow);
        },
    };
    proof {
        new_available.value_is_representable();
    }
    account.set_available(new_available);
    Ok(())
}

/// Debits `amount` from the available balance.
pub fn apply_withdrawal<A: AmountType>(account: &mut ClientAccount<A>, amount: A) -> (result:
    Result<(), DomainError>)
    ensures
        applied(
            after_withdrawal::<A>(old(account)@, amount.value()),
            old(account)@,
            final(account)@,
            result,
        ),
{
    if !A::zero().less_than(&amount) {
        return Err(DomainError::InvalidAmount);
    }
    if account.is_locked() {
        return Err(DomainError::AccountLocked);
    }
    if account.available().less_than(&amount) {
        return Err(DomainError::InsufficientFunds);
    }
    let new_available = match account.available().checked_sub(amount) {
        Some(difference) => difference,
        None => {
            return Err(DomainError::Overflow);
        },
    };
    proof {
        new_available.value_is_representable();
    }
    account.set_available(new_available);
    Ok(())
}

/// Opens a dispute on `tx_id`: `amount` moves from available to held.
pub fn apply_dispute<A: AmountType>(account: &mut ClientAccount<A>, tx_id: u32, amount: A) -> (result:
    Result<(), DomainError>)
    ensures
        applied(
            after_dispute::<A>(old(account)@, tx_id, amount.value()),
            old(account)@,
            final(account)@,
            result,
        ),
{
    if account.is_locked() {
        return Err(DomainError::AccountLocked);
    }
    if account.is_disputed(tx_id) {
        return Err(DomainError::AlreadyDisputed);
    }
    if account.available().less_than(&amount) {
        return Err(DomainError::InsufficientFunds);
    }
    let new_available = match account.available().checked_sub(amount) {
        Some(difference) => difference,
        None => {
            return Err(DomainError::Overflow);
        },
    };
    let new_held = match account.held().checked_add(amount) {
        Some(sum) => sum,
        None => {
            return Err(DomainError::Overflow);
        },
    };
    proof {
        new_available.value_is_representable();
        new_held.value_is_representable();
    }
    account.set_available(new_available);
    account.set_held(new_held);
    account.add_disputed(tx_id);
    Ok(())
}

/// Closes the dispute on `tx_id` in the client's favour: `amount` moves back
/// from held to available.
pub fn apply_resolve<A: AmountType>(account: &mut ClientAccount<A>, tx_id: u32, amount: A) -> (result:
    Result<(), DomainError>)
    ensures
        applied(
            after_resolve::<A>(old(account)@, tx_id, amount.value()),
            old(account)@,
            final(account)@,
            result,
        ),
{
    if account.is_locked() {
        return Err(DomainError::AccountLocked);
    }
    if !account.is_disputed(tx_id) {
        return Err(DomainError::NotDisputed);
    }
    if account.held().less_than(&amount) {
        return Err(DomainError::InsufficientFunds);
    }
    let new_held = match account.held().checked_sub(amount) {
        Some(difference) => difference,
        None => {
            return Err(DomainError::Overflow);
        },
    };
    let new_available = match account.available().checked_add(amount) {
        Some(sum) => sum,
        None => {
            return Err(DomainError::Overflow);
        },
    };
    proof {
        new_available.value_is_representable();
        new_held.value_is_representable();
    }
    account.set_held(new_held);
    account.set_available(new_available);
    account.remove_disputed(tx_id);
    Ok(())
}

/// Closes the dispute on `tx_id` against the client: `amount` leaves the held
/// balance and the account is locked.
pub fn apply_chargeback<A: AmountType>(account: &mut ClientAccount<A>, tx_id: u32, amount: A) -> (result:
    Result<(), DomainError>)
    ensures
        applied(
            after_chargeback::<A>(old(account)@, tx_id, amount.value()),
            old(account)@,
            final(account)@,
            result,
        ),
{
    if !account.is_disputed(tx_id) {
        return Err(DomainError::NotDisputed);
    }
    if account.held().less_than(&amount) {
        return Err(DomainError::InsufficientFunds);
    }
    let new_held = match account.held().checked_sub(amount) {
        Some(difference) => difference,
        None => {
            return Err(DomainError::Overflow);
        },
    };
    proof {
        new_held.value_is_representable();
    }
    account.set_held(new_held);
    account.lock();
    account.remove_disputed(tx_id);
    Ok(())
}

} // verus!
