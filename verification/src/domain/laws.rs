//! What holds of the account rules, whatever the account and the amounts.

use vstd::prelude::*;
use super::account::AccountView;
use super::amount::AmountType;
use super::error::DomainError;
use super::operations::OperationView;
use super::operations::after_chargeback;
use super::operations::after_deposit;
use super::operations::after_dispute;
use super::operations::after_resolve;
use super::operations::after_withdrawal;

verus! {

impl OperationView {
    /// The amount that the operation moves.
    pub open spec fn amount(self) -> int {
        match self {
            OperationView::Deposit { amount } => amount,
            OperationView::Withdrawal { amount } => amount,
            OperationView::Dispute { amount, .. } => amount,
            OperationView::Resolve { amount, .. } => amount,
            OperationView::Chargeback { amount, .. } => amount,
        }
    }
}

/// The total of an account is its available plus its held funds; a deposit
/// raises it by the amount, a withdrawal and a chargeback lower it by the
/// amount, a dispute and a resolve leave it as it is.
pub proof fn total_follows_the_operation<A: AmountType>(account: AccountView, operation: OperationView)
    requires
        operation.outcome::<A>(account) is Ok,
    ensures
        account.total() == account.available + account.held,
        operation.effect::<A>(account).total() == match operation {
            OperationView::Deposit { amount } => account.total() + amount,
            OperationView::Withdrawal { amount } => account.total() - amount,
            OperationView::Dispute { .. } => account.total(),
            OperationView::Resolve { .. } => account.total(),
            OperationView::Chargeback { amount, .. } => account.total() - amount,
        },
{
}

/// No operation over a non-negative amount makes a balance negative, whether
/// it succeeds or is refused.
pub proof fn balances_stay_non_negative<A: AmountType>(account: AccountView, operation: OperationView)
    requires
        account.solvent(),
        operation.amount() >= 0,
    ensures
        operation.effect::<A>(account).solvent(),
{
}

/// No operation moves an account to another client.
pub proof fn client_stays<A: AmountType>(account: AccountView, operation: OperationView)
    ensures
        operation.effect::<A>(account).client_id == account.client_id,
{
}

/// An account is all-or-nothing: an operation that is refused changes nothing.
pub proof fn refusal_changes_nothing<A: AmountType>(account: AccountView, operation: OperationView)
    requires
        operation.outcome::<A>(account) is Err,
    ensures
        operation.effect::<A>(account) == account,
{
}

/// On a locked account a deposit, withdrawal, dispute or resolve is refused
/// and changes nothing; the one operation that can still succeed, a
/// chargeback, leaves the available funds and the lock as they are.
pub proof fn locked_account_is_frozen<A: AmountType>(account: AccountView, operation: OperationView)
    requires
        account.locked,
    ensures
        !(operation is Chargeback) ==> operation.outcome::<A>(account) is Err
            && operation.effect::<A>(account) == account,
        operation.effect::<A>(account).available == account.available,
        operation.effect::<A>(account).locked,
{
}

/// Only a chargeback locks an account, and only while it is unlocked can
/// anything else succeed.
pub proof fn only_chargeback_locks<A: AmountType>(account: AccountView, operation: OperationView)
    requires
        !account.locked,
        operation.effect::<A>(account).locked,
    ensures
        operation is Chargeback,
        operation.outcome::<A>(account) is Ok,
{
}

/// Two deposits that succeed in one order and in the other leave the same
/// account behind.
pub proof fn deposits_commute<A: AmountType>(account: AccountView, first: int, second: int)
    requires
        after_deposit::<A>(account, first) matches Ok(a) && after_deposit::<A>(a, second) is Ok,
        after_deposit::<A>(account, second) matches Ok(b) && after_deposit::<A>(b, first) is Ok,
    ensures
        after_deposit::<A>(after_deposit::<A>(account, first)->Ok_0, second) == after_deposit::<A>(
            after_deposit::<A>(account, second)->Ok_0,
            first,
        ),
{
}

/// A dispute followed by a resolve of the same transaction over the same
/// amount leaves the account exactly as it was before the dispute.
pub proof fn resolve_undoes_dispute<A: AmountType>(account: AccountView, tx_id: u32, amount: int)
    requires
        A::representable(account.available),
        A::representable(account.held),
        account.held >= 0,
        after_dispute::<A>(account, tx_id, amount) is Ok,
    ensures
        after_resolve::<A>(after_dispute::<A>(account, tx_id, amount)->Ok_0, tx_id, amount) == Ok::<
            AccountView,
            DomainError,
        >(account),
{
    let disputed = after_dispute::<A>(account, tx_id, amount)->Ok_0;
    assert(disputed.disputed.remove(tx_id) == account.disputed);
}

/// A withdrawal of all available funds succeeds and leaves none.
pub proof fn withdrawal_of_everything<A: AmountType>(account: AccountView)
    requires
        account.available > 0,
        !account.locked,
        A::representable(0),
    ensures
        after_withdrawal::<A>(account, account.available) == Ok::<AccountView, DomainError>(
            AccountView { available: 0, ..account },
        ),
{
}

/// A deposit that would take the available funds past what `A` can hold is
/// refused with `Overflow`.
pub proof fn overflowing_deposit_is_refused<A: AmountType>(account: AccountView, amount: int)
    requires
        amount > 0,
        !account.locked,
        !A::representable(account.available + amount),
    ensures
        after_deposit::<A>(account, amount) == Err::<AccountView, DomainError>(
            DomainError::Overflow,
        ),
{
}

/// While a transaction is under dispute, a second dispute of it is refused
/// with `AlreadyDisputed`, whatever the amount.
pub proof fn second_dispute_is_refused<A: AmountType>(
    account: AccountView,
    tx_id: u32,
    amount: int,
    again: int,
)
    requires
        after_dispute::<A>(account, tx_id, amount) is Ok,
    ensures
        after_dispute::<A>(after_dispute::<A>(account, tx_id, amount)->Ok_0, tx_id, again) == Err::<
            AccountView,
            DomainError,
        >(DomainError::AlreadyDisputed),
{
}

/// After a chargeback the transaction is no longer under dispute: it can
/// neither be resolved nor charged back again.
pub proof fn chargeback_closes_the_dispute<A: AmountType>(
    account: AccountView,
    tx_id: u32,
    amount: int,
    again: int,
)
    requires
        after_chargeback::<A>(account, tx_id, amount) is Ok,
    ensures
        after_chargeback::<A>(after_chargeback::<A>(account, tx_id, amount)->Ok_0, tx_id, again)
            == Err::<AccountView, DomainError>(DomainError::NotDisputed),
        after_resolve::<A>(after_chargeback::<A>(account, tx_id, amount)->Ok_0, tx_id, again)
            is Err,
{
}

/// The account after the operations of `operations` have been tried on
/// `account` one after another; an operation that is refused is passed over.
pub open spec fn replay<A: AmountType>(account: AccountView, operations: Seq<OperationView>) -> AccountView
    decreases operations.len(),
{
    if operations.len() == 0 {
        account
    } else {
        operations.last().effect::<A>(replay::<A>(account, operations.drop_last()))
    }
}

/// Whether the operation at place `i` of `operations` succeeds when they are
/// tried on `account` one after another.
pub open spec fn succeeds_at<A: AmountType>(
    account: AccountView,
    operations: Seq<OperationView>,
    i: int,
) -> bool {
    operations[i].outcome::<A>(replay::<A>(account, operations.take(i))) is Ok
}

/// Whether the operation is a dispute of `tx_id`.
pub open spec fn opens(operation: OperationView, tx_id: u32) -> bool {
    operation matches OperationView::Dispute { tx_id: t, .. } && t == tx_id
}

/// Whether the operation is a resolve or a chargeback of `tx_id`.
pub open spec fn closes(operation: OperationView, tx_id: u32) -> bool {
    ||| (operation matches OperationView::Resolve { tx_id: t, .. } && t == tx_id)
    ||| (operation matches OperationView::Chargeback { tx_id: t, .. } && t == tx_id)
}

/// Whether a dispute of `tx_id` has been applied and no resolve or chargeback
/// of it has been applied since.
pub open spec fn dispute_is_open<A: AmountType>(
    account: AccountView,
    operations: Seq<OperationView>,
    tx_id: u32,
) -> bool {
    exists|i: int|
        0 <= i < operations.len() && opens(operations[i], tx_id) && #[trigger] succeeds_at::<A>(
            account,
            operations,
            i,
        ) && forall|j: int|
            i < j < operations.len() ==> !(closes(operations[j], tx_id) && #[trigger] succeeds_at::<
                A,
            >(account, operations, j))
}

/// Success at a place does not depend on what comes after it.
proof fn lemma_succeeds_in_prefix<A: AmountType>(
    account: AccountView,
    operations: Seq<OperationView>,
    i: int,
)
    requires
        0 <= i < operations.len() - 1,
    ensures
        succeeds_at::<A>(account, operations, i) == succeeds_at::<A>(
            account,
            operations.drop_last(),
            i,
        ),
{
    assert(operations.take(i) == operations.drop_last().take(i));
}

/// A transaction is in the disputed set of an account exactly if a dispute of
/// it has been applied and no resolve or chargeback of it has been applied
/// since. This holds from any account that starts with nothing under dispute.
pub proof fn disputed_set_tracks_open_disputes<A: AmountType>(
    account: AccountView,
    operations: Seq<OperationView>,
    tx_id: u32,
)
    requires
        account.disputed == Set::<u32>::empty(),
    ensures
        replay::<A>(account, operations).disputed.contains(tx_id) <==> dispute_is_open::<A>(
            account,
            operations,
            tx_id,
        ),
    decreases operations.len(),
{
    if operations.len() == 0 {
    } else {
        let earlier = operations.drop_last();
        let last = operations.last();
        let n = operations.len() - 1;
        let before = replay::<A>(account, earlier);
        disputed_set_tracks_open_disputes::<A>(account, earlier, tx_id);
        assert(operations.take(n) == earlier);
        assert(succeeds_at::<A>(account, operations, n) == (last.outcome::<A>(before) is Ok));
        assert forall|i: int| 0 <= i < n implies succeeds_at::<A>(account, operations, i)
            == succeeds_at::<A>(account, earlier, i) by {
            lemma_succeeds_in_prefix::<A>(account, operations, i);
        }
        let applied = last.outcome::<A>(before) is Ok;
        if applied && opens(last, tx_id) {
            assert(succeeds_at::<A>(account, operations, n));
            assert(dispute_is_open::<A>(account, operations, tx_id));
        } else if applied && closes(last, tx_id) {
            assert(!replay::<A>(account, operations).disputed.contains(tx_id));
            if dispute_is_open::<A>(account, operations, tx_id) {
                let i = choose|i: int|
                    0 <= i < operations.len() && opens(operations[i], tx_id)
                        && #[trigger] succeeds_at::<A>(account, operations, i) && forall|j: int|
                        i < j < operations.len() ==> !(closes(operations[j], tx_id)
                            && #[trigger] succeeds_at::<A>(account, operations, j));
                assert(i < n);
                assert(succeeds_at::<A>(account, operations, n));
                assert(false);
            }
        } else {
            assert(replay::<A>(account, operations).disputed.contains(tx_id)
                == before.disputed.contains(tx_id));
            if dispute_is_open::<A>(account, earlier, tx_id) {
                let i = choose|i: int|
                    0 <= i < earlier.len() && opens(earlier[i], tx_id) && #[trigger] succeeds_at::<
                        A,
                    >(account, earlier, i) && forall|j: int|
                        i < j < earlier.len() ==> !(closes(earlier[j], tx_id)
                            && #[trigger] succeeds_at::<A>(account, earlier, j));
                assert(succeeds_at::<A>(account, operations, i));
                assert forall|j: int| i < j < operations.len() implies !(closes(
                    operations[j],
                    tx_id,
                ) && #[trigger] succeeds_at::<A>(account, operations, j)) by {
                    if j < n {
                        assert(succeeds_at::<A>(account, earlier, j) == succeeds_at::<A>(
                            account,
                            operations,
                            j,
                        ));
                        assert(operations[j] == earlier[j]);
                    }
                }
                assert(opens(operations[i], tx_id));
                assert(dispute_is_open::<A>(account, operations, tx_id));
            }
            if dispute_is_open::<A>(account, operations, tx_id) {
                let i = choose|i: int|
                    0 <= i < operations.len() && opens(operations[i], tx_id)
                        && #[trigger] succeeds_at::<A>(account, operations, i) && forall|j: int|
                        i < j < operations.len() ==> !(closes(operations[j], tx_id)
                            && #[trigger] succeeds_at::<A>(account, operations, j));
                assert(i < n);
                assert(succeeds_at::<A>(account, earlier, i));
                assert(opens(earlier[i], tx_id));
                assert forall|j: int| i < j < earlier.len() implies !(closes(earlier[j], tx_id)
                    && #[trigger] succeeds_at::<A>(account, earlier, j)) by {
                    assert(succeeds_at::<A>(account, earlier, j) == succeeds_at::<A>(
                        account,
                        operations,
                        j,
                    ));
                    assert(operations[j] == earlier[j]);
                }
                assert(dispute_is_open::<A>(account, earlier, tx_id));
            }
        }
    }
}

/// The sum of the amounts.
pub open spec fn sum(amounts: Seq<int>) -> int
    decreases amounts.len(),
{
    if amounts.len() == 0 {
        0
    } else {
        sum(amounts.drop_last()) + amounts.last()
    }
}

/// Deposits of the given amounts.
pub open spec fn deposits(amounts: Seq<int>) -> Seq<OperationView> {
    amounts.map_values(|amount: int| OperationView::Deposit { amount })
}

/// Whether every one of the operations succeeds when they are tried on
/// `account` one after another.
pub open spec fn all_succeed<A: AmountType>(
    account: AccountView,
    operations: Seq<OperationView>,
) -> bool {
    forall|i: int| 0 <= i < operations.len() ==> #[trigger] succeeds_at::<A>(account, operations, i)
}

/// Deposits that all succeed add their sum to the available funds and change
/// nothing else.
pub proof fn deposits_add_up<A: AmountType>(account: AccountView, amounts: Seq<int>)
    requires
        all_succeed::<A>(account, deposits(amounts)),
    ensures
        replay::<A>(account, deposits(amounts)) == (AccountView {
            available: account.available + sum(amounts),
            ..account
        }),
    decreases amounts.len(),
{
    if amounts.len() > 0 {
        let n = amounts.len() - 1;
        assert(deposits(amounts).drop_last() == deposits(amounts.drop_last()));
        assert forall|i: int| 0 <= i < n implies #[trigger] succeeds_at::<A>(
            account,
            deposits(amounts.drop_last()),
            i,
        ) by {
            assert(succeeds_at::<A>(account, deposits(amounts), i));
            lemma_succeeds_in_prefix::<A>(account, deposits(amounts), i);
        }
        deposits_add_up::<A>(account, amounts.drop_last());
        assert(succeeds_at::<A>(account, deposits(amounts), n));
        assert(deposits(amounts).take(n) == deposits(amounts.drop_last()));
    }
}

/// A dispute followed by a chargeback of the same transaction takes the
/// disputed amount out of the account and locks it, and deposits that come in
/// between count with their sum only: held funds and the disputed set end as
/// they were before the dispute, and the available funds end as those before
/// the dispute, less the amount, plus the sum of the deposits.
pub proof fn chargeback_after_dispute<A: AmountType>(
    account: AccountView,
    tx_id: u32,
    amount: int,
    between: Seq<int>,
)
    requires
        after_dispute::<A>(account, tx_id, amount) is Ok,
        all_succeed::<A>(after_dispute::<A>(account, tx_id, amount)->Ok_0, deposits(between)),
        after_chargeback::<A>(
            replay::<A>(after_dispute::<A>(account, tx_id, amount)->Ok_0, deposits(between)),
            tx_id,
            amount,
        ) is Ok,
    ensures
        after_chargeback::<A>(
            replay::<A>(after_dispute::<A>(account, tx_id, amount)->Ok_0, deposits(between)),
            tx_id,
            amount,
        )->Ok_0 == (AccountView {
            available: account.available - amount + sum(between),
            held: account.held,
            locked: true,
            ..account
        }),
{
    let disputed = after_dispute::<A>(account, tx_id, amount)->Ok_0;
    deposits_add_up::<A>(disputed, between);
    assert(disputed.disputed.remove(tx_id) == account.disputed);
}

} // verus!
