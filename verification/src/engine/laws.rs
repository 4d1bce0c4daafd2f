//! What holds of the processor, whatever the state and the event.

use vstd::prelude::*;
use super::error::EngineError;
use super::processor;
use super::processor::EngineState;
use crate::domain::amount::AmountType;
use crate::domain::laws;
use crate::domain::transaction::TransactionView;
use crate::storage::traits;

verus! {

/// Every account is kept under the id of its client and has no negative
/// balance, and every record is of a positive amount.
pub open spec fn well_kept(state: EngineState) -> bool {
    &&& forall|c: u16| #[trigger]
        state.accounts.contains_key(c) ==> state.accounts[c].client_id == c
            && state.accounts[c].solvent()
    &&& forall|tx: u32| #[trigger] state.records.contains_key(tx) ==> state.records[tx].amount > 0
}

/// The state with no accounts and no records.
pub open spec fn empty_state() -> EngineState {
    EngineState { accounts: Map::empty(), records: Map::empty() }
}

/// The empty state is well kept, and processing an event keeps a state well
/// kept: balances never turn negative, and an account stays with its client.
pub proof fn processing_keeps_the_state<A: AmountType>(state: EngineState, event: TransactionView)
    requires
        well_kept(state),
    ensures
        well_kept(empty_state()),
        well_kept(processor::state_after::<A>(state, event)),
{
    let after = processor::state_after::<A>(state, event);
    match processor::operation_for(event, state.records) {
        None => {},
        Some(operation) => {
            let account = traits::account_of(state.accounts, event.client_id());
            laws::client_stays::<A>(account, operation);
            if operation.outcome::<A>(account) is Ok {
                assert(operation.amount() >= 0) by {
                    if !(event is Deposit || event is Withdrawal) {
                        assert(state.records.contains_key(event.tx_id()));
                    }
                }
                laws::balances_stay_non_negative::<A>(account, operation);
                assert forall|c: u16| #[trigger] after.accounts.contains_key(c) implies after.accounts[c].client_id
                    == c && after.accounts[c].solvent() by {
                    if c != event.client_id() {
                        assert(state.accounts.contains_key(c));
                    }
                }
                assert forall|tx: u32| #[trigger] after.records.contains_key(tx) implies after.records[tx].amount
                    > 0 by {
                    if !(tx == event.tx_id() && (event is Deposit || event is Withdrawal)) {
                        assert(state.records.contains_key(tx));
                    }
                }
            }
        },
    }
}

/// An event is all-or-nothing: one that is refused changes nothing.
pub proof fn refused_event_changes_nothing<A: AmountType>(state: EngineState, event: TransactionView)
    requires
        processor::outcome_of::<A>(state, event) is Err,
    ensures
        processor::state_after::<A>(state, event) == state,
{
}

/// An event touches the account of its own client only.
pub proof fn other_accounts_stay<A: AmountType>(state: EngineState, event: TransactionView, other: u16)
    requires
        other != event.client_id(),
    ensures
        traits::account_of(processor::state_after::<A>(state, event).accounts, other)
            == traits::account_of(state.accounts, other),
{
}

/// Once an account is locked, no event changes its available funds.
pub proof fn locked_account_keeps_available<A: AmountType>(
    state: EngineState,
    event: TransactionView,
    client: u16,
)
    requires
        traits::account_of(state.accounts, client).locked,
    ensures
        traits::account_of(processor::state_after::<A>(state, event).accounts, client).locked,
        traits::account_of(processor::state_after::<A>(state, event).accounts, client).available
            == traits::account_of(state.accounts, client).available,
{
    if client == event.client_id() {
        match processor::operation_for(event, state.records) {
            None => {},
            Some(operation) => {
                laws::locked_account_is_frozen::<A>(
                    traits::account_of(state.accounts, client),
                    operation,
                );
            },
        }
    }
}

/// A dispute, resolve or chargeback of a transaction that the log does not
/// hold is refused with `TransactionNotFound`.
pub proof fn unknown_transaction_is_not_found<A: AmountType>(state: EngineState, event: TransactionView)
    requires
        event is Dispute || event is Resolve || event is Chargeback,
        !state.records.contains_key(event.tx_id()),
    ensures
        processor::outcome_of::<A>(state, event) == Err::<(), EngineError>(
            EngineError::TransactionNotFound(event.tx_id()),
        ),
{
}

/// A dispute, resolve or chargeback of another client's transaction is
/// refused with `TransactionNotFound`, as if the transaction did not exist.
pub proof fn foreign_transaction_is_not_found<A: AmountType>(state: EngineState, event: TransactionView)
    requires
        event is Dispute || event is Resolve || event is Chargeback,
        state.records.contains_key(event.tx_id()),
        state.records[event.tx_id()].client_id != event.client_id(),
    ensures
        processor::outcome_of::<A>(state, event) == Err::<(), EngineError>(
            EngineError::TransactionNotFound(event.tx_id()),
        ),
{
}

/// Two deposits of equal amount commute: processed in either order they
/// leave the same accounts, and where both are applied also the same log. (Of
/// two deposits of which the account can take only one, the log keeps the
/// one that came first.) The two must not fight over one transaction id,
/// which the log can hold for one client only.
pub proof fn equal_deposits_commute<A: AmountType>(
    state: EngineState,
    first_client: u16,
    first_tx: u32,
    second_client: u16,
    second_tx: u32,
    amount: int,
)
    requires
        first_tx != second_tx || first_client == second_client,
    ensures
        ({
            let first = TransactionView::Deposit {
                client_id: first_client,
                tx_id: first_tx,
                amount,
            };
            let second = TransactionView::Deposit {
                client_id: second_client,
                tx_id: second_tx,
                amount,
            };
            let one = processor::state_after::<A>(processor::state_after::<A>(state, first), second);
            let other = processor::state_after::<A>(
                processor::state_after::<A>(state, second),
                first,
            );
            &&& one.accounts == other.accounts
            &&& processor::outcome_of::<A>(state, first) is Ok && processor::outcome_of::<A>(
                processor::state_after::<A>(state, first),
                second,
            ) is Ok ==> one == other
        }),
{
    let first = TransactionView::Deposit { client_id: first_client, tx_id: first_tx, amount };
    let second = TransactionView::Deposit { client_id: second_client, tx_id: second_tx, amount };
    let one = processor::state_after::<A>(processor::state_after::<A>(state, first), second);
    let other = processor::state_after::<A>(processor::state_after::<A>(state, second), first);
    assert(one.accounts =~= other.accounts);
    if processor::outcome_of::<A>(state, first) is Ok && processor::outcome_of::<A>(
        processor::state_after::<A>(state, first),
        second,
    ) is Ok {
        assert(one.records =~= other.records);
    }
}

/// The state after the events have been processed one after another from
/// `state`; an event that is refused is passed over.
pub open spec fn process_all<A: AmountType>(
    state: EngineState,
    events: Seq<TransactionView>,
) -> EngineState
    decreases events.len(),
{
    if events.len() == 0 {
        state
    } else {
        processor::state_after::<A>(process_all::<A>(state, events.drop_last()), events.last())
    }
}

/// The events of one client, in the order in which they come.
pub open spec fn events_of(events: Seq<TransactionView>, client: u16) -> Seq<TransactionView>
    decreases events.len(),
{
    if events.len() == 0 {
        Seq::empty()
    } else if events.last().client_id() == client {
        events_of(events.drop_last(), client).push(events.last())
    } else {
        events_of(events.drop_last(), client)
    }
}

/// Whether the event at place `i` is a deposit or withdrawal of `client`
/// under the id `tx_id`.
pub open spec fn makes(events: Seq<TransactionView>, i: int, tx_id: u32, client: u16) -> bool {
    &&& 0 <= i < events.len()
    &&& events[i] is Deposit || events[i] is Withdrawal
    &&& events[i].tx_id() == tx_id
    &&& events[i].client_id() == client
}

/// No two clients use one transaction id for a deposit or withdrawal.
pub open spec fn ids_belong_to_one_client(events: Seq<TransactionView>) -> bool {
    forall|i: int, j: int, tx_id: u32, first: u16, second: u16|
        #[trigger] makes(events, i, tx_id, first) && #[trigger] makes(events, j, tx_id, second)
            ==> first == second
}

/// What the state after all events and the state after the events of one
/// client alone have in common: the account of the client, and the records
/// that the client can refer to. Every record of the former stems from an
/// event.
spec fn agree(
    all: EngineState,
    alone: EngineState,
    events: Seq<TransactionView>,
    client: u16,
) -> bool {
    &&& traits::account_of(all.accounts, client) == traits::account_of(alone.accounts, client)
    &&& forall|tx_id: u32| #[trigger]
        processor::own_record(all.records, client, tx_id) == processor::own_record(
            alone.records,
            client,
            tx_id,
        )
    &&& forall|tx_id: u32| #[trigger]
        all.records.contains_key(tx_id) ==> exists|i: int|
            makes(events, i, tx_id, all.records[tx_id].client_id)
}

proof fn lemma_agree<A: AmountType>(events: Seq<TransactionView>, client: u16)
    requires
        ids_belong_to_one_client(events),
    ensures
        agree(
            process_all::<A>(empty_state(), events),
            process_all::<A>(empty_state(), events_of(events, client)),
            events,
            client,
        ),
    decreases events.len(),
{
    if events.len() > 0 {
        let earlier = events.drop_last();
        let event = events.last();
        let n = events.len() - 1;
        assert forall|i: int, tx_id: u32, c: u16| makes(earlier, i, tx_id, c) implies makes(
            events,
            i,
            tx_id,
            c,
        ) by {
            assert(earlier[i] == events[i]);
        }
        assert(ids_belong_to_one_client(earlier));
        lemma_agree::<A>(earlier, client);
        let all = process_all::<A>(empty_state(), earlier);
        let alone = process_all::<A>(empty_state(), events_of(earlier, client));
        let all_after = processor::state_after::<A>(all, event);
        let applied = processor::outcome_of::<A>(all, event) is Ok;
        let records = applied && (event is Deposit || event is Withdrawal);
        assert forall|tx_id: u32| #[trigger] all_after.records.contains_key(tx_id) implies exists|
            i: int,
        |
            makes(events, i, tx_id, all_after.records[tx_id].client_id) by {
            if records && tx_id == event.tx_id() {
                assert(events[n] == event);
                assert(all_after.records[tx_id].client_id == event.client_id());
                assert(makes(events, n, tx_id, event.client_id()));
            } else {
                assert(all_after.records == processor::records_after(event, all.records)
                    || all_after.records == all.records);
                assert(all.records.contains_key(tx_id));
                assert(all_after.records[tx_id] == all.records[tx_id]);
                let i = choose|i: int| makes(earlier, i, tx_id, all.records[tx_id].client_id);
                assert(makes(earlier, i, tx_id, all.records[tx_id].client_id));
                assert(makes(events, i, tx_id, all.records[tx_id].client_id));
            }
        }
        if event.client_id() == client {
            let own = events_of(earlier, client);
            assert(events_of(events, client) == own.push(event));
            assert(own.push(event).drop_last() == own);
            let alone_after = processor::state_after::<A>(alone, event);
            assert(process_all::<A>(empty_state(), events_of(events, client)) == alone_after);
            assert(processor::own_record(all.records, client, event.tx_id())
                == processor::own_record(alone.records, client, event.tx_id()));
            assert(processor::operation_for(event, all.records) == processor::operation_for(
                event,
                alone.records,
            ));
            assert forall|tx_id: u32| #[trigger]
                processor::own_record(all_after.records, client, tx_id) == processor::own_record(
                    alone_after.records,
                    client,
                    tx_id,
                ) by {
                assert(processor::own_record(all.records, client, tx_id)
                    == processor::own_record(alone.records, client, tx_id));
            }
        } else {
            assert(events_of(events, client) == events_of(earlier, client));
            assert forall|tx_id: u32| #[trigger]
                processor::own_record(all_after.records, client, tx_id) == processor::own_record(
                    alone.records,
                    client,
                    tx_id,
                ) by {
                assert(processor::own_record(all.records, client, tx_id)
                    == processor::own_record(alone.records, client, tx_id));
                if records && tx_id == event.tx_id() {
                    if all.records.contains_key(tx_id) && all.records[tx_id].client_id == client {
                        let i = choose|i: int| makes(earlier, i, tx_id, client);
                        assert(makes(events, i, tx_id, client));
                        assert(makes(events, n, tx_id, event.client_id()));
                        assert(false);
                    }
                }
            }
        }
    }
}

/// The account of a client depends on the events of that client alone, as
/// long as no two clients use one transaction id: however the events of
/// other clients are interleaved with them, and whichever of those succeed,
/// the account ends as if the client's own events had been processed alone.
pub proof fn account_follows_own_events<A: AmountType>(events: Seq<TransactionView>, client: u16)
    requires
        ids_belong_to_one_client(events),
    ensures
        traits::account_of(process_all::<A>(empty_state(), events).accounts, client)
            == traits::account_of(
            process_all::<A>(empty_state(), events_of(events, client)).accounts,
            client,
        ),
{
    lemma_agree::<A>(events, client);
}

/// Two interleavings of the same per-client event sequences end with the
/// same account for every such client.
pub proof fn interleavings_agree<A: AmountType>(
    one: Seq<TransactionView>,
    other: Seq<TransactionView>,
    client: u16,
)
    requires
        ids_belong_to_one_client(one),
        ids_belong_to_one_client(other),
        events_of(one, client) == events_of(other, client),
    ensures
        traits::account_of(process_all::<A>(empty_state(), one).accounts, client)
            == traits::account_of(process_all::<A>(empty_state(), other).accounts, client),
{
    account_follows_own_events::<A>(one, client);
    account_follows_own_events::<A>(other, client);
}

} // verus!
