//! However streams are dealt out and combined, the account of a client whose
//! events come in one stream ends as if that stream had been processed alone.

use vstd::prelude::*;
use super::laws;
use super::processor;
use crate::domain::amount::AmountType;
use crate::domain::transaction::Transaction;
use crate::domain::transaction::TransactionView;
use super::error::ErrorPolicy;
use crate::engine::laws as engine_laws;
use crate::engine::processor::EngineState;
use crate::io::error::IoError;
use crate::storage::traits;

verus! {

/// Whether the item is an event of `client`.
pub open spec fn concerns<A: AmountType>(
    item: Result<Transaction<A>, IoError>,
    client: u16,
) -> bool {
    item matches Ok(tx) && tx@.client_id() == client
}

/// Whether no item of the stream is an event of `client`.
pub open spec fn silent_on<A: AmountType>(
    items: Seq<Result<Transaction<A>, IoError>>,
    client: u16,
) -> bool {
    forall|i: int| 0 <= i < items.len() ==> !concerns(#[trigger] items[i], client)
}

/// The events of `client` among the items of a stream, in their order.
pub open spec fn own_events<A: AmountType>(
    items: Seq<Result<Transaction<A>, IoError>>,
    client: u16,
) -> Seq<TransactionView> {
    engine_laws::events_of(laws::events_in(items), client)
}

/// The events of a client in a stream with one more item at its end.
pub proof fn own_events_of_push<A: AmountType>(
    items: Seq<Result<Transaction<A>, IoError>>,
    item: Result<Transaction<A>, IoError>,
    client: u16,
)
    ensures
        own_events(items.push(item), client) == if concerns(item, client) {
            own_events(items, client).push(item->Ok_0@)
        } else {
            own_events(items, client)
        },
{
    assert(items.push(item).drop_last() == items);
    assert(items.push(item).last() == item);
    if let Ok(tx) = item {
        assert(laws::events_in(items).push(tx@).drop_last() == laws::events_in(items));
    }
}

/// The events of a client in one stream after another.
pub proof fn own_events_of_two<A: AmountType>(
    first: Seq<Result<Transaction<A>, IoError>>,
    second: Seq<Result<Transaction<A>, IoError>>,
    client: u16,
)
    ensures
        own_events(first + second, client) == own_events(first, client) + own_events(
            second,
            client,
        ),
    decreases second.len(),
{
    if second.len() == 0 {
        assert(first + second == first);
        assert(own_events(second, client) == Seq::<TransactionView>::empty());
    } else {
        let head = second.drop_last();
        own_events_of_two(first, head, client);
        assert(first + second == (first + head).push(second.last()));
        assert(second == head.push(second.last()));
        own_events_of_push(first + head, second.last(), client);
        own_events_of_push(head, second.last(), client);
        if concerns(second.last(), client) {
            let e = second.last()->Ok_0@;
            assert((own_events(first, client) + own_events(head, client)).push(e) == own_events(
                first,
                client,
            ) + own_events(head, client).push(e));
        }
    }
}

/// A stream that is silent on a client has no events of that client.
pub proof fn own_events_of_silent<A: AmountType>(
    items: Seq<Result<Transaction<A>, IoError>>,
    client: u16,
)
    requires
        silent_on(items, client),
    ensures
        own_events(items, client) == Seq::<TransactionView>::empty(),
    decreases items.len(),
{
    if items.len() > 0 {
        let head = items.drop_last();
        assert forall|i: int| 0 <= i < head.len() implies !concerns(#[trigger] head[i], client) by {
            assert(head[i] == items[i]);
        }
        own_events_of_silent(head, client);
        assert(items == head.push(items.last()));
        own_events_of_push(head, items.last(), client);
        assert(!concerns(items[items.len() - 1], client));
    }
}

/// Whether every one of the streams is silent on `client`.
pub open spec fn all_silent_on<A: AmountType>(
    streams: Seq<Seq<Result<Transaction<A>, IoError>>>,
    client: u16,
) -> bool {
    forall|j: int| 0 <= j < streams.len() ==> silent_on(#[trigger] streams[j], client)
}

/// A round of streams with one more stream behind them.
proof fn lemma_round_of_push<T>(streams: Seq<Seq<T>>, stream: Seq<T>, r: int)
    ensures
        processor::round(streams.push(stream), r) == if r < stream.len() {
            processor::round(streams, r).push(stream[r])
        } else {
            processor::round(streams, r)
        },
        processor::longest(streams.push(stream)) == if processor::longest(streams)
            >= stream.len() {
            processor::longest(streams)
        } else {
            stream.len()
        },
{
    assert(streams.push(stream).drop_last() == streams);
    assert(streams.push(stream).last() == stream);
}

/// Past the end of the longest stream a round is empty.
proof fn lemma_round_past_the_end<T>(streams: Seq<Seq<T>>, r: int)
    requires
        r >= processor::longest(streams),
    ensures
        processor::round(streams, r) == Seq::<T>::empty(),
    decreases streams.len(),
{
    if streams.len() > 0 {
        lemma_round_past_the_end(streams.drop_last(), r);
    }
}

/// Rounds past the end of the longest stream add nothing.
proof fn lemma_rounds_past_the_end<T>(streams: Seq<Seq<T>>, n: nat)
    requires
        n >= processor::longest(streams),
    ensures
        processor::rounds(streams, n) == processor::merged(streams),
    decreases n,
{
    if n > processor::longest(streams) {
        lemma_rounds_past_the_end(streams, (n - 1) as nat);
        lemma_round_past_the_end(streams, n - 1);
        assert(processor::rounds(streams, (n - 1) as nat) + Seq::<T>::empty()
            == processor::rounds(streams, (n - 1) as nat));
    }
}

/// A round of streams that are all silent on a client is silent on it.
proof fn lemma_round_of_silent<A: AmountType>(
    streams: Seq<Seq<Result<Transaction<A>, IoError>>>,
    r: int,
    client: u16,
)
    requires
        all_silent_on(streams, client),
        0 <= r,
    ensures
        silent_on(processor::round(streams, r), client),
    decreases streams.len(),
{
    if streams.len() > 0 {
        let head = streams.drop_last();
        assert forall|j: int| 0 <= j < head.len() implies silent_on(#[trigger] head[j], client) by {
            assert(head[j] == streams[j]);
        }
        lemma_round_of_silent(head, r, client);
        assert(silent_on(streams[streams.len() - 1], client));
        if r < streams.last().len() {
            assert(!concerns(streams.last()[r], client));
        }
    }
}

/// A stream that is silent on a client adds none of its events to the rounds.
proof fn lemma_rounds_with_silent<A: AmountType>(
    streams: Seq<Seq<Result<Transaction<A>, IoError>>>,
    stream: Seq<Result<Transaction<A>, IoError>>,
    n: nat,
    client: u16,
)
    requires
        silent_on(stream, client),
    ensures
        own_events(processor::rounds(streams.push(stream), n), client) == own_events(
            processor::rounds(streams, n),
            client,
        ),
    decreases n,
{
    if n > 0 {
        let r = (n - 1) as nat;
        lemma_rounds_with_silent(streams, stream, r, client);
        lemma_round_of_push(streams, stream, r as int);
        own_events_of_two(
            processor::rounds(streams.push(stream), r),
            processor::round(streams.push(stream), r as int),
            client,
        );
        own_events_of_two(
            processor::rounds(streams, r),
            processor::round(streams, r as int),
            client,
        );
        if r < stream.len() {
            own_events_of_push(processor::round(streams, r as int), stream[r as int], client);
        }
    }
}

/// Behind streams that are all silent on a client, the rounds hold the
/// events of that client in a further stream, as far as the rounds go.
proof fn lemma_rounds_behind_silent<A: AmountType>(
    streams: Seq<Seq<Result<Transaction<A>, IoError>>>,
    stream: Seq<Result<Transaction<A>, IoError>>,
    n: nat,
    client: u16,
)
    requires
        all_silent_on(streams, client),
    ensures
        own_events(processor::rounds(streams.push(stream), n), client) == own_events(
            stream.take(
                if n <= stream.len() {
                    n as int
                } else {
                    stream.len() as int
                },
            ),
            client,
        ),
    decreases n,
{
    if n == 0 {
        assert(stream.take(0) == Seq::<Result<Transaction<A>, IoError>>::empty());
    } else {
        let r = (n - 1) as nat;
        lemma_rounds_behind_silent(streams, stream, r, client);
        lemma_round_of_push(streams, stream, r as int);
        lemma_round_of_silent(streams, r as int, client);
        own_events_of_silent(processor::round(streams, r as int), client);
        own_events_of_two(
            processor::rounds(streams.push(stream), r),
            processor::round(streams.push(stream), r as int),
            client,
        );
        if r < stream.len() {
            own_events_of_push(processor::round(streams, r as int), stream[r as int], client);
            own_events_of_push(stream.take(r as int), stream[r as int], client);
            assert(stream.take(r as int).push(stream[r as int]) == stream.take(n as int));
            if concerns(stream[r as int], client) {
                let e = stream[r as int]->Ok_0@;
                assert(own_events(stream.take(r as int), client) + Seq::<
                    TransactionView,
                >::empty().push(e) == own_events(stream.take(r as int), client).push(e));
            } else {
                assert(own_events(stream.take(r as int), client) + Seq::<
                    TransactionView,
                >::empty() == own_events(stream.take(r as int), client));
            }
        } else {
            assert(own_events(stream.take(stream.len() as int), client) + Seq::<
                TransactionView,
            >::empty() == own_events(stream.take(stream.len() as int), client));
        }
    }
}

/// The events of a client in the combination of streams with one more
/// stream behind them, where the streams before it or the one behind are
/// silent on the client: the events in the combination of the former, then
/// those in the latter.
pub proof fn own_events_of_combined_push<A: AmountType>(
    streams: Seq<Seq<Result<Transaction<A>, IoError>>>,
    stream: Seq<Result<Transaction<A>, IoError>>,
    combinator: processor::StreamCombinator,
    client: u16,
)
    requires
        all_silent_on(streams, client) || silent_on(stream, client),
    ensures
        own_events(processor::combined(streams.push(stream), combinator), client) == own_events(
            processor::combined(streams, combinator),
            client,
        ) + own_events(stream, client),
        all_silent_on(streams, client) ==> own_events(
            processor::combined(streams, combinator),
            client,
        ) == Seq::<TransactionView>::empty(),
{
    let pushed = streams.push(stream);
    assert(pushed.drop_last() == streams);
    assert(pushed.last() == stream);
    if all_silent_on(streams, client) {
        lemma_combined_of_silent(streams, combinator, client);
    }
    match combinator {
        processor::StreamCombinator::Chain => {
            own_events_of_two(processor::chained(streams), stream, client);
        },
        processor::StreamCombinator::Merge => {
            lemma_round_of_push(streams, stream, 0);
            let n = processor::longest(pushed);
            if silent_on(stream, client) {
                lemma_rounds_with_silent(streams, stream, n, client);
                lemma_rounds_past_the_end(streams, n);
                own_events_of_silent(stream, client);
                assert(own_events(processor::merged(streams), client) + Seq::<
                    TransactionView,
                >::empty() == own_events(processor::merged(streams), client));
            } else {
                lemma_rounds_behind_silent(streams, stream, n, client);
                assert(stream.take(stream.len() as int) == stream);
                assert(Seq::<TransactionView>::empty() + own_events(stream, client) == own_events(
                    stream,
                    client,
                ));
            }
        },
    }
}

/// The combination of streams that are all silent on a client has no events
/// of that client.
proof fn lemma_combined_of_silent<A: AmountType>(
    streams: Seq<Seq<Result<Transaction<A>, IoError>>>,
    combinator: processor::StreamCombinator,
    client: u16,
)
    requires
        all_silent_on(streams, client),
    ensures
        own_events(processor::combined(streams, combinator), client) == Seq::<
            TransactionView,
        >::empty(),
    decreases streams.len(),
{
    if streams.len() == 0 {
        assert(processor::chained(streams) == Seq::<Result<Transaction<A>, IoError>>::empty());
        assert(processor::rounds(streams, 0) == Seq::<Result<Transaction<A>, IoError>>::empty());
        assert(processor::longest(streams) == 0);
    } else {
        let head = streams.drop_last();
        assert forall|j: int| 0 <= j < head.len() implies silent_on(#[trigger] head[j], client) by {
            assert(head[j] == streams[j]);
        }
        lemma_combined_of_silent(head, combinator, client);
        assert(silent_on(streams[streams.len() - 1], client));
        assert(streams == head.push(streams.last()));
        own_events_of_silent(streams.last(), client);
        match combinator {
            processor::StreamCombinator::Chain => {
                own_events_of_two(processor::chained(head), streams.last(), client);
            },
            processor::StreamCombinator::Merge => {
                let n = processor::longest(streams);
                lemma_round_of_push(head, streams.last(), 0);
                lemma_rounds_with_silent(head, streams.last(), n, client);
                lemma_rounds_past_the_end(head, n);
            },
        }
    }
}

/// Whether the events of `client` are confined to the stream at place `k`.
pub open spec fn confined_to<A: AmountType>(
    streams: Seq<Seq<Result<Transaction<A>, IoError>>>,
    client: u16,
    k: int,
) -> bool {
    &&& 0 <= k < streams.len()
    &&& forall|j: int| 0 <= j < streams.len() && j != k ==> silent_on(#[trigger] streams[j], client)
}

/// The events of a client in the items of a shard, where the client's events
/// are confined to one stream: those of that stream if the shard gets it,
/// and none otherwise.
proof fn lemma_own_events_of_shard<A: AmountType>(
    streams: Seq<Seq<Result<Transaction<A>, IoError>>>,
    assignment: processor::ShardAssignment,
    shards: usize,
    shard: int,
    n: int,
    combinator: processor::StreamCombinator,
    client: u16,
    k: int,
)
    requires
        confined_to(streams, client, k),
        0 <= n <= streams.len(),
    ensures
        own_events(
            processor::combined(
                processor::dealt(streams, assignment, shards, shard, n),
                combinator,
            ),
            client,
        ) == if k < n && assignment.shard_of(k as usize, streams.len() as usize, shards)
            == shard {
            own_events(streams[k], client)
        } else {
            Seq::<TransactionView>::empty()
        },
        k >= n || assignment.shard_of(k as usize, streams.len() as usize, shards) != shard
            ==> all_silent_on(processor::dealt(streams, assignment, shards, shard, n), client),
    decreases n,
{
    let none = Seq::<TransactionView>::empty();
    if n == 0 {
        lemma_combined_of_silent(
            processor::dealt(streams, assignment, shards, shard, 0),
            combinator,
            client,
        );
    } else {
        let j = n - 1;
        let before = processor::dealt(streams, assignment, shards, shard, j);
        lemma_own_events_of_shard(streams, assignment, shards, shard, j, combinator, client, k);
        if assignment.shard_of(j as usize, streams.len() as usize, shards) == shard {
            if j == k {
                own_events_of_combined_push(before, streams[j], combinator, client);
                assert(none + own_events(streams[k], client) == own_events(streams[k], client));
            } else {
                assert(silent_on(streams[j], client));
                own_events_of_combined_push(before, streams[j], combinator, client);
                own_events_of_silent(streams[j], client);
                let kept = own_events(processor::combined(before, combinator), client);
                assert(kept + none == kept);
                if k >= n || assignment.shard_of(k as usize, streams.len() as usize, shards)
                    != shard {
                    let after = before.push(streams[j]);
                    assert forall|i: int| 0 <= i < after.len() implies silent_on(
                        #[trigger] after[i],
                        client,
                    ) by {
                        if i < before.len() {
                            assert(after[i] == before[i]);
                        }
                    }
                }
            }
        }
    }
}

/// The order in which the items are processed: those of the first `upto`
/// shards, shard after shard.
pub open spec fn order<A: AmountType>(
    plan: processor::Topology<A>,
    upto: int,
) -> Seq<Result<Transaction<A>, IoError>>
    decreases upto,
{
    if upto <= 0 {
        Seq::empty()
    } else {
        order(plan, upto - 1) + plan.items_of(upto - 1)
    }
}

/// The events in one stream after another.
proof fn lemma_events_in_two<A: AmountType>(
    first: Seq<Result<Transaction<A>, IoError>>,
    second: Seq<Result<Transaction<A>, IoError>>,
)
    ensures
        laws::events_in(first + second) == laws::events_in(first) + laws::events_in(second),
    decreases second.len(),
{
    if second.len() == 0 {
        assert(first + second == first);
        assert(laws::events_in(first) + Seq::<TransactionView>::empty() == laws::events_in(first));
    } else {
        let head = second.drop_last();
        lemma_events_in_two(first, head);
        assert((first + second).drop_last() == first + head);
        assert((first + second).last() == second.last());
        if let Ok(tx) = second.last() {
            assert((laws::events_in(first) + laws::events_in(head)).push(tx@) == laws::events_in(
                first,
            ) + laws::events_in(head).push(tx@));
        }
    }
}

/// Processing one run of events and then another is processing the two as
/// one run.
proof fn lemma_process_all_two<A: AmountType>(
    state: EngineState,
    first: Seq<TransactionView>,
    second: Seq<TransactionView>,
)
    ensures
        engine_laws::process_all::<A>(state, first + second) == engine_laws::process_all::<A>(
            engine_laws::process_all::<A>(state, first),
            second,
        ),
    decreases second.len(),
{
    if second.len() == 0 {
        assert(first + second == first);
    } else {
        lemma_process_all_two::<A>(state, first, second.drop_last());
        assert((first + second).drop_last() == first + second.drop_last());
        assert((first + second).last() == second.last());
    }
}

/// Under a policy that never stops, the state after the shards is the state
/// after the events in the order in which they are processed.
pub proof fn shards_process_every_event<A: AmountType, P: ErrorPolicy>(
    plan: processor::Topology<A>,
    policy: P,
    state: EngineState,
    upto: int,
)
    requires
        laws::never_stops(policy),
    ensures
        plan.state_after_shards(policy, state, upto) == engine_laws::process_all::<A>(
            state,
            laws::events_in(order(plan, upto)),
        ),
    decreases upto,
{
    if upto > 0 {
        shards_process_every_event(plan, policy, state, upto - 1);
        let before = plan.state_after_shards(policy, state, upto - 1);
        laws::run_processes_every_event(policy, before, plan.items_of(upto - 1));
        lemma_events_in_two(order(plan, upto - 1), plan.items_of(upto - 1));
        lemma_process_all_two::<A>(
            state,
            laws::events_in(order(plan, upto - 1)),
            laws::events_in(plan.items_of(upto - 1)),
        );
    }
}

/// Every stream goes to one of the shards.
pub proof fn shard_is_in_range(
    assignment: processor::ShardAssignment,
    index: usize,
    streams: usize,
    shards: usize,
)
    requires
        shards >= 1,
        index < streams,
    ensures
        0 <= assignment.shard_of(index, streams, shards) < shards,
{
    let chunk = processor::chunk_size(streams as int, shards as int);
    assert(chunk >= 1) by (nonlinear_arith)
        requires
            streams >= 1,
            shards >= 1,
            chunk == processor::chunk_size(streams as int, shards as int),
    ;
    assert(index as int / chunk >= 0) by (nonlinear_arith)
        requires
            index >= 0,
            chunk >= 1,
    ;
}

/// The events of a client in the order of processing, where the client's
/// events are confined to one stream: those of that stream, once its shard
/// has had its turn.
proof fn lemma_own_events_of_order<A: AmountType>(
    plan: processor::Topology<A>,
    upto: int,
    client: u16,
    k: int,
)
    requires
        confined_to(plan.streams, client, k),
        0 <= plan.assignment.shard_of(k as usize, plan.streams.len() as usize, plan.shards),
    ensures
        own_events(order(plan, upto), client) == if plan.assignment.shard_of(
            k as usize,
            plan.streams.len() as usize,
            plan.shards,
        ) < upto {
            own_events(plan.streams[k], client)
        } else {
            Seq::<TransactionView>::empty()
        },
    decreases upto,
{
    let none = Seq::<TransactionView>::empty();
    if upto > 0 {
        lemma_own_events_of_order(plan, upto - 1, client, k);
        lemma_own_events_of_shard(
            plan.streams,
            plan.assignment,
            plan.shards,
            upto - 1,
            plan.streams.len() as int,
            plan.combinator,
            client,
            k,
        );
        own_events_of_two(order(plan, upto - 1), plan.items_of(upto - 1), client);
        let own = own_events(plan.streams[k], client);
        assert(none + own == own);
        assert(own + none == own);
        assert(none + none == none);
    } else {
        assert(laws::events_in(order(plan, upto)) == none);
    }
}

/// However the streams are dealt out to shards and combined there, the
/// account of a client whose events all come in one stream ends as if that
/// stream had been processed alone, from nothing. This holds under a policy
/// that never stops, and as long as no two clients use one transaction id.
pub proof fn account_does_not_depend_on_the_topology<A: AmountType, P: ErrorPolicy>(
    plan: processor::Topology<A>,
    policy: P,
    client: u16,
    k: int,
)
    requires
        laws::never_stops(policy),
        plan.shards >= 1,
        plan.streams.len() <= usize::MAX,
        confined_to(plan.streams, client, k),
        engine_laws::ids_belong_to_one_client(laws::events_in(order(plan, plan.shards as int))),
    ensures
        traits::account_of(
            plan.state_after_shards(policy, engine_laws::empty_state(), plan.shards as int).accounts,
            client,
        ) == traits::account_of(
            engine_laws::process_all::<A>(
                engine_laws::empty_state(),
                own_events(plan.streams[k], client),
            ).accounts,
            client,
        ),
{
    let events = laws::events_in(order(plan, plan.shards as int));
    shards_process_every_event(plan, policy, engine_laws::empty_state(), plan.shards as int);
    shard_is_in_range(plan.assignment, k as usize, plan.streams.len() as usize, plan.shards);
    lemma_own_events_of_order(plan, plan.shards as int, client, k);
    engine_laws::account_follows_own_events::<A>(events, client);
}

/// Whether `item` is the item at place `i` of the stream at place `j`.
pub open spec fn is_item_of<T>(streams: Seq<Seq<T>>, j: int, i: int, item: T) -> bool {
    0 <= j < streams.len() && 0 <= i < streams[j].len() && streams[j][i] == item
}

/// Whether `item` is an item of one of the streams.
pub open spec fn is_drawn<T>(streams: Seq<Seq<T>>, item: T) -> bool {
    exists|j: int, i: int| is_item_of(streams, j, i, item)
}

/// Whether every item of `items` is an item of one of the streams.
pub open spec fn drawn_from<T>(items: Seq<T>, streams: Seq<Seq<T>>) -> bool {
    forall|p: int| 0 <= p < items.len() ==> is_drawn(streams, #[trigger] items[p])
}

/// Whether `part` is one of the streams.
pub open spec fn is_taken<T>(streams: Seq<Seq<T>>, part: Seq<T>) -> bool {
    exists|j: int| 0 <= j < streams.len() && #[trigger] streams[j] == part
}

/// Whether every one of `parts` is one of the streams.
pub open spec fn taken_from<T>(parts: Seq<Seq<T>>, streams: Seq<Seq<T>>) -> bool {
    forall|p: int| 0 <= p < parts.len() ==> is_taken(streams, #[trigger] parts[p])
}

proof fn lemma_drawn_from_two<T>(first: Seq<T>, second: Seq<T>, streams: Seq<Seq<T>>)
    requires
        drawn_from(first, streams),
        drawn_from(second, streams),
    ensures
        drawn_from(first + second, streams),
{
    assert forall|p: int| 0 <= p < (first + second).len() implies is_drawn(
        streams,
        #[trigger] (first + second)[p],
    ) by {
        if p < first.len() {
            assert((first + second)[p] == first[p]);
        } else {
            assert((first + second)[p] == second[p - first.len()]);
        }
    }
}

proof fn lemma_drawn_from_more<T>(items: Seq<T>, fewer: Seq<Seq<T>>, more: Seq<Seq<T>>)
    requires
        drawn_from(items, fewer),
        taken_from(fewer, more),
    ensures
        drawn_from(items, more),
{
    assert forall|p: int| 0 <= p < items.len() implies is_drawn(more, #[trigger] items[p]) by {
        assert(is_drawn(fewer, items[p]));
        let (j, i) = choose|j: int, i: int| is_item_of(fewer, j, i, items[p]);
        assert(is_taken(more, fewer[j]));
        let m = choose|m: int| 0 <= m < more.len() && #[trigger] more[m] == fewer[j];
        assert(is_item_of(more, m, i, items[p]));
    }
}

proof fn lemma_taken_from_prefix<T>(streams: Seq<Seq<T>>)
    requires
        streams.len() > 0,
    ensures
        taken_from(streams.drop_last(), streams),
        drawn_from(streams.last(), streams),
{
    assert forall|p: int| 0 <= p < streams.drop_last().len() implies is_taken(
        streams,
        #[trigger] streams.drop_last()[p],
    ) by {
        assert(streams[p] == streams.drop_last()[p]);
    }
    assert forall|p: int| 0 <= p < streams.last().len() implies is_drawn(
        streams,
        #[trigger] streams.last()[p],
    ) by {
        assert(is_item_of(streams, streams.len() - 1, p, streams.last()[p]));
    }
}

proof fn lemma_round_is_drawn<T>(streams: Seq<Seq<T>>, r: int)
    requires
        0 <= r,
    ensures
        drawn_from(processor::round(streams, r), streams),
    decreases streams.len(),
{
    if streams.len() > 0 {
        let head = streams.drop_last();
        lemma_round_is_drawn(head, r);
        lemma_taken_from_prefix(streams);
        lemma_drawn_from_more(processor::round(head, r), head, streams);
        let made = processor::round(streams, r);
        assert forall|p: int| 0 <= p < made.len() implies is_drawn(streams, #[trigger] made[p]) by {
            if p < processor::round(head, r).len() {
                assert(made[p] == processor::round(head, r)[p]);
            } else {
                assert(is_item_of(streams, streams.len() - 1, r, made[p]));
            }
        }
    }
}

proof fn lemma_rounds_are_drawn<T>(streams: Seq<Seq<T>>, n: nat)
    ensures
        drawn_from(processor::rounds(streams, n), streams),
    decreases n,
{
    if n > 0 {
        lemma_rounds_are_drawn(streams, (n - 1) as nat);
        lemma_round_is_drawn(streams, n - 1);
        lemma_drawn_from_two(
            processor::rounds(streams, (n - 1) as nat),
            processor::round(streams, n - 1),
            streams,
        );
    }
}

proof fn lemma_chained_is_drawn<T>(streams: Seq<Seq<T>>)
    ensures
        drawn_from(processor::chained(streams), streams),
    decreases streams.len(),
{
    if streams.len() > 0 {
        let head = streams.drop_last();
        lemma_chained_is_drawn(head);
        lemma_taken_from_prefix(streams);
        lemma_drawn_from_more(processor::chained(head), head, streams);
        lemma_drawn_from_two(processor::chained(head), streams.last(), streams);
    }
}

proof fn lemma_dealt_is_taken<T>(
    streams: Seq<Seq<T>>,
    assignment: processor::ShardAssignment,
    shards: usize,
    shard: int,
    n: int,
)
    requires
        n <= streams.len(),
    ensures
        taken_from(processor::dealt(streams, assignment, shards, shard, n), streams),
    decreases n,
{
    if n > 0 {
        lemma_dealt_is_taken(streams, assignment, shards, shard, n - 1);
        let before = processor::dealt(streams, assignment, shards, shard, n - 1);
        let made = processor::dealt(streams, assignment, shards, shard, n);
        assert forall|p: int| 0 <= p < made.len() implies is_taken(streams, #[trigger] made[p]) by {
            if p < before.len() {
                assert(made[p] == before[p]);
            } else {
                assert(streams[n - 1] == made[p]);
            }
        }
    }
}

/// Whatever is processed is an item of one of the streams that were added.
pub proof fn order_is_drawn_from_the_streams<A: AmountType>(plan: processor::Topology<A>, upto: int)
    ensures
        drawn_from(order(plan, upto), plan.streams),
    decreases upto,
{
    if upto > 0 {
        order_is_drawn_from_the_streams(plan, upto - 1);
        let parts = processor::dealt(
            plan.streams,
            plan.assignment,
            plan.shards,
            upto - 1,
            plan.streams.len() as int,
        );
        lemma_dealt_is_taken(
            plan.streams,
            plan.assignment,
            plan.shards,
            upto - 1,
            plan.streams.len() as int,
        );
        match plan.combinator {
            processor::StreamCombinator::Chain => {
                lemma_chained_is_drawn(parts);
            },
            processor::StreamCombinator::Merge => {
                lemma_rounds_are_drawn(parts, processor::longest(parts));
            },
        }
        lemma_drawn_from_more(plan.items_of(upto - 1), parts, plan.streams);
        lemma_drawn_from_two(order(plan, upto - 1), plan.items_of(upto - 1), plan.streams);
    }
}

/// Whether the item at place `i` of the stream at place `j` is a deposit or
/// withdrawal of `client` under the id `tx_id`.
pub open spec fn makes_in<A: AmountType>(
    streams: Seq<Seq<Result<Transaction<A>, IoError>>>,
    j: int,
    i: int,
    tx_id: u32,
    client: u16,
) -> bool {
    &&& 0 <= j < streams.len()
    &&& 0 <= i < streams[j].len()
    &&& streams[j][i] matches Ok(tx)
    &&& tx@ is Deposit || tx@ is Withdrawal
    &&& tx@.tx_id() == tx_id
    &&& tx@.client_id() == client
}

/// No two clients use one transaction id for a deposit or withdrawal, in
/// whichever streams.
pub open spec fn ids_kept_apart<A: AmountType>(
    streams: Seq<Seq<Result<Transaction<A>, IoError>>>,
) -> bool {
    forall|j: int, i: int, l: int, h: int, tx_id: u32, first: u16, second: u16|
        #[trigger] makes_in(streams, j, i, tx_id, first) && #[trigger] makes_in(
            streams,
            l,
            h,
            tx_id,
            second,
        ) ==> first == second
}

/// Whether `event` is the event at place `i` of the stream.
spec fn is_event_at<A: AmountType>(
    items: Seq<Result<Transaction<A>, IoError>>,
    i: int,
    event: TransactionView,
) -> bool {
    &&& 0 <= i < items.len()
    &&& items[i] matches Ok(tx)
    &&& tx@ == event
}

/// Whether `event` is an event of the stream.
spec fn is_read<A: AmountType>(
    items: Seq<Result<Transaction<A>, IoError>>,
    event: TransactionView,
) -> bool {
    exists|i: int| is_event_at(items, i, event)
}

/// Every event among the items of a stream is the event at some place.
proof fn lemma_events_are_read<A: AmountType>(items: Seq<Result<Transaction<A>, IoError>>)
    ensures
        forall|p: int|
            0 <= p < laws::events_in(items).len() ==> is_read(
                items,
                #[trigger] laws::events_in(items)[p],
            ),
    decreases items.len(),
{
    if items.len() > 0 {
        let head = items.drop_last();
        lemma_events_are_read(head);
        let events = laws::events_in(items);
        assert forall|p: int| 0 <= p < events.len() implies is_read(items, #[trigger] events[p]) by {
            if p < laws::events_in(head).len() {
                assert(events[p] == laws::events_in(head)[p]);
                assert(is_read(head, laws::events_in(head)[p]));
                let i = choose|i: int| is_event_at(head, i, events[p]);
                assert(head[i] == items[i]);
                assert(is_event_at(items, i, events[p]));
            } else {
                assert(is_event_at(items, items.len() - 1, events[p]));
            }
        }
    }
}

/// Where the streams keep the ids of the clients apart, so does the order in
/// which their items are processed.
pub proof fn order_keeps_ids_apart<A: AmountType>(plan: processor::Topology<A>, upto: int)
    requires
        ids_kept_apart(plan.streams),
    ensures
        engine_laws::ids_belong_to_one_client(laws::events_in(order(plan, upto))),
{
    let items = order(plan, upto);
    let events = laws::events_in(items);
    order_is_drawn_from_the_streams(plan, upto);
    lemma_events_are_read(items);
    assert forall|p: int, q: int, tx_id: u32, first: u16, second: u16|
        #[trigger] engine_laws::makes(events, p, tx_id, first) && #[trigger] engine_laws::makes(
            events,
            q,
            tx_id,
            second,
        ) implies first == second by {
        assert(is_read(items, events[p]));
        assert(is_read(items, events[q]));
        let a = choose|a: int| is_event_at(items, a, events[p]);
        let b = choose|b: int| is_event_at(items, b, events[q]);
        assert(is_drawn(plan.streams, items[a]));
        assert(is_drawn(plan.streams, items[b]));
        let (j, i) = choose|j: int, i: int| is_item_of(plan.streams, j, i, items[a]);
        let (l, h) = choose|l: int, h: int| is_item_of(plan.streams, l, h, items[b]);
        assert(makes_in(plan.streams, j, i, tx_id, first));
        assert(makes_in(plan.streams, l, h, tx_id, second));
    }
}

/// For any streams of events of many clients, however they are dealt out to
/// shards and merged or chained there: the account of a client whose events
/// all come in one stream ends as if that stream had been processed alone,
/// from nothing. This holds under a policy that never stops, and as long as
/// no two clients use one transaction id.
pub proof fn any_topology_gives_the_same_account<A: AmountType, P: ErrorPolicy>(
    plan: processor::Topology<A>,
    policy: P,
    client: u16,
    k: int,
)
    requires
        laws::never_stops(policy),
        plan.shards >= 1,
        plan.streams.len() <= usize::MAX,
        confined_to(plan.streams, client, k),
        ids_kept_apart(plan.streams),
    ensures
        traits::account_of(
            plan.state_after_shards(policy, engine_laws::empty_state(), plan.shards as int).accounts,
            client,
        ) == traits::account_of(
            engine_laws::process_all::<A>(
                engine_laws::empty_state(),
                own_events(plan.streams[k], client),
            ).accounts,
            client,
        ),
{
    order_keeps_ids_apart(plan, plan.shards as int);
    account_does_not_depend_on_the_topology(plan, policy, client, k);
}

} // verus!
