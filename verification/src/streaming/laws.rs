//! What holds of sessions and topologies.

use vstd::prelude::*;
use super::error::ErrorPolicy;
use super::processor;
use super::processor::ShardAssignment;
use super::processor::StreamCombinator;
use super::processor::Topology;
use super::single;
use crate::domain::amount::AmountType;
use crate::domain::transaction::Transaction;
use crate::domain::transaction::TransactionView;
use crate::engine::error::EngineError;
use crate::engine::laws as engine_laws;
use crate::engine::processor::EngineState;
use crate::engine::processor::state_after;
use crate::io::error::IoError;

verus! {

/// Processing one stream and then another is processing the two as one
/// stream, unless the policy stops in the first.
pub proof fn run_of_two_streams<A: AmountType, P: ErrorPolicy>(
    policy: P,
    state: EngineState,
    first: Seq<Result<Transaction<A>, IoError>>,
    second: Seq<Result<Transaction<A>, IoError>>,
)
    ensures
        single::run(policy, state, first + second) == if single::run(policy, state, first).1 {
            single::run(policy, single::run(policy, state, first).0, second)
        } else {
            single::run(policy, state, first)
        },
    decreases first.len(),
{
    if first.len() == 0 {
        assert(first + second == second);
    } else {
        assert((first + second).first() == first.first());
        assert((first + second).drop_first() == first.drop_first() + second);
        if single::goes_on(policy, state, first.first()) {
            run_of_two_streams(
                policy,
                single::state_past(state, first.first()),
                first.drop_first(),
                second,
            );
        }
    }
}

/// Chaining the parts of a trace gives back the trace.
pub proof fn chained_parts_are_the_trace<T>(parts: Seq<Seq<T>>)
    ensures
        processor::chained(parts) == parts.flatten(),
    decreases parts.len(),
{
    parts.lemma_flatten_and_flatten_alt_are_equivalent();
    if parts.len() > 0 {
        chained_parts_are_the_trace(parts.drop_last());
        parts.drop_last().lemma_flatten_and_flatten_alt_are_equivalent();
    }
}

/// Whether the assignment sends every one of `streams` streams to `shard`.
pub open spec fn all_in_shard(
    assignment: ShardAssignment,
    streams: nat,
    shards: usize,
    shard: int,
) -> bool {
    forall|i: int|
        0 <= i < streams ==> #[trigger] assignment.shard_of(i as usize, streams as usize, shards)
            == shard
}

/// A shard to which the assignment sends every stream gets them all, in the
/// order in which they were added, and the other shards get none.
pub proof fn shard_of_all_streams<T>(
    streams: Seq<Seq<T>>,
    assignment: ShardAssignment,
    shards: usize,
    shard: int,
    other: int,
    n: int,
)
    requires
        streams.len() <= usize::MAX,
        all_in_shard(assignment, streams.len(), shards, shard),
        0 <= n <= streams.len(),
        other != shard,
    ensures
        processor::dealt(streams, assignment, shards, shard, n) == streams.take(n),
        processor::dealt(streams, assignment, shards, other, n) == Seq::<Seq<T>>::empty(),
    decreases n,
{
    if n > 0 {
        shard_of_all_streams(streams, assignment, shards, shard, other, n - 1);
        assert(assignment.shard_of((n - 1) as usize, streams.len() as usize, shards) == shard);
        assert(streams.take(n - 1).push(streams[n - 1]) == streams.take(n));
    } else {
        assert(streams.take(0) == Seq::<Seq<T>>::empty());
    }
}

/// The state after the first `upto` shards of a topology whose streams all
/// go to one shard and are chained there: the shards before that one change
/// nothing, and from that one on the state is that of the whole trace.
proof fn lemma_state_after_shards<A: AmountType, P: ErrorPolicy>(
    plan: Topology<A>,
    policy: P,
    state: EngineState,
    shard: int,
    upto: int,
)
    requires
        plan.combinator is Chain,
        plan.streams.len() <= usize::MAX,
        all_in_shard(plan.assignment, plan.streams.len(), plan.shards, shard),
        0 <= shard,
        0 <= upto,
    ensures
        plan.items_of(shard) == plan.streams.flatten(),
        plan.state_after_shards(policy, state, upto) == if upto <= shard {
            state
        } else {
            single::run(policy, state, plan.streams.flatten()).0
        },
    decreases upto,
{
    let n = plan.streams.len() as int;
    shard_of_all_streams(plan.streams, plan.assignment, plan.shards, shard, shard + 1, n);
    assert(plan.streams.take(n) == plan.streams);
    chained_parts_are_the_trace(plan.streams);
    assert(plan.items_of(shard) == processor::chained(plan.streams));
    if upto > 0 {
        lemma_state_after_shards(plan, policy, state, shard, upto - 1);
        let before = plan.state_after_shards(policy, state, upto - 1);
        assert(plan.state_after_shards(policy, state, upto) == single::run(
            policy,
            before,
            plan.items_of(upto - 1),
        ).0);
        if upto - 1 != shard {
            shard_of_all_streams(plan.streams, plan.assignment, plan.shards, shard, upto - 1, n);
            assert(processor::chained(Seq::<Seq<Result<Transaction<A>, IoError>>>::empty())
                == Seq::<Result<Transaction<A>, IoError>>::empty());
            assert(plan.items_of(upto - 1) == Seq::<Result<Transaction<A>, IoError>>::empty());
            assert(single::run(policy, before, plan.items_of(upto - 1)) == (before, true));
        }
    }
}

/// However a trace is cut into streams, if the streams all go to one shard
/// and are chained there, processing them is processing the trace: the final
/// state is that of the uncut trace on one processor, and the shard is
/// processed to its end exactly if the trace is.
pub proof fn chained_streams_are_one_trace<A: AmountType, P: ErrorPolicy>(
    plan: Topology<A>,
    policy: P,
    state: EngineState,
    shard: int,
)
    requires
        plan.combinator is Chain,
        plan.streams.len() <= usize::MAX,
        0 <= shard < plan.shards,
        all_in_shard(plan.assignment, plan.streams.len(), plan.shards, shard),
    ensures
        plan.state_after_shards(policy, state, plan.shards as int) == single::run(
            policy,
            state,
            plan.streams.flatten(),
        ).0,
        plan.shard_completes(policy, state, shard) == single::run(
            policy,
            state,
            plan.streams.flatten(),
        ).1,
{
    lemma_state_after_shards(plan, policy, state, shard, plan.shards as int);
    lemma_state_after_shards(plan, policy, state, shard, shard);
}

/// With one shard, every assignment sends every stream to it.
pub proof fn one_shard_takes_all(assignment: ShardAssignment, streams: nat)
    requires
        streams <= usize::MAX,
    ensures
        all_in_shard(assignment, streams, 1, 0),
{
    assert forall|i: int| 0 <= i < streams implies #[trigger] assignment.shard_of(
        i as usize,
        streams as usize,
        1,
    ) == 0 by {
        let chunk = processor::chunk_size(streams as int, 1);
        assert(chunk == streams);
        assert(i / chunk == 0) by (nonlinear_arith)
            requires
                0 <= i < chunk,
        ;
    }
}

/// The events among the items of a stream, in the order in which they come.
pub open spec fn events_in<A: AmountType>(
    items: Seq<Result<Transaction<A>, IoError>>,
) -> Seq<TransactionView>
    decreases items.len(),
{
    if items.len() == 0 {
        Seq::empty()
    } else {
        match items.last() {
            Ok(tx) => events_in(items.drop_last()).push(tx@),
            Err(_) => events_in(items.drop_last()),
        }
    }
}

/// Whether the policy goes on after every error.
pub open spec fn never_stops<P: ErrorPolicy>(policy: P) -> bool {
    &&& forall|e: IoError| #[trigger] policy.continues_after_io(e)
    &&& forall|e: EngineError| #[trigger] policy.continues_after_engine(e)
}

/// Processing events from a state is processing the first of them and then
/// the others from the state after it.
proof fn lemma_process_all_from_front<A: AmountType>(
    state: EngineState,
    events: Seq<TransactionView>,
)
    requires
        events.len() > 0,
    ensures
        engine_laws::process_all::<A>(state, events) == engine_laws::process_all::<A>(
            state_after::<A>(state, events.first()),
            events.drop_first(),
        ),
    decreases events.len(),
{
    let first = state_after::<A>(state, events.first());
    let rest = events.drop_first();
    if events.len() == 1 {
        assert(engine_laws::process_all::<A>(state, events.drop_last()) == state);
        assert(engine_laws::process_all::<A>(first, rest) == first);
        assert(events.last() == events.first());
    } else {
        lemma_process_all_from_front::<A>(state, events.drop_last());
        assert(events.drop_last().first() == events.first());
        assert(events.drop_last().drop_first() == rest.drop_last());
        assert(rest.last() == events.last());
        assert(engine_laws::process_all::<A>(first, rest) == state_after::<A>(
            engine_laws::process_all::<A>(first, rest.drop_last()),
            rest.last(),
        ));
    }
}

/// The events of a stream with one more item in front.
proof fn lemma_events_in_from_front<A: AmountType>(items: Seq<Result<Transaction<A>, IoError>>)
    requires
        items.len() > 0,
    ensures
        events_in(items) == match items.first() {
            Ok(tx) => seq![tx@] + events_in(items.drop_first()),
            Err(_) => events_in(items.drop_first()),
        },
    decreases items.len(),
{
    let rest = items.drop_first();
    if items.len() == 1 {
        assert(events_in(items.drop_last()) == Seq::<TransactionView>::empty());
        assert(events_in(rest) == Seq::<TransactionView>::empty());
        assert(items.last() == items.first());
        if let Ok(tx) = items.first() {
            assert(Seq::<TransactionView>::empty().push(tx@) == seq![tx@] + Seq::<
                TransactionView,
            >::empty());
        }
    } else {
        lemma_events_in_from_front(items.drop_last());
        assert(items.drop_last().first() == items.first());
        assert(items.drop_last().drop_first() == rest.drop_last());
        assert(rest.last() == items.last());
        let inner = events_in(rest.drop_last());
        assert(events_in(rest) == match rest.last() {
            Ok(tx) => inner.push(tx@),
            Err(_) => inner,
        });
        if let Ok(head) = items.first() {
            if let Ok(tail) = items.last() {
                assert((seq![head@] + inner).push(tail@) == seq![head@] + inner.push(tail@));
            }
        }
    }
}

/// Under a policy that never stops, a stream is processed to its end, and
/// the state after it is that after its events: the errors of the source
/// leave no trace, and an event that is refused is passed over.
pub proof fn run_processes_every_event<A: AmountType, P: ErrorPolicy>(
    policy: P,
    state: EngineState,
    items: Seq<Result<Transaction<A>, IoError>>,
)
    requires
        never_stops(policy),
    ensures
        single::run(policy, state, items) == (
            engine_laws::process_all::<A>(state, events_in(items)),
            true,
        ),
    decreases items.len(),
{
    if items.len() > 0 {
        lemma_events_in_from_front(items);
        run_processes_every_event(
            policy,
            single::state_past(state, items.first()),
            items.drop_first(),
        );
        match items.first() {
            Ok(tx) => {
                let events = events_in(items);
                assert(events.first() == tx@);
                assert(events.drop_first() == events_in(items.drop_first()));
                lemma_process_all_from_front::<A>(state, events);
            },
            Err(_) => {},
        }
    }
}

} // verus!
