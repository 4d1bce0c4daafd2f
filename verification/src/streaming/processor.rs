//! Many streams over shards.

use vstd::prelude::*;
use super::error::ErrorPolicy;
use super::single::ProcessingSession;
use super::single::run;
use crate::domain::amount::AmountType;
use crate::domain::transaction::Transaction;
use crate::engine::processor::EngineState;
use crate::engine::processor::TransactionProcessor;
use crate::io::error::IoError;
use crate::storage::traits::ClientAccountManager;
use crate::storage::traits::TransactionStoreManager;

verus! {

/// Chooses a shard for a stream by the stream's place among the streams added.
pub trait ShardPicker: Send + Sync {
    /// The shard wished for the stream at `index`.
    spec fn shard(&self, index: usize) -> usize;

    /// The shard wished for the stream at `index`.
    fn pick(&self, index: usize) -> (shard: usize)
        ensures
            shard == self.shard(index),
    ;
}

/// A picker that goes by a list of wishes: the stream at `index` gets the
/// wish at that place, and past the end the list starts over. An empty list
/// wishes every stream its own index.
pub struct ListedPicks {
    pub picks: Vec<usize>,
}

impl ShardPicker for ListedPicks {
    open spec fn shard(&self, index: usize) -> usize {
        if self.picks.len() == 0 {
            index
        } else {
            self.picks[index as int % self.picks.len() as int]
        }
    }

    fn pick(&self, index: usize) -> (shard: usize) {
        if self.picks.len() == 0 {
            index
        } else {
            self.picks[index % self.picks.len()]
        }
    }
}

/// How streams are assigned to shards.
pub enum ShardAssignment {
    RoundRobin,
    Sequential,
    Custom(Box<dyn ShardPicker>),
}

/// How the streams of one shard are combined.
#[derive(Debug, Clone, Copy)]
pub enum StreamCombinator {
    Merge,
    Chain,
}

/// What became of one shard.
#[derive(Debug)]
pub struct ShardResult {
    pub shard_id: usize,
    pub streams_processed: usize,
    pub success: bool,
}

/// What became of all shards.
#[derive(Debug)]
pub struct ProcessorResults {
    pub shard_results: Vec<ShardResult>,
    pub total_streams: usize,
}

impl ProcessorResults {
    /// Whether every shard was processed to its end.
    pub fn all_succeeded(&self) -> (all: bool)
        ensures
            all == forall|i: int|
                0 <= i < self.shard_results.len() ==> (#[trigger] self.shard_results[i]).success,
    {
        let mut i: usize = 0;
        while i < self.shard_results.len()
            invariant
                i <= self.shard_results.len(),
                forall|j: int| 0 <= j < i ==> (#[trigger] self.shard_results[j]).success,
            decreases self.shard_results.len() - i,
        {
            if !self.shard_results[i].success {
                return false;
            }
            i += 1;
        }
        true
    }

    /// The number of shards.
    pub fn total_shards(&self) -> (count: usize)
        ensures
            count == self.shard_results.len(),
    {
        self.shard_results.len()
    }
}

/// The streams per shard when `streams` streams are dealt out in runs of equal
/// length over `shards` shards: the quotient, rounded up.
pub open spec fn chunk_size(streams: int, shards: int) -> int {
    if streams % shards == 0 {
        streams / shards
    } else {
        streams / shards + 1
    }
}

/// The smaller of two numbers.
pub open spec fn least(a: int, b: int) -> int {
    if a <= b {
        a
    } else {
        b
    }
}

impl ShardAssignment {
    /// The shard of the stream at `index` among `streams` streams over
    /// `shards` shards. Round-robin deals the streams out in turn; sequential
    /// gives each shard a run of consecutive streams, the last shard taking
    /// what is left; a custom picker's wish is taken modulo the shard count.
    pub open spec fn shard_of(self, index: usize, streams: usize, shards: usize) -> int {
        match self {
            ShardAssignment::RoundRobin => index as int % shards as int,
            ShardAssignment::Sequential => least(
                index as int / chunk_size(streams as int, shards as int),
                shards - 1,
            ),
            ShardAssignment::Custom(picker) => picker.shard(index) as int % shards as int,
        }
    }

    /// The shard of the stream at `index` among `streams` streams over
    /// `shards` shards.
    pub fn assign(&self, index: usize, streams: usize, shards: usize) -> (shard: usize)
        requires
            shards >= 1,
            index < streams,
        ensures
            shard == self.shard_of(index, streams, shards),
            shard < shards,
    {
        match self {
            ShardAssignment::RoundRobin => index % shards,
            ShardAssignment::Sequential => {
                let whole = streams / shards;
                assert(streams % shards != 0 ==> whole < streams) by (nonlinear_arith)
                    requires
                        streams >= 1,
                        shards >= 1,
                        whole == streams / shards,
                ;
                let chunk = if streams % shards == 0 {
                    whole
                } else {
                    whole + 1
                };
                assert(chunk >= 1) by (nonlinear_arith)
                    requires
                        streams >= 1,
                        shards >= 1,
                        chunk == chunk_size(streams as int, shards as int),
                ;
                let place = index / chunk;
                if place < shards - 1 {
                    place
                } else {
                    shards - 1
                }
            },
            ShardAssignment::Custom(picker) => picker.pick(index) % shards,
        }
    }
}

/// What each of the streams holds.
pub open spec fn contents<T>(streams: Seq<Vec<T>>) -> Seq<Seq<T>> {
    streams.map_values(|stream: Vec<T>| stream@)
}

/// The streams one after another, each from its first item to its last.
pub open spec fn chained<T>(streams: Seq<Seq<T>>) -> Seq<T>
    decreases streams.len(),
{
    if streams.len() == 0 {
        Seq::empty()
    } else {
        chained(streams.drop_last()) + streams.last()
    }
}

/// The items at place `r` of the streams that are long enough to have one,
/// in the order of the streams.
pub open spec fn round<T>(streams: Seq<Seq<T>>, r: int) -> Seq<T>
    decreases streams.len(),
{
    if streams.len() == 0 {
        Seq::empty()
    } else if r < streams.last().len() {
        round(streams.drop_last(), r).push(streams.last()[r])
    } else {
        round(streams.drop_last(), r)
    }
}

/// The first `n` rounds, one after another.
pub open spec fn rounds<T>(streams: Seq<Seq<T>>, n: nat) -> Seq<T>
    decreases n,
{
    if n == 0 {
        Seq::empty()
    } else {
        rounds(streams, (n - 1) as nat) + round(streams, n - 1)
    }
}

/// The length of the longest stream.
pub open spec fn longest<T>(streams: Seq<Seq<T>>) -> nat
    decreases streams.len(),
{
    if streams.len() == 0 {
        0
    } else if longest(streams.drop_last()) >= streams.last().len() {
        longest(streams.drop_last())
    } else {
        streams.last().len()
    }
}

/// The streams interleaved in turn: the first item of each, then the second of
/// each, and so on, until the longest stream is at its end. Every stream keeps
/// the order of its own items.
pub open spec fn merged<T>(streams: Seq<Seq<T>>) -> Seq<T> {
    rounds(streams, longest(streams))
}

/// The order in which the items of the streams of one shard are processed.
pub open spec fn combined<T>(streams: Seq<Seq<T>>, combinator: StreamCombinator) -> Seq<T> {
    match combinator {
        StreamCombinator::Merge => merged(streams),
        StreamCombinator::Chain => chained(streams),
    }
}

/// Chains the streams: each is consumed to its end before the next starts.
pub fn chain_streams<T>(streams: Vec<Vec<T>>) -> (all: Vec<T>)
    ensures
        all@ == chained(contents(streams@)),
{
    let ghost given = contents(streams@);
    let mut all: Vec<T> = Vec::new();
    assert(given.take(0) == Seq::<Seq<T>>::empty());
    for stream in it: streams.into_iter()
        invariant
            it.seq() == streams@,
            given == contents(streams@),
            all@ == chained(given.take(it.index())),
    {
        proof {
            assert(given.take(it.index() + 1).drop_last() == given.take(it.index()));
            assert(given.take(it.index() + 1).last() == stream@);
        }
        let mut rest = stream;
        all.append(&mut rest);
    }
    assert(given.take(given.len() as int) == given);
    all
}

/// Whether `stack` holds the items of `stream` from place `from` on, the
/// last of them at the bottom and the next one to take on top.
pub open spec fn stacked<T>(stack: Seq<T>, stream: Seq<T>, from: int) -> bool {
    &&& stack.len() == (if from < stream.len() {
        stream.len() - from
    } else {
        0
    })
    &&& forall|i: int| 0 <= i < stack.len() ==> stack[i] == stream[stream.len() - 1 - i]
}

/// The stream as a stack, its first item on top.
fn as_stack<T>(stream: Vec<T>) -> (stack: Vec<T>)
    ensures
        stacked(stack@, stream@, 0),
{
    let ghost given = stream@;
    let mut stream = stream;
    let mut stack: Vec<T> = Vec::new();
    while stream.len() > 0
        invariant
            stream@ == given.take(stream.len() as int),
            stack.len() + stream.len() == given.len(),
            forall|i: int| 0 <= i < stack.len() ==> stack[i] == given[given.len() - 1 - i],
        decreases stream.len(),
    {
        let item = stream.pop().unwrap();
        stack.push(item);
    }
    stack
}

/// The streams as stacks, and the length of the longest of them.
fn as_stacks<T>(streams: Vec<Vec<T>>) -> (made: (Vec<Vec<T>>, usize))
    ensures
        made.0.len() == streams.len(),
        forall|k: int| 0 <= k < streams.len() ==> stacked(#[trigger] made.0[k]@, streams[k]@, 0),
        made.1 == longest(contents(streams@)),
{
    let ghost given = contents(streams@);
    let mut stacks: Vec<Vec<T>> = Vec::new();
    let mut most: usize = 0;
    assert(given.take(0) == Seq::<Seq<T>>::empty());
    for stream in it: streams.into_iter()
        invariant
            it.seq() == streams@,
            given == contents(streams@),
            stacks.len() == it.index(),
            forall|k: int| 0 <= k < it.index() ==> stacked(#[trigger] stacks[k]@, streams[k]@, 0),
            most == longest(given.take(it.index())),
    {
        proof {
            assert(given.take(it.index() + 1).drop_last() == given.take(it.index()));
            assert(given.take(it.index() + 1).last() == stream@);
        }
        if stream.len() > most {
            most = stream.len();
        }
        stacks.push(as_stack(stream));
    }
    assert(given.take(given.len() as int) == given);
    (stacks, most)
}

/// Merges the streams in turn: one item of each stream that has one left,
/// round after round.
pub fn merge_streams<T>(streams: Vec<Vec<T>>) -> (all: Vec<T>)
    ensures
        all@ == merged(contents(streams@)),
{
    let ghost given = contents(streams@);
    let (mut stacks, most) = as_stacks(streams);
    let n = stacks.len();
    let mut all: Vec<T> = Vec::new();
    let mut r: usize = 0;
    while r < most
        invariant
            r <= most,
            most == longest(given),
            n == stacks.len(),
            n == given.len(),
            forall|k: int| 0 <= k < n ==> stacked(#[trigger] stacks[k]@, given[k], r as int),
            all@ == rounds(given, r as nat),
        decreases most - r,
    {
        let mut k: usize = 0;
        assert(given.take(0) == Seq::<Seq<T>>::empty());
        while k < n
            invariant
                k <= n,
                r < most,
                n == stacks.len(),
                n == given.len(),
                forall|j: int| 0 <= j < k ==> stacked(#[trigger] stacks[j]@, given[j], r + 1),
                forall|j: int| k <= j < n ==> stacked(#[trigger] stacks[j]@, given[j], r as int),
                all@ == rounds(given, r as nat) + round(given.take(k as int), r as int),
            decreases n - k,
        {
            proof {
                assert(given.take(k + 1).drop_last() == given.take(k as int));
                assert(given.take(k + 1).last() == given[k as int]);
                assert(stacked(stacks[k as int]@, given[k as int], r as int));
            }
            if stacks[k].len() > 0 {
                let item = stacks[k].pop().unwrap();
                all.push(item);
                assert(all@ == rounds(given, r as nat) + round(given.take(k + 1), r as int));
            }
            assert(stacked(stacks[k as int]@, given[k as int], r + 1));
            k += 1;
        }
        assert(given.take(n as int) == given);
        r += 1;
    }
    all
}

/// The streams that shard `shard` gets of the first `n` streams added, in the
/// order in which they were added.
pub open spec fn dealt<T>(
    streams: Seq<Seq<T>>,
    assignment: ShardAssignment,
    shards: usize,
    shard: int,
    n: int,
) -> Seq<Seq<T>>
    decreases n,
{
    if n <= 0 {
        Seq::empty()
    } else if assignment.shard_of((n - 1) as usize, streams.len() as usize, shards) == shard {
        dealt(streams, assignment, shards, shard, n - 1).push(streams[n - 1])
    } else {
        dealt(streams, assignment, shards, shard, n - 1)
    }
}

/// Deals the streams out to `shards` shards.
pub fn deal_streams<T>(streams: Vec<Vec<T>>, assignment: &ShardAssignment, shards: usize) -> (dealing:
    Vec<Vec<Vec<T>>>)
    requires
        shards >= 1,
    ensures
        dealing.len() == shards,
        forall|s: int|
            0 <= s < shards ==> contents((#[trigger] dealing[s])@) == dealt(
                contents(streams@),
                *assignment,
                shards,
                s,
                streams.len() as int,
            ),
{
    let ghost given = contents(streams@);
    let count = streams.len();
    let mut dealing: Vec<Vec<Vec<T>>> = Vec::new();
    while dealing.len() < shards
        invariant
            dealing.len() <= shards,
            forall|s: int| 0 <= s < dealing.len() ==> (#[trigger] dealing[s])@.len() == 0,
        decreases shards - dealing.len(),
    {
        dealing.push(Vec::new());
    }
    assert forall|s: int| 0 <= s < shards implies contents((#[trigger] dealing[s])@) == dealt(
        given,
        *assignment,
        shards,
        s,
        0,
    ) by {
        assert(contents(dealing[s]@) == Seq::<Seq<T>>::empty());
    }
    let mut index: usize = 0;
    for stream in it: streams.into_iter()
        invariant
            it.seq() == streams@,
            given == contents(streams@),
            count == streams.len(),
            index == it.index(),
            shards >= 1,
            dealing.len() == shards,
            forall|s: int|
                0 <= s < shards ==> contents((#[trigger] dealing[s])@) == dealt(
                    given,
                    *assignment,
                    shards,
                    s,
                    index as int,
                ),
    {
        let shard = assignment.assign(index, count, shards);
        let ghost before = dealing@;
        dealing[shard].push(stream);
        proof {
            assert(given[index as int] == stream@);
            assert forall|s: int| 0 <= s < shards implies contents((#[trigger] dealing[s])@)
                == dealt(given, *assignment, shards, s, index + 1) by {
                if s == shard {
                    assert(contents(dealing[s]@) == contents(before[s]@).push(stream@));
                } else {
                    assert(dealing[s] == before[s]);
                }
            }
        }
        index += 1;
    }
    dealing
}

/// A stream of events as the engine takes it: each item an event, or the
/// error that the source met in its place.
pub type EventStream<A> = Vec<Result<Transaction<A>, IoError>>;

/// A topology as configured: what `process` works by.
pub struct Topology<A: AmountType> {
    pub streams: Seq<Seq<Result<Transaction<A>, IoError>>>,
    pub assignment: ShardAssignment,
    pub shards: usize,
    pub combinator: StreamCombinator,
}

impl<A: AmountType> Topology<A> {
    /// The items of shard `shard`, in the order in which they are processed.
    pub open spec fn items_of(self, shard: int) -> Seq<Result<Transaction<A>, IoError>> {
        combined(
            dealt(self.streams, self.assignment, self.shards, shard, self.streams.len() as int),
            self.combinator,
        )
    }

    /// The number of streams of shard `shard`.
    pub open spec fn streams_of(self, shard: int) -> nat {
        dealt(self.streams, self.assignment, self.shards, shard, self.streams.len() as int).len()
    }

    /// The state after the first `upto` shards are processed one after another
    /// from `state`.
    pub open spec fn state_after_shards<P: ErrorPolicy>(
        self,
        policy: P,
        state: EngineState,
        upto: int,
    ) -> EngineState
        decreases upto,
    {
        if upto <= 0 {
            state
        } else {
            run(
                policy,
                self.state_after_shards(policy, state, upto - 1),
                self.items_of(upto - 1),
            ).0
        }
    }

    /// Whether shard `shard` is processed to its end.
    pub open spec fn shard_completes<P: ErrorPolicy>(
        self,
        policy: P,
        state: EngineState,
        shard: int,
    ) -> bool {
        run(policy, self.state_after_shards(policy, state, shard), self.items_of(shard)).1
    }

    /// Whether `result` is the outcome of shard `shard`.
    pub open spec fn is_result_of<P: ErrorPolicy>(
        self,
        policy: P,
        state: EngineState,
        shard: int,
        result: ShardResult,
    ) -> bool {
        &&& result.shard_id == shard
        &&& result.streams_processed == self.streams_of(shard)
        &&& result.success == self.shard_completes(policy, state, shard)
    }
}

/// Processes streams of events over shards: the streams are dealt out to the
/// shards, the streams of a shard are combined, and the shards are processed
/// one after another over one store and one log.
pub struct StreamProcessor<A, M, T, P> where
    A: AmountType,
    M: ClientAccountManager<A>,
    T: TransactionStoreManager<A>,
    P: ErrorPolicy,
 {
    session: ProcessingSession<A, M, T, P>,
    num_shards: usize,
    streams: Vec<EventStream<A>>,
    shard_assignment: ShardAssignment,
    stream_combinator: StreamCombinator,
}

impl<A, M, T, P> StreamProcessor<A, M, T, P> where
    A: AmountType,
    M: ClientAccountManager<A>,
    T: TransactionStoreManager<A>,
    P: ErrorPolicy,
 {
    /// The accounts and records that the processor works on.
    pub closed spec fn state(&self) -> EngineState {
        self.session.state()
    }

    /// The policy for errors.
    pub closed spec fn policy(&self) -> P {
        self.session.policy()
    }

    /// The streams added and the configuration.
    pub closed spec fn topology(&self) -> Topology<A> {
        Topology {
            streams: contents(self.streams@),
            assignment: self.shard_assignment,
            shards: if self.num_shards == 0 {
                1
            } else {
                self.num_shards
            },
            combinator: self.stream_combinator,
        }
    }

    /// A processor over the given store and log, with one shard, round-robin
    /// assignment, merging, and no streams yet.
    pub fn new(account_manager: M, transaction_store: T, error_policy: P) -> (processor: Self)
        ensures
            processor.state() == (EngineState {
                accounts: account_manager.accounts(),
                records: transaction_store.records(),
            }),
            processor.policy() == error_policy,
            processor.topology() == (Topology::<A> {
                streams: Seq::empty(),
                assignment: ShardAssignment::RoundRobin,
                shards: 1,
                combinator: StreamCombinator::Merge,
            }),
    {
        let processor = StreamProcessor {
            session: ProcessingSession::new(
                TransactionProcessor::new(account_manager, transaction_store),
                error_policy,
            ),
            num_shards: 1,
            streams: Vec::new(),
            shard_assignment: ShardAssignment::RoundRobin,
            stream_combinator: StreamCombinator::Merge,
        };
        assert(contents(processor.streams@) == Seq::<Seq<Result<Transaction<A>, IoError>>>::empty());
        processor
    }

    /// Sets the number of shards; zero counts as one.
    pub fn with_shards(self, num: usize) -> (processor: Self)
        ensures
            processor.state() == self.state(),
            processor.policy() == self.policy(),
            processor.topology() == (Topology {
                shards: if num == 0 {
                    1
                } else {
                    num
                },
                ..self.topology()
            }),
    {
        let mut processor = self;
        processor.num_shards = if num == 0 {
            1
        } else {
            num
        };
        processor
    }

    /// Sets how streams are assigned to shards.
    pub fn with_shard_assignment(self, assignment: ShardAssignment) -> (processor: Self)
        ensures
            processor.state() == self.state(),
            processor.policy() == self.policy(),
            processor.topology() == (Topology { assignment, ..self.topology() }),
    {
        let mut processor = self;
        processor.shard_assignment = assignment;
        processor
    }

    /// Sets how the streams of one shard are combined.
    pub fn with_stream_combinator(self, combinator: StreamCombinator) -> (processor: Self)
        ensures
            processor.state() == self.state(),
            processor.policy() == self.policy(),
            processor.topology() == (Topology { combinator, ..self.topology() }),
    {
        let mut processor = self;
        processor.stream_combinator = combinator;
        processor
    }

    /// Adds a stream, after those added before.
    pub fn add_stream(self, stream: EventStream<A>) -> (processor: Self)
        ensures
            processor.state() == self.state(),
            processor.policy() == self.policy(),
            processor.topology() == (Topology {
                streams: self.topology().streams.push(stream@),
                ..self.topology()
            }),
    {
        let mut processor = self;
        processor.streams.push(stream);
        assert(contents(processor.streams@) == contents(self.streams@).push(stream@));
        processor
    }

    /// Processes the streams added so far, shard by shard, and forgets them.
    /// With no streams there is nothing to do and no shard to report. A shard
    /// that the policy stops does not keep the later shards from running, and
    /// what it had applied stays applied.
    pub fn process(&mut self) -> (results: ProcessorResults)
        ensures
            final(self).policy() == old(self).policy(),
            final(self).topology() == (Topology {
                streams: Seq::empty(),
                ..old(self).topology()
            }),
            results.total_streams == old(self).topology().streams.len(),
            old(self).topology().streams.len() == 0 ==> results.shard_results.len() == 0
                && final(self).state() == old(self).state(),
            old(self).topology().streams.len() > 0 ==> {
                &&& results.shard_results.len() == old(self).topology().shards
                &&& forall|s: int|
                    0 <= s < old(self).topology().shards ==> old(self).topology().is_result_of(
                        old(self).policy(),
                        old(self).state(),
                        s,
                        #[trigger] results.shard_results[s],
                    )
                &&& final(self).state() == old(self).topology().state_after_shards(
                    old(self).policy(),
                    old(self).state(),
                    old(self).topology().shards as int,
                )
            },
    {
        let ghost plan = self.topology();
        let ghost policy = self.policy();
        let ghost start = self.state();
        let mut streams: Vec<EventStream<A>> = Vec::new();
        std::mem::swap(&mut self.streams, &mut streams);
        assert(contents(self.streams@) == Seq::<Seq<Result<Transaction<A>, IoError>>>::empty());
        let total = streams.len();
        if total == 0 {
            return ProcessorResults { shard_results: Vec::new(), total_streams: 0 };
        }
        let shards = if self.num_shards == 0 {
            1
        } else {
            self.num_shards
        };
        let dealing = deal_streams(streams, &self.shard_assignment, shards);
        let mut shard_results: Vec<ShardResult> = Vec::new();
        let mut shard: usize = 0;
        for shard_streams in it: dealing.into_iter()
            invariant
                it.seq() == dealing@,
                dealing.len() == shards,
                shards == plan.shards,
                shard == it.index(),
                forall|s: int|
                    0 <= s < shards ==> contents((#[trigger] dealing[s])@) == dealt(
                        plan.streams,
                        plan.assignment,
                        plan.shards,
                        s,
                        plan.streams.len() as int,
                    ),
                self.policy() == policy,
                self.topology() == (Topology { streams: Seq::empty(), ..plan }),
                self.state() == plan.state_after_shards(policy, start, shard as int),
                shard_results.len() == shard,
                forall|s: int|
                    0 <= s < shard ==> plan.is_result_of(
                        policy,
                        start,
                        s,
                        #[trigger] shard_results[s],
                    ),
        {
            assert(contents(dealing[shard as int]@) == contents(shard_streams@));
            let ghost held = contents(shard_streams@);
            let count = shard_streams.len();
            let items = match self.stream_combinator {
                StreamCombinator::Merge => merge_streams(shard_streams),
                StreamCombinator::Chain => chain_streams(shard_streams),
            };
            assert(items@ == plan.items_of(shard as int));
            let success = self.session.process_stream(items);
            shard_results.push(ShardResult { shard_id: shard, streams_processed: count, success });
            shard += 1;
        }
        ProcessorResults { shard_results, total_streams: total }
    }

    /// The account store, for reading accounts and taking snapshots.
    pub fn account_manager(&self) -> (manager: &M)
        ensures
            manager.accounts() == self.state().accounts,
    {
        self.session.account_manager()
    }
}

} // verus!
