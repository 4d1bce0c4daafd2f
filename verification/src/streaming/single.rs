//! One processor, one policy, one stream of events after another.

use vstd::prelude::*;
use std::marker::PhantomData;
use super::error::ErrorPolicy;
use crate::domain::amount::AmountType;
use crate::domain::transaction::Transaction;
use crate::engine::processor::EngineState;
use crate::engine::processor::TransactionProcessor;
use crate::engine::processor::outcome_of;
use crate::engine::processor::state_after;
use crate::io::error::IoError;
use crate::storage::traits::ClientAccountManager;
use crate::storage::traits::TransactionStoreManager;

verus! {

/// Whether processing goes on after `item`, handled in `state`: always after an
/// event that is applied, and after an error if the policy says so.
pub open spec fn goes_on<A: AmountType, P: ErrorPolicy>(
    policy: P,
    state: EngineState,
    item: Result<Transaction<A>, IoError>,
) -> bool {
    match item {
        Ok(tx) => match outcome_of::<A>(state, tx@) {
            Ok(()) => true,
            Err(e) => policy.continues_after_engine(e),
        },
        Err(e) => policy.continues_after_io(e),
    }
}

/// The state after `item` is handled in `state`: an event is processed, an
/// error of the source changes nothing.
pub open spec fn state_past<A: AmountType>(
    state: EngineState,
    item: Result<Transaction<A>, IoError>,
) -> EngineState {
    match item {
        Ok(tx) => state_after::<A>(state, tx@),
        Err(_) => state,
    }
}

/// The state after a stream is processed from `state`, and whether it was
/// processed to its end. Processing stops at the first item after which the
/// policy does not go on; what was applied until then stays applied.
pub open spec fn run<A: AmountType, P: ErrorPolicy>(
    policy: P,
    state: EngineState,
    items: Seq<Result<Transaction<A>, IoError>>,
) -> (EngineState, bool)
    decreases items.len(),
{
    if items.len() == 0 {
        (state, true)
    } else if goes_on(policy, state, items.first()) {
        run(policy, state_past(state, items.first()), items.drop_first())
    } else {
        (state_past(state, items.first()), false)
    }
}

/// A processor together with the policy for its errors.
pub struct ProcessingSession<A, M, T, P> where
    A: AmountType,
    M: ClientAccountManager<A>,
    T: TransactionStoreManager<A>,
    P: ErrorPolicy,
 {
    processor: TransactionProcessor<A, M, T>,
    error_policy: P,
    _phantom: PhantomData<A>,
}

impl<A, M, T, P> ProcessingSession<A, M, T, P> where
    A: AmountType,
    M: ClientAccountManager<A>,
    T: TransactionStoreManager<A>,
    P: ErrorPolicy,
 {
    /// The accounts and records that the session works on.
    pub closed spec fn state(&self) -> EngineState {
        self.processor.state()
    }

    /// The policy of the session.
    pub closed spec fn policy(&self) -> P {
        self.error_policy
    }

    /// The processor of the session.
    pub closed spec fn processor(&self) -> TransactionProcessor<A, M, T> {
        self.processor
    }

    /// A session of `processor` under `error_policy`.
    pub fn new(processor: TransactionProcessor<A, M, T>, error_policy: P) -> (session: Self)
        ensures
            session.state() == processor.state(),
            session.policy() == error_policy,
            session.processor() == processor,
    {
        ProcessingSession { processor, error_policy, _phantom: PhantomData }
    }

    /// Handles one item of a stream: processes an event, hands an error to the
    /// policy. Returns whether processing goes on.
    pub fn handle(&mut self, item: Result<Transaction<A>, IoError>) -> (go_on: bool)
        ensures
            go_on == goes_on(old(self).policy(), old(self).state(), item),
            final(self).state() == state_past(old(self).state(), item),
            final(self).policy() == old(self).policy(),
    {
        match item {
            Ok(transaction) => match self.processor.process_transaction(transaction) {
                Ok(()) => true,
                Err(e) => self.error_policy.handle_engine_error(e),
            },
            Err(e) => self.error_policy.handle_io_error(e),
        }
    }

    /// Processes a stream of events. Returns `true` where the stream was
    /// processed to its end, `false` where the policy stopped it.
    pub fn process_stream(&mut self, stream: Vec<Result<Transaction<A>, IoError>>) -> (completed:
        bool)
        ensures
            (final(self).state(), completed) == run(
                old(self).policy(),
                old(self).state(),
                stream@,
            ),
            final(self).policy() == old(self).policy(),
    {
        let ghost items = stream@;
        let ghost policy = self.policy();
        let ghost start = self.state();
        assert(items.skip(0) == items);
        for item in it: stream.into_iter()
            invariant
                it.seq() == items,
                items == stream@,
                policy == old(self).policy(),
                start == old(self).state(),
                self.policy() == policy,
                run(policy, start, items) == run(policy, self.state(), items.skip(it.index())),
        {
            let ghost before = self.state();
            let ghost rest = items.skip(it.index());
            proof {
                assert(rest.len() > 0);
                assert(rest.first() == item);
                assert(rest.drop_first() == items.skip(it.index() + 1));
            }
            let go_on = self.handle(item);
            if !go_on {
                assert(run(policy, before, rest) == (self.state(), false));
                return false;
            }
            assert(run(policy, before, rest) == run(policy, self.state(), rest.drop_first()));
        }
        assert(items.skip(items.len() as int).len() == 0);
        true
    }

    /// The account store, for reading accounts and taking snapshots.
    pub fn account_manager(&self) -> (manager: &M)
        ensures
            manager.accounts() == self.state().accounts,
    {
        self.processor.account_manager()
    }

    /// Ends the session and hands back its processor.
    pub fn into_processor(self) -> (processor: TransactionProcessor<A, M, T>)
        ensures
            processor == self.processor(),
            processor.state() == self.state(),
    {
        self.processor
    }
}

} // verus!
