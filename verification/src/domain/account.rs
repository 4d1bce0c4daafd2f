//! The per-client account: two balances, a lock flag and the transactions
//! currently under dispute.

use vstd::prelude::*;
use std::collections::HashSet;
use super::amount::AmountType;

verus! {

/// The mathematical model of an account. Balances are in ten-thousandths.
pub struct AccountView {
    pub client_id: u16,
    pub available: int,
    pub held: int,
    pub locked: bool,
    pub disputed: Set<u32>,
}

impl AccountView {
    /// The account that a client has before anything has happened to it.
    pub open spec fn fresh(client_id: u16) -> AccountView {
        AccountView { client_id, available: 0, held: 0, locked: false, disputed: Set::empty() }
    }

    /// Available plus held funds.
    pub open spec fn total(self) -> int {
        self.available + self.held
    }

    /// Neither balance is negative.
    pub open spec fn solvent(self) -> bool {
        self.available >= 0 && self.held >= 0
    }
}

/// A client's account. Its fields are private: balances change through the
/// operations of this crate only.
#[derive(Debug, PartialEq, Eq)]
pub struct ClientAccount<A: AmountType> {
    client_id: u16,
    available: A,
    held: A,
    locked: bool,
    disputed_transactions: HashSet<u32>,
}

impl<A: AmountType> View for ClientAccount<A> {
    type V = AccountView;

    closed spec fn view(&self) -> AccountView {
        AccountView {
            client_id: self.client_id,
            available: self.available.value(),
            held: self.held.value(),
            locked: self.locked,
            disputed: self.disputed_transactions@,
        }
    }
}

/// `HashSet::clone` on a set of transaction ids: the copy holds the same ids.
#[verifier::external_body]
fn clone_ids(ids: &HashSet<u32>) -> (copy: HashSet<u32>)
    ensures
        copy@ == ids@,
{
    ids.clone()
}

impl<A: AmountType> Clone for ClientAccount<A> {
    fn clone(&self) -> (copy: Self)
        ensures
            copy@ == self@,
    {
        ClientAccount {
            client_id: self.client_id,
            available: self.available,
            held: self.held,
            locked: self.locked,
            disputed_transactions: clone_ids(&self.disputed_transactions),
        }
    }
}

impl<A: AmountType> ClientAccount<A> {
    /// A new account with zero balances, unlocked, with nothing under dispute.
    pub fn new(client_id: u16) -> (account: Self)
        ensures
            account@ == AccountView::fresh(client_id),
    {
        ClientAccount {
            client_id,
            available: A::zero(),
            held: A::zero(),
            locked: false,
            disputed_transactions: HashSet::new(),
        }
    }

    /// Both balances are amounts that `A` can hold.
    pub proof fn view_is_bounded(&self)
        ensures
            A::representable(self@.available),
            A::representable(self@.held),
    {
        self.available.value_is_representable();
        self.held.value_is_representable();
    }

    /// The client that owns the account.
    pub fn client_id(&self) -> (id: u16)
        ensures
            id == self@.client_id,
    {
        self.client_id
    }

    /// Funds that can be withdrawn.
    pub fn available(&self) -> (amount: A)
        ensures
            amount.value() == self@.available,
    {
        self.available
    }

    /// Funds set aside for open disputes.
    pub fn held(&self) -> (amount: A)
        ensures
            amount.value() == self@.held,
    {
        self.held
    }

    /// Available plus held funds. The sum must be an amount that `A` can hold;
    /// `checked_total` serves the callers that cannot know.
    pub fn total(&self) -> (amount: A)
        requires
            A::representable(self@.total()),
        ensures
            amount.value() == self@.total(),
    {
        match self.available.checked_add(self.held) {
            Some(sum) => sum,
            None => self.available,
        }
    }

    /// Available plus held funds, or `None` where `A` cannot hold the sum.
    pub fn checked_total(&self) -> (amount: Option<A>)
        ensures
            match amount {
                Some(sum) => sum.value() == self@.total(),
                None => !A::representable(self@.total()),
            },
    {
        self.available.checked_add(self.held)
    }

    /// Whether a chargeback has locked the account.
    pub fn is_locked(&self) -> (locked: bool)
        ensures
            locked == self@.locked,
    {
        self.locked
    }

    /// Whether `tx_id` is under dispute.
    pub fn is_disputed(&self, tx_id: u32) -> (disputed: bool)
        ensures
            disputed == self@.disputed.contains(tx_id),
    {
        broadcast use vstd::std_specs::hash::group_hash_axioms;

        self.disputed_transactions.contains(&tx_id)
    }

    /// How many transactions are under dispute.
    pub fn disputed_count(&self) -> (count: usize)
        ensures
            count == self@.disputed.len(),
    {
        broadcast use vstd::std_specs::hash::group_hash_axioms;

        self.disputed_transactions.len()
    }

    /// Replaces the available balance.
    pub fn set_available(&mut self, amount: A)
        ensures
            final(self)@ == (AccountView { available: amount.value(), ..old(self)@ }),
    {
        self.available = amount;
    }

    /// Replaces the held balance.
    pub fn set_held(&mut self, amount: A)
        ensures
            final(self)@ == (AccountView { held: amount.value(), ..old(self)@ }),
    {
        self.held = amount;
    }

    /// Locks the account.
    pub fn lock(&mut self)
        ensures
            final(self)@ == (AccountView { locked: true, ..old(self)@ }),
    {
        self.locked = true;
    }

    /// Marks `tx_id` as disputed; `true` where it was not marked before.
    pub fn add_disputed(&mut self, tx_id: u32) -> (added: bool)
        ensures
            added == !old(self)@.disputed.contains(tx_id),
            final(self)@ == (AccountView {
                disputed: old(self)@.disputed.insert(tx_id),
                ..old(self)@
            }),
    {
        broadcast use vstd::std_specs::hash::group_hash_axioms;

        self.disputed_transactions.insert(tx_id)
    }

    /// Clears the mark on `tx_id`; `true` where it was marked.
    pub fn remove_disputed(&mut self, tx_id: u32) -> (removed: bool)
        ensures
            removed == old(self)@.disputed.contains(tx_id),
            final(self)@ == (AccountView {
                disputed: old(self)@.disputed.remove(tx_id),
                ..old(self)@
            }),
    {
        broadcast use vstd::std_specs::hash::group_hash_axioms;

        self.disputed_transactions.remove(&tx_id)
    }
}

} // verus!
