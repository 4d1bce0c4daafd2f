//! The interfaces of the two stores, stated over their mathematical models: a
//! map from client id to account, and a map from transaction id to record.

use vstd::prelude::*;
use super::error::StorageError;
use crate::domain::account::AccountView;
use crate::domain::account::ClientAccount;
use crate::domain::amount::AmountType;
use crate::domain::amount::append_number;
use crate::domain::amount::decimal_text;
use crate::domain::amount::nat_digits;
use crate::domain::error::DomainError;
use crate::domain::operations::AccountOperation;
use crate::domain::operations::OperationView;
use crate::domain::transaction::RecordView;
use crate::domain::transaction::TransactionRecord;

verus! {

/// The account that a store holds for `client_id`: the stored one, or a fresh
/// account where the store holds none. Looking at it stores nothing.
pub open spec fn account_of(accounts: Map<u16, AccountView>, client_id: u16) -> AccountView {
    if accounts.contains_key(client_id) {
        accounts[client_id]
    } else {
        AccountView::fresh(client_id)
    }
}

/// The accounts after `operation` on the account of `client_id`: where the
/// operation succeeds its result is stored under `client_id`, else nothing
/// changes.
pub open spec fn accounts_after<A: AmountType>(
    accounts: Map<u16, AccountView>,
    client_id: u16,
    operation: OperationView,
) -> Map<u16, AccountView> {
    match operation.outcome::<A>(account_of(accounts, client_id)) {
        Ok(next) => accounts.insert(client_id, next),
        Err(_) => accounts,
    }
}

/// What an update returns: the error of the operation, wrapped, or `Ok`.
pub open spec fn update_result<A: AmountType>(
    accounts: Map<u16, AccountView>,
    client_id: u16,
    operation: OperationView,
    result: Result<(), StorageError>,
) -> bool {
    match operation.outcome::<A>(account_of(accounts, client_id)) {
        Ok(_) => result is Ok,
        Err(e) => (result matches Err(StorageError::DomainError(d)) && d == e),
    }
}

/// The first line of a snapshot.
pub open spec fn header_text() -> Seq<char> {
    "client,available,held,total,locked\n"@
}

/// The text of a flag.
pub open spec fn flag_text(flag: bool) -> Seq<char> {
    if flag {
        "true"@
    } else {
        "false"@
    }
}

/// The snapshot line of an account: client id, available, held and total
/// funds with four fractional digits each, and the lock flag.
pub open spec fn row_text(account: AccountView) -> Seq<char> {
    nat_digits(account.client_id as nat) + ","@ + decimal_text(account.available) + ","@
        + decimal_text(account.held) + ","@ + decimal_text(account.total()) + ","@ + flag_text(
        account.locked,
    ) + "\n"@
}

/// The snapshot lines of the accounts listed, in the order of the listing.
pub open spec fn rows_text(listing: Seq<(u16, AccountView)>) -> Seq<char>
    decreases listing.len(),
{
    if listing.len() == 0 {
        Seq::empty()
    } else {
        rows_text(listing.drop_last()) + row_text(listing.last().1)
    }
}

/// Whether `listing` holds every account of `accounts` once, each with the
/// client id it is kept under, in whatever order.
pub open spec fn lists(listing: Seq<(u16, AccountView)>, accounts: Map<u16, AccountView>) -> bool {
    &&& forall|i: int|
        0 <= i < listing.len() ==> accounts.contains_key((#[trigger] listing[i]).0)
            && accounts[listing[i].0] == listing[i].1
    &&& forall|c: u16| #[trigger]
        accounts.contains_key(c) ==> exists|i: int|
            0 <= i < listing.len() && (#[trigger] listing[i]).0 == c
    &&& forall|i: int, j: int|
        0 <= i < j < listing.len() ==> (#[trigger] listing[i]).0 != (#[trigger] listing[j]).0
}

/// The snapshot line of `account`, or `None` where its total funds are more
/// than `A` can hold.
pub fn account_row<A: AmountType>(account: &ClientAccount<A>) -> (row: Option<String>)
    ensures
        match row {
            Some(text) => text@ == row_text(account@) && A::representable(account@.total()),
            None => !A::representable(account@.total()),
        },
{
    let total = match account.checked_total() {
        Some(total) => total,
        None => {
            return None;
        },
    };
    proof {
        total.value_is_representable();
    }
    let mut text = String::new();
    append_number(&mut text, account.client_id() as u64);
    text.append(",");
    text.append(account.available().to_decimal_string().as_str());
    text.append(",");
    text.append(account.held().to_decimal_string().as_str());
    text.append(",");
    text.append(total.to_decimal_string().as_str());
    text.append(",");
    if account.is_locked() {
        text.append("true");
    } else {
        text.append("false");
    }
    text.append("\n");
    Some(text)
}

/// The models of the accounts of a listing.
pub open spec fn listed<A: AmountType>(listing: Seq<(u16, ClientAccount<A>)>) -> Seq<
    (u16, AccountView),
> {
    listing.map_values(|pair: (u16, ClientAccount<A>)| (pair.0, pair.1@))
}

/// The snapshot lines of the accounts listed, or the place in the listing of
/// an account whose total funds are more than `A` can hold.
pub fn account_rows<A: AmountType>(listing: &Vec<(u16, ClientAccount<A>)>) -> (rows: Result<
    String,
    usize,
>)
    ensures
        match rows {
            Ok(text) => text@ == rows_text(listed(listing@)),
            Err(i) => i < listing.len() && !A::representable(listing[i as int].1@.total()),
        },
{
    let ghost views = listed(listing@);
    let mut text = String::new();
    let mut i: usize = 0;
    assert(views.take(0) == Seq::<(u16, AccountView)>::empty());
    while i < listing.len()
        invariant
            i <= listing.len(),
            views == listed(listing@),
            text@ == rows_text(views.take(i as int)),
        decreases listing.len() - i,
    {
        match account_row(&listing[i].1) {
            Some(row) => {
                text.append(row.as_str());
            },
            None => {
                return Err(i);
            },
        }
        proof {
            assert(views.take(i + 1).drop_last() == views.take(i as int));
            assert(views.take(i + 1).last() == views[i as int]);
        }
        i += 1;
    }
    proof {
        assert(views.take(i as int) == views);
    }
    Ok(text)
}

/// A store of transaction records, which never change once inserted.
pub trait TransactionStoreManager<A: AmountType>: Send + Sync {
    /// The records kept, by transaction id.
    spec fn records(&self) -> Map<u32, RecordView>;

    /// Files `record` under `tx_id`, replacing a record already there.
    fn insert(&mut self, tx_id: u32, record: TransactionRecord<A>)
        ensures
            final(self).records() == old(self).records().insert(tx_id, record@),
    ;

    /// A copy of the record of `tx_id`, where there is one.
    fn get(&self, tx_id: u32) -> (record: Option<TransactionRecord<A>>)
        ensures
            match record {
                Some(r) => self.records().contains_key(tx_id) && r@ == self.records()[tx_id],
                None => !self.records().contains_key(tx_id),
            },
    ;

    /// Whether a record of `tx_id` is kept.
    fn contains(&self, tx_id: u32) -> (found: bool)
        ensures
            found == self.records().contains_key(tx_id),
    ;
}

/// A handle on one client's account in a store.
pub trait ClientAccountEntry<'a, A: AmountType> {
    /// The account that the handle stands for.
    spec fn account(&self) -> AccountView;

    /// A copy of the account as it stands.
    fn read(&self) -> (account: ClientAccount<A>)
        ensures
            account@ == self.account(),
    ;
}

/// A store of client accounts.
pub trait ClientAccountManager<A: AmountType>: Send + Sync {
    type Entry<'a>: ClientAccountEntry<'a, A> where Self: 'a;

    /// The accounts kept, by client id.
    spec fn accounts(&self) -> Map<u16, AccountView>;

    /// A handle on the account of `client_id`. Nothing is stored by asking.
    fn entry(&self, client_id: u16) -> (entry: Result<Self::Entry<'_>, StorageError>)
        ensures
            entry matches Ok(e) && e.account() == account_of(self.accounts(), client_id),
    ;

    /// Applies `operation` to the account of `client_id` as one step: the
    /// account is stored only where the operation succeeds.
    fn try_update(&mut self, client_id: u16, operation: AccountOperation<A>) -> (result: Result<
        (),
        StorageError,
    >)
        ensures
            final(self).accounts() == accounts_after::<A>(
                old(self).accounts(),
                client_id,
                operation@,
            ),
            update_result::<A>(old(self).accounts(), client_id, operation@, result),
    ;

    /// Appends to `out` the snapshot of all accounts: the header line, then one
    /// line per account in no particular order. Where the total funds of an
    /// account are more than `A` can hold, nothing is appended and the error
    /// is `Overflow`.
    fn snapshot(&self, out: &mut String) -> (result: Result<(), StorageError>)
        ensures
            match result {
                Ok(()) => exists|listing: Seq<(u16, AccountView)>|
                    lists(listing, self.accounts()) && #[trigger] snapshot_of(
                        listing,
                        old(out)@,
                        final(out)@,
                    ),
                Err(e) => {
                    &&& final(out)@ == old(out)@
                    &&& e matches StorageError::DomainError(DomainError::Overflow)
                    &&& exists|c: u16| #[trigger]
                        self.accounts().contains_key(c) && !A::representable(
                            self.accounts()[c].total(),
                        )
                },
            },
    ;
}

/// Whether `after` is `before` with the snapshot of `listing` appended.
pub open spec fn snapshot_of(
    listing: Seq<(u16, AccountView)>,
    before: Seq<char>,
    after: Seq<char>,
) -> bool {
    after == before + header_text() + rows_text(listing)
}

} // verus!
