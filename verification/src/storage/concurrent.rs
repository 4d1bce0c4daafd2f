//! The account store, kept in a sharded hash map.

use vstd::prelude::*;
use dashmap::DashMap;
use super::error::StorageError;
use super::traits::ClientAccountEntry;
use super::traits::ClientAccountManager;
use super::traits::account_of;
use super::traits::account_rows;
use super::traits::listed;
use super::traits::lists;
use super::traits::snapshot_of;
use crate::domain::account::AccountView;
use crate::domain::account::ClientAccount;
use crate::domain::amount::AmountType;
use crate::domain::amount::FixedPoint;
use crate::domain::error::DomainError;
use crate::domain::operations::AccountOperation;

verus! {

/// `dashmap::DashMap`, a hash map in shards. What a map of accounts holds is
/// named by `account_entries`, what a map of records holds by
/// `record_entries`; nothing else is known of a map.
#[verifier::external_type_specification]
#[verifier::external_body]
#[verifier::reject_recursive_types(K)]
#[verifier::reject_recursive_types(V)]
#[verifier::reject_recursive_types(S)]
pub struct ExDashMap<K, V, S>(DashMap<K, V, S>);

/// The map that holds the accounts.
pub type AccountMap = DashMap<u16, ClientAccount<FixedPoint>>;

/// The accounts that a map holds, by the client id they are kept under.
pub uninterp spec fn account_entries(map: &AccountMap) -> Map<u16, AccountView>;

/// `DashMap::new`: a map that holds nothing.
#[verifier::external_body]
fn new_account_map() -> (map: AccountMap)
    ensures
        account_entries(&map) == (Map::<u16, AccountView>::empty()),
{
    DashMap::new()
}

/// `DashMap::get`, the value copied out from behind its guard: the account
/// kept under `client_id`, or `None` where the map has no such key.
#[verifier::external_body]
fn stored_account(map: &AccountMap, client_id: u16) -> (account: Option<ClientAccount<FixedPoint>>)
    ensures
        match account {
            Some(a) => account_entries(map).contains_key(client_id) && a@ == account_entries(
                map,
            )[client_id],
            None => !account_entries(map).contains_key(client_id),
        },
{
    map.get(&client_id).map(|slot| slot.value().clone())
}

/// `DashMap::insert`: afterwards the map holds `account` under `client_id`,
/// in place of what it held there, and everything else as before.
#[verifier::external_body]
fn store_account(map: &mut AccountMap, client_id: u16, account: ClientAccount<FixedPoint>)
    ensures
        account_entries(final(map)) == account_entries(old(map)).insert(client_id, account@),
{
    map.insert(client_id, account);
}

/// `DashMap::iter`, each entry copied out as key and value: every entry of
/// the map once, in an order that nothing is claimed of.
#[verifier::external_body]
fn stored_accounts(map: &AccountMap) -> (listing: Vec<(u16, ClientAccount<FixedPoint>)>)
    ensures
        lists(listed(listing@), account_entries(map)),
{
    map.iter().map(|slot| (*slot.key(), slot.value().clone())).collect()
}

/// An account store for use by one owner at a time: every change goes through
/// `try_update`, which takes the store by exclusive reference.
#[verifier::reject_recursive_types(A)]
pub struct ConcurrentAccountManager<A: AmountType> {
    accounts: DashMap<u16, ClientAccount<A>>,
}

impl ConcurrentAccountManager<FixedPoint> {
    /// An empty store.
    pub fn new() -> (manager: Self)
        ensures
            manager.accounts() == Map::<u16, AccountView>::empty(),
    {
        ConcurrentAccountManager { accounts: new_account_map() }
    }
}

impl Default for ConcurrentAccountManager<FixedPoint> {
    fn default() -> (manager: Self)
        ensures
            manager.accounts() == Map::<u16, AccountView>::empty(),
    {
        ConcurrentAccountManager::new()
    }
}

/// A handle on the account of one client in a `ConcurrentAccountManager`.
#[verifier::reject_recursive_types(A)]
pub struct ConcurrentEntry<'a, A: AmountType> {
    client_id: u16,
    accounts: &'a DashMap<u16, ClientAccount<A>>,
}

impl<'a> ClientAccountEntry<'a, FixedPoint> for ConcurrentEntry<'a, FixedPoint> {
    closed spec fn account(&self) -> AccountView {
        account_of(account_entries(self.accounts), self.client_id)
    }

    fn read(&self) -> (account: ClientAccount<FixedPoint>) {
        match stored_account(self.accounts, self.client_id) {
            Some(account) => account,
            None => ClientAccount::new(self.client_id),
        }
    }
}

impl ClientAccountManager<FixedPoint> for ConcurrentAccountManager<FixedPoint> {
    type Entry<'a> = ConcurrentEntry<'a, FixedPoint>;

    closed spec fn accounts(&self) -> Map<u16, AccountView> {
        account_entries(&self.accounts)
    }

    fn entry(&self, client_id: u16) -> (entry: Result<Self::Entry<'_>, StorageError>) {
        Ok(ConcurrentEntry { client_id, accounts: &self.accounts })
    }

    fn try_update(&mut self, client_id: u16, operation: AccountOperation<FixedPoint>) -> (result:
        Result<(), StorageError>) {
        let mut account = match stored_account(&self.accounts, client_id) {
            Some(account) => account,
            None => ClientAccount::new(client_id),
        };
        match operation.apply(&mut account) {
            Ok(()) => {
                store_account(&mut self.accounts, client_id, account);
                Ok(())
            },
            Err(e) => Err(StorageError::DomainError(e)),
        }
    }

    fn snapshot(&self, out: &mut String) -> (result: Result<(), StorageError>) {
        let listing = stored_accounts(&self.accounts);
        let ghost views = listed(listing@);
        match account_rows(&listing) {
            Ok(rows) => {
                out.append("client,available,held,total,locked\n");
                out.append(rows.as_str());
                assert(snapshot_of(views, old(out)@, out@));
                Ok(())
            },
            Err(i) => {
                assert(views[i as int].1 == listing[i as int].1@);
                assert(self.accounts().contains_key(views[i as int].0));
                Err(StorageError::DomainError(DomainError::Overflow))
            },
        }
    }
}

} // verus!
