//! The snapshot of all accounts as CSV text.

use vstd::prelude::*;
use super::error::IoError;
use crate::domain::account::AccountView;
use crate::domain::amount::AmountType;
use crate::domain::error::DomainError;
use crate::storage::error::StorageError;
use crate::storage::traits::ClientAccountManager;
use crate::storage::traits::lists;
use crate::storage::traits::snapshot_of;

verus! {

/// Appends to `out` the snapshot of the accounts of `account_manager`: the
/// header line and one line per account, in no particular order. Where the
/// total funds of an account are more than `A` can hold, nothing is appended
/// and the error wraps `Overflow`.
pub fn write_snapshot<A, M>(account_manager: &M, out: &mut String) -> (result: Result<
    (),
    IoError,
>) where A: AmountType, M: ClientAccountManager<A>
    ensures
        match result {
            Ok(()) => exists|listing: Seq<(u16, AccountView)>|
                lists(listing, account_manager.accounts()) && #[trigger] snapshot_of(
                    listing,
                    old(out)@,
                    final(out)@,
                ),
            Err(e) => {
                &&& final(out)@ == old(out)@
                &&& e matches IoError::Storage(StorageError::DomainError(DomainError::Overflow))
                &&& exists|c: u16| #[trigger]
                    account_manager.accounts().contains_key(c) && !A::representable(
                        account_manager.accounts()[c].total(),
                    )
            },
        },
{
    match account_manager.snapshot(out) {
        Ok(()) => Ok(()),
        Err(e) => Err(IoError::Storage(e)),
    }
}

} // verus!
