//! The transaction log, kept in a sharded hash map.

use vstd::prelude::*;
use dashmap::DashMap;
use super::traits::TransactionStoreManager;
use crate::domain::amount::AmountType;
use crate::domain::amount::FixedPoint;
use crate::domain::transaction::RecordView;
use crate::domain::transaction::TransactionRecord;

verus! {

/// The map that holds the transaction records.
pub type RecordMap = DashMap<u32, TransactionRecord<FixedPoint>>;

/// The records that a map holds, by transaction id.
pub uninterp spec fn record_entries(map: &RecordMap) -> Map<u32, RecordView>;

/// `DashMap::new`: a map that holds nothing.
#[verifier::external_body]
fn new_record_map() -> (map: RecordMap)
    ensures
        record_entries(&map) == (Map::<u32, RecordView>::empty()),
{
    DashMap::new()
}

/// `DashMap::insert`: afterwards the map holds `record` under `tx_id`, in
/// place of what it held there, and everything else as before.
#[verifier::external_body]
fn store_record(map: &mut RecordMap, tx_id: u32, record: TransactionRecord<FixedPoint>)
    ensures
        record_entries(final(map)) == record_entries(old(map)).insert(tx_id, record@),
{
    map.insert(tx_id, record);
}

/// `DashMap::get`, the value copied out from behind its guard: the record
/// kept under `tx_id`, or `None` where the map has no such key.
#[verifier::external_body]
fn stored_record(map: &RecordMap, tx_id: u32) -> (record: Option<TransactionRecord<FixedPoint>>)
    ensures
        match record {
            Some(r) => record_entries(map).contains_key(tx_id) && r@ == record_entries(map)[tx_id],
            None => !record_entries(map).contains_key(tx_id),
        },
{
    map.get(&tx_id).map(|slot| TransactionRecord::new(slot.client_id, slot.amount))
}

/// `DashMap::contains_key`: whether the map has the key `tx_id`.
#[verifier::external_body]
fn has_record(map: &RecordMap, tx_id: u32) -> (found: bool)
    ensures
        found == record_entries(map).contains_key(tx_id),
{
    map.contains_key(&tx_id)
}

/// A transaction log for use by one owner at a time.
#[verifier::reject_recursive_types(A)]
pub struct ConcurrentTransactionStore<A: AmountType> {
    records: DashMap<u32, TransactionRecord<A>>,
}

impl ConcurrentTransactionStore<FixedPoint> {
    /// An empty log.
    pub fn new() -> (store: Self)
        ensures
            store.records() == Map::<u32, RecordView>::empty(),
    {
        ConcurrentTransactionStore { records: new_record_map() }
    }
}

impl Default for ConcurrentTransactionStore<FixedPoint> {
    fn default() -> (store: Self)
        ensures
            store.records() == Map::<u32, RecordView>::empty(),
    {
        ConcurrentTransactionStore::new()
    }
}

impl TransactionStoreManager<FixedPoint> for ConcurrentTransactionStore<FixedPoint> {
    closed spec fn records(&self) -> Map<u32, RecordView> {
        record_entries(&self.records)
    }

    fn insert(&mut self, tx_id: u32, record: TransactionRecord<FixedPoint>) {
        store_record(&mut self.records, tx_id, record);
    }

    fn get(&self, tx_id: u32) -> (record: Option<TransactionRecord<FixedPoint>>) {
        stored_record(&self.records, tx_id)
    }

    fn contains(&self, tx_id: u32) -> (found: bool) {
        has_record(&self.records, tx_id)
    }
}

} // verus!
