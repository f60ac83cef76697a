//! The watch list, and the records that a block gives rise to under it.

use crate::diffs::{distinct_accounts, has_account, Entries, Slots};
use crate::hash::{Address, H256};
use crate::record::StorageRecord;
use vstd::prelude::*;

verus! {

/// The record of one changed slot.
pub open spec fn record_of(
    contract: Address,
    block_hash: H256,
    block_number: u64,
    slot: (H256, H256),
) -> StorageRecord {
    StorageRecord { contract, block_hash, block_number, key: slot.0, value: slot.1 }
}

/// The records of one account's changes in one block, in the order of `slots`.
pub open spec fn slot_records(
    contract: Address,
    block_hash: H256,
    block_number: u64,
    slots: Slots,
) -> Seq<StorageRecord> {
    Seq::new(slots.len(), |j: int| record_of(contract, block_hash, block_number, slots[j]))
}

/// The records that a block's changes give rise to under a watch list: the
/// records of each watched account, accounts and slots in the order of
/// `entries`; nothing for an account that is not watched.
pub open spec fn watched_records(
    watched: Seq<Address>,
    block_hash: H256,
    block_number: u64,
    entries: Entries,
) -> Seq<StorageRecord>
    decreases entries.len(),
{
    if entries.len() == 0 {
        Seq::empty()
    } else {
        let last = entries.last();
        let before = watched_records(watched, block_hash, block_number, entries.drop_last());
        if watched.contains(last.0) {
            before + slot_records(last.0, block_hash, block_number, last.1)
        } else {
            before
        }
    }
}

/// The test for a record of `contract`.
pub open spec fn of_contract(contract: Address) -> spec_fn(StorageRecord) -> bool {
    |record: StorageRecord| record.contract == contract
}

/// The records of `contract` among `records`, in their order.
pub open spec fn records_of(records: Seq<StorageRecord>, contract: Address) -> Seq<StorageRecord> {
    records.filter(of_contract(contract))
}

/// Every record under a watch list is the record of a changed slot of a
/// watched account, and carries the block's hash and number.
pub proof fn lemma_records_come_from_watched_changes(
    watched: Seq<Address>,
    block_hash: H256,
    block_number: u64,
    entries: Entries,
)
    ensures
        forall|k: int|
            #![trigger watched_records(watched, block_hash, block_number, entries)[k]]
            0 <= k < watched_records(watched, block_hash, block_number, entries).len() ==> {
                let record = watched_records(watched, block_hash, block_number, entries)[k];
                &&& watched.contains(record.contract)
                &&& record.block_hash == block_hash
                &&& record.block_number == block_number
                &&& exists|i: int, j: int|
                    0 <= i < entries.len() && 0 <= j < entries[i].1.len() && record == record_of(
                        entries[i].0,
                        block_hash,
                        block_number,
                        #[trigger] entries[i].1[j],
                    )
            },
    decreases entries.len(),
{
    let records = watched_records(watched, block_hash, block_number, entries);
    if entries.len() > 0 {
        let init = entries.drop_last();
        let last = entries.last();
        let before = watched_records(watched, block_hash, block_number, init);
        lemma_records_come_from_watched_changes(watched, block_hash, block_number, init);
        assert forall|k: int| 0 <= k < records.len() implies {
            let record = #[trigger] records[k];
            &&& watched.contains(record.contract)
            &&& record.block_hash == block_hash
            &&& record.block_number == block_number
            &&& exists|i: int, j: int|
                0 <= i < entries.len() && 0 <= j < entries[i].1.len() && record == record_of(
                    entries[i].0,
                    block_hash,
                    block_number,
                    #[trigger] entries[i].1[j],
                )
        } by {
            let record = records[k];
            if k < before.len() {
                assert(record == before[k]);
                let (i, j) = choose|i: int, j: int|
                    0 <= i < init.len() && 0 <= j < init[i].1.len() && record == record_of(
                        init[i].0,
                        block_hash,
                        block_number,
                        #[trigger] init[i].1[j],
                    );
                assert(entries[i] == init[i]);
                assert(record == record_of(entries[i].0, block_hash, block_number, entries[i].1[j]));
            } else {
                let i = entries.len() - 1;
                let j = k - before.len();
                assert(record == slot_records(last.0, block_hash, block_number, last.1)[j]);
                assert(record == record_of(entries[i].0, block_hash, block_number, entries[i].1[j]));
            }
        }
    }
}

/// Every changed slot of a watched account has its record.
pub proof fn lemma_watched_change_has_record(
    watched: Seq<Address>,
    block_hash: H256,
    block_number: u64,
    entries: Entries,
    i: int,
    j: int,
)
    requires
        0 <= i < entries.len(),
        0 <= j < entries[i].1.len(),
        watched.contains(entries[i].0),
    ensures
        watched_records(watched, block_hash, block_number, entries).contains(
            record_of(entries[i].0, block_hash, block_number, entries[i].1[j]),
        ),
    decreases entries.len(),
{
    let records = watched_records(watched, block_hash, block_number, entries);
    let init = entries.drop_last();
    let last = entries.last();
    let before = watched_records(watched, block_hash, block_number, init);
    let wanted = record_of(entries[i].0, block_hash, block_number, entries[i].1[j]);
    if i == entries.len() - 1 {
        assert(records[before.len() + j] == wanted);
    } else {
        assert(init[i] == entries[i]);
        lemma_watched_change_has_record(watched, block_hash, block_number, init, i, j);
        let k = choose|k: int| 0 <= k < before.len() && before[k] == wanted;
        assert(records[k] == wanted);
    }
}

/// Filtering keeps a sequence whole where every item passes, and empties it
/// where none does.
proof fn lemma_filter_all_or_none(records: Seq<StorageRecord>, contract: Address)
    ensures
        (forall|k: int| 0 <= k < records.len() ==> (#[trigger] records[k]).contract == contract)
            ==> records_of(records, contract) == records,
        (forall|k: int| 0 <= k < records.len() ==> (#[trigger] records[k]).contract != contract)
            ==> records_of(records, contract) == Seq::<StorageRecord>::empty(),
    decreases records.len(),
{
    reveal(Seq::filter);
    if records.len() > 0 {
        lemma_filter_all_or_none(records.drop_last(), contract);
        if forall|k: int| 0 <= k < records.len() ==> (#[trigger] records[k]).contract == contract {
            assert(records.drop_last().push(records.last()) =~= records);
        }
    } else {
        assert(records =~= Seq::<StorageRecord>::empty());
    }
}

/// Where no account occurs twice, the records of an account are those of its
/// own changed slots, one for each slot and in their order, if the account is
/// watched; and there is none if it is not watched.
pub proof fn lemma_records_of_account(
    watched: Seq<Address>,
    block_hash: H256,
    block_number: u64,
    entries: Entries,
    i: int,
)
    requires
        distinct_accounts(entries),
        0 <= i < entries.len(),
    ensures
        records_of(watched_records(watched, block_hash, block_number, entries), entries[i].0) == (
        if watched.contains(entries[i].0) {
            slot_records(entries[i].0, block_hash, block_number, entries[i].1)
        } else {
            Seq::<StorageRecord>::empty()
        }),
    decreases entries.len(),
{
    let contract = entries[i].0;
    let init = entries.drop_last();
    let last = entries.last();
    let before = watched_records(watched, block_hash, block_number, init);
    let added = if watched.contains(last.0) {
        slot_records(last.0, block_hash, block_number, last.1)
    } else {
        Seq::<StorageRecord>::empty()
    };
    assert(watched_records(watched, block_hash, block_number, entries) =~= before + added);
    Seq::filter_distributes_over_add(before, added, of_contract(contract));
    lemma_filter_all_or_none(added, contract);
    if i == entries.len() - 1 {
        lemma_records_come_from_watched_changes(watched, block_hash, block_number, init);
        assert forall|k: int| 0 <= k < before.len() implies (#[trigger] before[k]).contract
            != contract by {
            let (a, b) = choose|a: int, b: int|
                0 <= a < init.len() && 0 <= b < init[a].1.len() && before[k] == record_of(
                    init[a].0,
                    block_hash,
                    block_number,
                    #[trigger] init[a].1[b],
                );
            assert(init[a] == entries[a]);
        }
        lemma_filter_all_or_none(before, contract);
        assert(Seq::<StorageRecord>::empty() + added =~= added);
    } else {
        assert(init[i] == entries[i]);
        assert(distinct_accounts(init)) by {
            assert forall|a: int, b: int|
                0 <= a < init.len() && 0 <= b < init.len() && a != b implies init[a].0
                != init[b].0 by {
                assert(init[a] == entries[a]);
                assert(init[b] == entries[b]);
            }
        }
        lemma_records_of_account(watched, block_hash, block_number, init, i);
        assert(last.0 != contract);
        assert(records_of(before, contract) + Seq::<StorageRecord>::empty() =~= records_of(
            before,
            contract,
        ));
    }
}

/// An account that is not watched, or that has no changes in the block, has
/// no record.
pub proof fn lemma_no_record_of_other_account(
    watched: Seq<Address>,
    block_hash: H256,
    block_number: u64,
    entries: Entries,
    contract: Address,
)
    requires
        !watched.contains(contract) || !has_account(entries, contract),
    ensures
        records_of(watched_records(watched, block_hash, block_number, entries), contract)
            == Seq::<StorageRecord>::empty(),
        forall|k: int|
            0 <= k < watched_records(watched, block_hash, block_number, entries).len() ==> (
            #[trigger] watched_records(watched, block_hash, block_number, entries)[k]).contract
                != contract,
{
    let records = watched_records(watched, block_hash, block_number, entries);
    lemma_records_come_from_watched_changes(watched, block_hash, block_number, entries);
    assert forall|k: int| 0 <= k < records.len() implies (#[trigger] records[k]).contract
        != contract by {
        let (a, b) = choose|a: int, b: int|
            0 <= a < entries.len() && 0 <= b < entries[a].1.len() && records[k] == record_of(
                entries[a].0,
                block_hash,
                block_number,
                #[trigger] entries[a].1[b],
            );
        assert(entries[a].0 == records[k].contract);
    }
    lemma_filter_all_or_none(records, contract);
}

/// Whether two lists hold the same addresses in the same order.
pub fn same_addresses(a: &Vec<Address>, b: &Vec<Address>) -> (same: bool)
    ensures
        same == (a@ == b@),
{
    if a.len() != b.len() {
        return false;
    }
    let mut i: usize = 0;
    while i < a.len()
        invariant
            i <= a.len(),
            a.len() == b.len(),
            forall|j: int| 0 <= j < i ==> a@[j] == b@[j],
        decreases a.len() - i,
    {
        if a[i] != b[i] {
            return false;
        }
        i += 1;
    }
    assert(a@ =~= b@);
    true
}

/// Whether `address` is on the watch list.
pub fn is_watched(watched: &Vec<Address>, address: &Address) -> (found: bool)
    ensures
        found == watched@.contains(*address),
{
    let mut i: usize = 0;
    while i < watched.len()
        invariant
            i <= watched.len(),
            forall|j: int| 0 <= j < i ==> watched@[j] != *address,
        decreases watched.len() - i,
    {
        if watched[i] == *address {
            return true;
        }
        i += 1;
    }
    false
}

/// A list with the same addresses in the same order.
pub fn copy_addresses(list: &Vec<Address>) -> (copy: Vec<Address>)
    ensures
        copy@ == list@,
{
    let mut copy: Vec<Address> = Vec::new();
    let mut i: usize = 0;
    while i < list.len()
        invariant
            i <= list.len(),
            copy@ == list@.take(i as int),
        decreases list.len() - i,
    {
        copy.push(list[i]);
        i += 1;
    }
    assert(list@.take(i as int) =~= list@);
    copy
}

} // verus!
