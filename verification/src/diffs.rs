//! The storage changes of one block, grouped by account.

use crate::hash::{Address, H256};
use crate::record::StorageRecord;
use crate::watch::{is_watched, slot_records, watched_records};
use vstd::prelude::*;

verus! {

/// The changed slots of one account: each key with its new value.
pub type Slots = Seq<(H256, H256)>;

/// The changed accounts of one block, each with its changed slots.
pub type Entries = Seq<(Address, Slots)>;

/// Whether no key occurs twice among `slots`.
pub open spec fn distinct_keys(slots: Slots) -> bool {
    forall|i: int, j: int|
        0 <= i < slots.len() && 0 <= j < slots.len() && i != j ==> slots[i].0 != slots[j].0
}

/// Whether no account occurs twice among `entries`.
pub open spec fn distinct_accounts(entries: Entries) -> bool {
    forall|i: int, j: int|
        0 <= i < entries.len() && 0 <= j < entries.len() && i != j ==> entries[i].0 != entries[j].0
}

/// Whether `entries` is a mapping: no account twice, and under each account no
/// key twice.
pub open spec fn is_mapping(entries: Entries) -> bool {
    &&& distinct_accounts(entries)
    &&& forall|i: int| 0 <= i < entries.len() ==> distinct_keys(#[trigger] entries[i].1)
}

/// Whether `key` is among the keys of `slots`.
pub open spec fn has_key(slots: Slots, key: H256) -> bool {
    exists|i: int| 0 <= i < slots.len() && #[trigger] slots[i].0 == key
}

/// Whether `address` is among the accounts of `entries`.
pub open spec fn has_account(entries: Entries, address: Address) -> bool {
    exists|i: int| 0 <= i < entries.len() && #[trigger] entries[i].0 == address
}

/// The value that `key` has among `slots`, if it is among their keys.
pub open spec fn value_in(slots: Slots, key: H256) -> Option<H256> {
    if has_key(slots, key) {
        let i = choose|i: int| 0 <= i < slots.len() && #[trigger] slots[i].0 == key;
        Some(slots[i].1)
    } else {
        None
    }
}

/// The changed slots of `address` in `entries`: none if the account is not
/// among them.
pub open spec fn slots_of(entries: Entries, address: Address) -> Slots {
    if has_account(entries, address) {
        let i = choose|i: int| 0 <= i < entries.len() && #[trigger] entries[i].0 == address;
        entries[i].1
    } else {
        Seq::empty()
    }
}

/// The value that `entries` maps `key` to under `address`, if any.
pub open spec fn value_at(entries: Entries, address: Address, key: H256) -> Option<H256> {
    value_in(slots_of(entries, address), key)
}

/// `slots` after `key` was set to `value`: the key keeps its place where it
/// was present, and comes last where it was not.
pub open spec fn put_slot(slots: Slots, key: H256, value: H256) -> Slots {
    if has_key(slots, key) {
        let i = choose|i: int| 0 <= i < slots.len() && #[trigger] slots[i].0 == key;
        slots.update(i, (key, value))
    } else {
        slots.push((key, value))
    }
}

/// `entries` after `key` was set to `value` under `address`: the account keeps
/// its place where it was present, and comes last where it was not.
pub open spec fn put_entry(entries: Entries, address: Address, key: H256, value: H256) -> Entries {
    if has_account(entries, address) {
        let i = choose|i: int| 0 <= i < entries.len() && #[trigger] entries[i].0 == address;
        entries.update(i, (address, put_slot(entries[i].1, key, value)))
    } else {
        entries.push((address, seq![(key, value)]))
    }
}

/// The entries that a list of accounts with their slot lists stands for.
pub open spec fn entries_of(accounts: Seq<(Address, Vec<(H256, H256)>)>) -> Entries {
    Seq::new(accounts.len(), |i: int| (accounts[i].0, accounts[i].1@))
}

/// The storage changes of one block: a mapping from account to a mapping from
/// storage key to new value, which keeps the order in which accounts and keys
/// were first inserted.
#[derive(Debug)]
pub struct StorageDiffs {
    accounts: Vec<(Address, Vec<(H256, H256)>)>,
}

impl View for StorageDiffs {
    type V = Entries;

    closed spec fn view(&self) -> Entries {
        entries_of(self.accounts@)
    }
}

/// The place of `key` among `slots`, if it is there.
fn find_key(slots: &Vec<(H256, H256)>, key: &H256) -> (place: Option<usize>)
    ensures
        match place {
            Some(i) => i < slots@.len() && slots@[i as int].0 == *key,
            None => !has_key(slots@, *key),
        },
{
    let mut i: usize = 0;
    while i < slots.len()
        invariant
            i <= slots.len(),
            forall|j: int| 0 <= j < i ==> slots@[j].0 != *key,
        decreases slots.len() - i,
    {
        if slots[i].0 == *key {
            return Some(i);
        }
        i += 1;
    }
    None
}

/// The place of `address` among `accounts`, if it is there.
fn find_account(accounts: &Vec<(Address, Vec<(H256, H256)>)>, address: &Address) -> (place:
    Option<usize>)
    ensures
        match place {
            Some(i) => i < accounts@.len() && accounts@[i as int].0 == *address,
            None => !has_account(entries_of(accounts@), *address),
        },
{
    let mut i: usize = 0;
    while i < accounts.len()
        invariant
            i <= accounts.len(),
            forall|j: int| 0 <= j < i ==> accounts@[j].0 != *address,
        decreases accounts.len() - i,
    {
        if accounts[i].0 == *address {
            return Some(i);
        }
        i += 1;
    }
    assert forall|j: int| 0 <= j < entries_of(accounts@).len() implies entries_of(
        accounts@,
    )[j].0 != *address by {
        assert(accounts@[j].0 != *address);
    }
    None
}

impl StorageDiffs {
    #[verifier::type_invariant]
    spec fn inv(&self) -> bool {
        is_mapping(self@)
    }

    /// A block without changes.
    pub fn new() -> (diffs: StorageDiffs)
        ensures
            diffs@ == Entries::empty(),
            is_mapping(diffs@),
    {
        let diffs = StorageDiffs { accounts: Vec::new() };
        assert(diffs@ =~= Entries::empty());
        diffs
    }

    /// Sets `key` to `value` under `address`, in place of the value that the
    /// key had there, if any.
    pub fn insert(&mut self, address: Address, key: H256, value: H256)
        ensures
            final(self)@ == put_entry(old(self)@, address, key, value),
            is_mapping(final(self)@),
    {
        proof {
            use_type_invariant(&*self);
        }
        let ghost before = self@;
        let mut accounts: Vec<(Address, Vec<(H256, H256)>)> = Vec::new();
        core::mem::swap(&mut self.accounts, &mut accounts);
        assert(entries_of(accounts@) =~= before);
        match find_account(&accounts, &address) {
            Some(i) => {
                let ghost slots_before = accounts@[i as int].1@;
                assert(before[i as int].0 == address);
                let ghost chosen = choose|c: int|
                    0 <= c < before.len() && #[trigger] before[c].0 == address;
                assert(chosen == i);
                match find_key(&accounts[i].1, &key) {
                    Some(j) => {
                        assert(slots_before[j as int].0 == key);
                        let ghost picked = choose|c: int|
                            0 <= c < slots_before.len() && #[trigger] slots_before[c].0 == key;
                        assert(distinct_keys(before[i as int].1));
                        assert(picked == j);
                        accounts[i].1[j] = (key, value);
                    },
                    None => {
                        accounts[i].1.push((key, value));
                    },
                }
                assert(accounts@[i as int].1@ == put_slot(slots_before, key, value));
                assert(entries_of(accounts@) =~= put_entry(before, address, key, value));
            },
            None => {
                let mut slots: Vec<(H256, H256)> = Vec::new();
                slots.push((key, value));
                assert(slots@ =~= seq![(key, value)]);
                accounts.push((address, slots));
                assert(entries_of(accounts@) =~= put_entry(before, address, key, value));
            },
        }
        proof {
            lemma_put_entry_keeps_mapping(before, address, key, value);
        }
        self.accounts = accounts;
    }

    /// The value that `key` was set to under `address`, if it was set.
    pub fn get(&self, address: &Address, key: &H256) -> (value: Option<H256>)
        ensures
            is_mapping(self@),
            value == value_at(self@, *address, *key),
    {
        proof {
            use_type_invariant(self);
        }
        match find_account(&self.accounts, address) {
            Some(i) => {
                assert(self@[i as int].0 == *address);
                let ghost chosen = choose|c: int|
                    0 <= c < self@.len() && #[trigger] self@[c].0 == *address;
                assert(chosen == i);
                let slots = &self.accounts[i].1;
                assert(slots@ == slots_of(self@, *address));
                match find_key(slots, key) {
                    Some(j) => {
                        assert(slots@[j as int].0 == *key);
                        let ghost picked = choose|c: int|
                            0 <= c < slots@.len() && #[trigger] slots@[c].0 == *key;
                        assert(distinct_keys(self@[i as int].1));
                        assert(picked == j);
                        Some(slots[j].1)
                    },
                    None => None,
                }
            },
            None => {
                assert(!has_key(Slots::empty(), *key));
                None
            },
        }
    }

    /// The records to persist for this block under a watch list.
    pub fn watched_records(
        &self,
        watched: &Vec<Address>,
        block_hash: H256,
        block_number: u64,
    ) -> (records: Vec<StorageRecord>)
        ensures
            is_mapping(self@),
            records@ == watched_records(watched@, block_hash, block_number, self@),
    {
        proof {
            use_type_invariant(self);
        }
        let mut records: Vec<StorageRecord> = Vec::new();
        let mut i: usize = 0;
        while i < self.accounts.len()
            invariant
                i <= self.accounts.len(),
                self@.len() == self.accounts.len(),
                records@ == watched_records(
                    watched@,
                    block_hash,
                    block_number,
                    self@.take(i as int),
                ),
            decreases self.accounts.len() - i,
        {
            let ghost before = records@;
            let address = self.accounts[i].0;
            assert(self@.take(i + 1).drop_last() =~= self@.take(i as int));
            assert(self@.take(i + 1).last() == (address, self.accounts@[i as int].1@));
            if is_watched(watched, &address) {
                let slots = &self.accounts[i].1;
                let mut j: usize = 0;
                while j < slots.len()
                    invariant
                        j <= slots.len(),
                        records@ == before + slot_records(
                            address,
                            block_hash,
                            block_number,
                            slots@.take(j as int),
                        ),
                    decreases slots.len() - j,
                {
                    records.push(
                        StorageRecord {
                            contract: address,
                            block_hash,
                            block_number,
                            key: slots[j].0,
                            value: slots[j].1,
                        },
                    );
                    j += 1;
                }
                assert(slots@.take(slots.len() as int) =~= slots@);
            }
            i += 1;
        }
        assert(self@.take(self.accounts.len() as int) =~= self@);
        records
    }
}

/// Setting a key keeps a mapping a mapping.
pub proof fn lemma_put_entry_keeps_mapping(
    entries: Entries,
    address: Address,
    key: H256,
    value: H256,
)
    requires
        is_mapping(entries),
    ensures
        is_mapping(put_entry(entries, address, key, value)),
{
    let after = put_entry(entries, address, key, value);
    if has_account(entries, address) {
        let i = choose|i: int| 0 <= i < entries.len() && #[trigger] entries[i].0 == address;
        assert(distinct_keys(entries[i].1));
        lemma_put_slot_sets(entries[i].1, key, value, key);
        assert forall|k: int| 0 <= k < after.len() implies distinct_keys(
            #[trigger] after[k].1,
        ) by {
            if k != i {
                assert(after[k] == entries[k]);
            }
        }
        assert(distinct_accounts(after));
    } else {
        assert(distinct_keys(seq![(key, value)]));
        assert forall|k: int| 0 <= k < after.len() implies distinct_keys(
            #[trigger] after[k].1,
        ) by {
            if k < entries.len() {
                assert(after[k] == entries[k]);
            }
        }
        assert(distinct_accounts(after));
    }
}

/// Setting a key under an account changes the value of that key under that
/// account, and of no other.
pub proof fn lemma_put_entry_sets(
    entries: Entries,
    address: Address,
    key: H256,
    value: H256,
    other_address: Address,
    other_key: H256,
)
    requires
        is_mapping(entries),
    ensures
        value_at(put_entry(entries, address, key, value), address, key) == Some(value),
        other_address != address || other_key != key ==> value_at(
            put_entry(entries, address, key, value),
            other_address,
            other_key,
        ) == value_at(entries, other_address, other_key),
{
    let after = put_entry(entries, address, key, value);
    lemma_put_entry_keeps_mapping(entries, address, key, value);
    let slots = slots_of(entries, address);
    let put = put_slot(slots, key, value);
    // The account's slots after the change.
    assert(has_account(after, address) && slots_of(after, address) == put) by {
        if has_account(entries, address) {
            let i = choose|i: int| 0 <= i < entries.len() && #[trigger] entries[i].0 == address;
            assert(after[i].0 == address);
            let c = choose|c: int| 0 <= c < after.len() && #[trigger] after[c].0 == address;
            assert(c == i);
        } else {
            let i = entries.len() as int;
            assert(after[i].0 == address);
            let c = choose|c: int| 0 <= c < after.len() && #[trigger] after[c].0 == address;
            assert(c == i);
            assert(!has_key(Slots::empty(), key));
            assert(Slots::empty().push((key, value)) =~= seq![(key, value)]);
        }
    }
    assert(distinct_keys(slots)) by {
        if has_account(entries, address) {
            let i = choose|i: int| 0 <= i < entries.len() && #[trigger] entries[i].0 == address;
            assert(distinct_keys(entries[i].1));
        }
    }
    lemma_put_slot_sets(slots, key, value, other_key);
    if other_address != address {
        if has_account(entries, other_address) {
            let i = choose|i: int|
                0 <= i < entries.len() && #[trigger] entries[i].0 == other_address;
            assert(after[i] == entries[i]);
            let c = choose|c: int| 0 <= c < after.len() && #[trigger] after[c].0 == other_address;
            assert(c == i);
        } else {
            assert forall|c: int| 0 <= c < after.len() implies #[trigger] after[c].0
                != other_address by {
                if c < entries.len() {
                    assert(after[c].0 == entries[c].0);
                }
            }
        }
    }
}

/// Setting a key among slots changes the value of that key, and of no other.
pub proof fn lemma_put_slot_sets(slots: Slots, key: H256, value: H256, other_key: H256)
    requires
        distinct_keys(slots),
    ensures
        distinct_keys(put_slot(slots, key, value)),
        value_in(put_slot(slots, key, value), key) == Some(value),
        other_key != key ==> value_in(put_slot(slots, key, value), other_key) == value_in(
            slots,
            other_key,
        ),
{
    let put = put_slot(slots, key, value);
    let place = if has_key(slots, key) {
        choose|i: int| 0 <= i < slots.len() && #[trigger] slots[i].0 == key
    } else {
        slots.len() as int
    };
    assert(put[place] == (key, value));
    assert(put.len() >= slots.len());
    assert forall|i: int| 0 <= i < put.len() && i != place implies #[trigger] put[i].0 != key
        && i < slots.len() && put[i] == slots[i] by {}
    assert(distinct_keys(put));
    assert(put[place].0 == key);
    let c = choose|c: int| 0 <= c < put.len() && #[trigger] put[c].0 == key;
    assert(c == place);
    if other_key != key {
        if has_key(slots, other_key) {
            let i = choose|i: int| 0 <= i < slots.len() && #[trigger] slots[i].0 == other_key;
            assert(put[i] == slots[i]);
            let d = choose|d: int| 0 <= d < put.len() && #[trigger] put[d].0 == other_key;
            assert(d == i);
        } else {
            assert forall|d: int| 0 <= d < put.len() implies #[trigger] put[d].0 != other_key by {
                if d != place {
                    assert(put[d] == slots[d]);
                }
            }
        }
    }
}

} // verus!
