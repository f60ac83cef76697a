use storage_writer::diffs::StorageDiffs;
use storage_writer::watch::{copy_addresses, is_watched, same_addresses};
use storage_writer::hash::{Address, H256};
use storage_writer::record::StorageRecord;

fn address(byte: u8) -> Address {
    Address([byte; 20])
}

fn word(byte: u8) -> H256 {
    H256([byte; 32])
}

fn record(contract: u8, hash: u8, number: u64, key: u8, value: u8) -> StorageRecord {
    StorageRecord {
        contract: address(contract),
        block_hash: word(hash),
        block_number: number,
        key: word(key),
        value: word(value),
    }
}

#[test]
fn empty_block_has_no_change_and_no_record() {
    let diffs = StorageDiffs::new();
    assert_eq!(diffs.get(&address(1), &word(1)), None);
    assert_eq!(diffs.watched_records(&vec![address(1)], word(9), 1), vec![]);
}

#[test]
fn insert_sets_and_replaces() {
    let mut diffs = StorageDiffs::new();
    diffs.insert(address(1), word(10), word(11));
    diffs.insert(address(1), word(20), word(21));
    diffs.insert(address(2), word(10), word(31));
    assert_eq!(diffs.get(&address(1), &word(10)), Some(word(11)));
    assert_eq!(diffs.get(&address(1), &word(20)), Some(word(21)));
    assert_eq!(diffs.get(&address(2), &word(10)), Some(word(31)));
    assert_eq!(diffs.get(&address(2), &word(20)), None);
    assert_eq!(diffs.get(&address(3), &word(10)), None);

    diffs.insert(address(1), word(10), word(12));
    assert_eq!(diffs.get(&address(1), &word(10)), Some(word(12)));
    assert_eq!(diffs.get(&address(1), &word(20)), Some(word(21)));
    assert_eq!(diffs.get(&address(2), &word(10)), Some(word(31)));
}

#[test]
fn a_key_that_is_set_again_keeps_its_place_and_has_one_record() {
    let mut diffs = StorageDiffs::new();
    diffs.insert(address(1), word(10), word(11));
    diffs.insert(address(2), word(10), word(31));
    diffs.insert(address(1), word(20), word(21));
    diffs.insert(address(1), word(10), word(12));
    let records = diffs.watched_records(&vec![address(1), address(2)], word(9), 7);
    assert_eq!(
        records,
        vec![record(1, 9, 7, 10, 12), record(1, 9, 7, 20, 21), record(2, 9, 7, 10, 31)]
    );
}

#[test]
fn only_watched_accounts_have_records() {
    let mut diffs = StorageDiffs::new();
    diffs.insert(address(0xa), word(1), word(2));
    diffs.insert(address(0xb), word(3), word(4));
    let records = diffs.watched_records(&vec![address(0xa)], word(0xcc), 100);
    assert_eq!(records, vec![record(0xa, 0xcc, 100, 1, 2)]);
    assert!(records.iter().all(|r| r.contract != address(0xb)));

    let none = diffs.watched_records(&vec![], word(0xcc), 100);
    assert_eq!(none, vec![]);
    let other = diffs.watched_records(&vec![address(0xc)], word(0xcc), 100);
    assert_eq!(other, vec![]);
}

#[test]
fn each_changed_key_has_one_record_with_the_blocks_hash_and_number() {
    let mut diffs = StorageDiffs::new();
    diffs.insert(address(0xa), word(1), word(0x11));
    diffs.insert(address(0xa), word(2), word(0x22));
    let records = diffs.watched_records(&vec![address(0xa)], word(0xee), 12345);
    assert_eq!(records.len(), 2);
    assert_eq!(records[0], record(0xa, 0xee, 12345, 1, 0x11));
    assert_eq!(records[1], record(0xa, 0xee, 12345, 2, 0x22));
    for r in &records {
        assert_eq!(r.block_hash, word(0xee));
        assert_eq!(r.block_number, 12345);
    }
}

#[test]
fn an_address_twice_on_the_watch_list_is_recorded_once() {
    let mut diffs = StorageDiffs::new();
    diffs.insert(address(0xa), word(1), word(2));
    let records = diffs.watched_records(&vec![address(0xa), address(0xa)], word(3), 4);
    assert_eq!(records, vec![record(0xa, 3, 4, 1, 2)]);
}

#[test]
fn watch_list_matches_exactly() {
    let mut near = [0xa; 20];
    near[19] = 0xb;
    let list = vec![address(0xa), address(0xc)];
    assert!(is_watched(&list, &address(0xa)));
    assert!(is_watched(&list, &address(0xc)));
    assert!(!is_watched(&list, &address(0xb)));
    assert!(!is_watched(&list, &Address(near)));
    assert!(!is_watched(&vec![], &address(0xa)));
}

#[test]
fn address_lists_compare_in_order() {
    assert!(same_addresses(&vec![], &vec![]));
    assert!(same_addresses(&vec![address(1), address(2)], &vec![address(1), address(2)]));
    assert!(!same_addresses(&vec![address(1), address(2)], &vec![address(2), address(1)]));
    assert!(!same_addresses(&vec![address(1)], &vec![address(1), address(1)]));
}

#[test]
fn a_copied_list_holds_the_same_addresses() {
    let list = vec![address(3), address(1), address(3)];
    assert_eq!(copy_addresses(&list), list);
    assert_eq!(copy_addresses(&vec![]), vec![]);
}
