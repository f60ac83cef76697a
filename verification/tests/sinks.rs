use storage_writer::csv_storage_writer::CsvStorageWriter;
use storage_writer::database::Database;
use storage_writer::diffs::StorageDiffs;
use storage_writer::hash::{Address, H256};
use storage_writer::noop::NoopStorageWriter;
use storage_writer::pg::PostgresStorageWriter;
use storage_writer::record::StorageRecord;
use storage_writer::{AnyStorageWriter, StorageWriter};

fn address(byte: u8) -> Address {
    Address([byte; 20])
}

fn word(byte: u8) -> H256 {
    H256([byte; 32])
}

fn hex(byte: u8, count: usize) -> String {
    format!("{:02x}", byte).repeat(count)
}

fn line(contract: u8, hash: u8, number: u64, key: u8, value: u8) -> String {
    format!(
        "{},{},{},{},{}\n",
        hex(contract, 20),
        hex(hash, 32),
        number,
        hex(key, 32),
        hex(value, 32)
    )
}

fn record(contract: u8, hash: u8, number: u64, key: u8, value: u8) -> StorageRecord {
    StorageRecord {
        contract: address(contract),
        block_hash: word(hash),
        block_number: number,
        key: word(key),
        value: word(value),
    }
}

fn block_with_a_and_b() -> StorageDiffs {
    let mut diffs = StorageDiffs::new();
    diffs.insert(address(0xa), word(1), word(0x11));
    diffs.insert(address(0xb), word(2), word(0x22));
    diffs.insert(address(0xa), word(3), word(0x33));
    diffs
}

#[test]
fn noop_is_disabled_and_accepts_everything() {
    let mut sink = NoopStorageWriter::new();
    assert!(!sink.enabled());
    assert!(sink.write_storage_node(address(1), word(2), 3, word(4), word(5)).is_ok());
    assert!(sink.write_storage_node(address(0), word(0), u64::MAX, word(0xff), word(0)).is_ok());
    assert!(sink.write_storage_diffs(word(2), 3, block_with_a_and_b()).is_ok());
    assert!(!sink.enabled());
    assert!(!sink.boxed_clone().enabled());
    assert!(!sink.clone().enabled());
}

#[test]
fn csv_sink_is_enabled_and_starts_empty() {
    let sink = CsvStorageWriter::new(vec![address(0xa)]);
    assert!(sink.enabled());
    assert_eq!(sink.watched_contracts(), &vec![address(0xa)]);
    assert!(sink.unflushed().is_empty());
}

#[test]
fn csv_sink_writes_one_line_for_one_node() {
    let mut sink = CsvStorageWriter::new(vec![]);
    assert!(sink.write_storage_node(address(0xa), word(0xbb), 7, word(1), word(2)).is_ok());
    assert_eq!(sink.unflushed(), &vec![line(0xa, 0xbb, 7, 1, 2)]);
}

#[test]
fn csv_sink_writes_rows_for_watched_accounts_only() {
    let mut sink = CsvStorageWriter::new(vec![address(0xa)]);
    assert!(sink.write_storage_diffs(word(0xcc), 100, block_with_a_and_b()).is_ok());
    let rows = sink.unflushed().clone();
    assert_eq!(rows, vec![line(0xa, 0xcc, 100, 1, 0x11), line(0xa, 0xcc, 100, 3, 0x33)]);
    assert!(rows.iter().all(|row| !row.starts_with(&hex(0xb, 20))));
}

#[test]
fn csv_sink_writes_one_row_for_each_changed_key() {
    let mut diffs = StorageDiffs::new();
    diffs.insert(address(0xa), word(1), word(0x11));
    diffs.insert(address(0xa), word(2), word(0x22));
    let mut sink = CsvStorageWriter::new(vec![address(0xa)]);
    assert!(sink.write_storage_diffs(word(0xee), 12345, diffs).is_ok());
    let rows = sink.take_unflushed();
    assert_eq!(rows.len(), 2);
    assert!(rows.contains(&line(0xa, 0xee, 12345, 1, 0x11)));
    assert!(rows.contains(&line(0xa, 0xee, 12345, 2, 0x22)));
    for row in &rows {
        let fields: Vec<&str> = row.trim_end_matches('\n').split(',').collect();
        assert_eq!(fields.len(), 5);
        assert_eq!(fields[1], hex(0xee, 32));
        assert_eq!(fields[2], "12345");
    }
}

#[test]
fn csv_sink_keeps_history_of_a_slot() {
    let mut sink = CsvStorageWriter::new(vec![address(0xa)]);
    let mut first = StorageDiffs::new();
    first.insert(address(0xa), word(1), word(0x11));
    let mut second = StorageDiffs::new();
    second.insert(address(0xa), word(1), word(0x12));
    assert!(sink.write_storage_diffs(word(0xe1), 1, first).is_ok());
    assert!(sink.write_storage_diffs(word(0xe2), 2, second).is_ok());
    assert_eq!(
        sink.unflushed(),
        &vec![line(0xa, 0xe1, 1, 1, 0x11), line(0xa, 0xe2, 2, 1, 0x12)]
    );

    assert!(sink.write_storage_node(address(0xa), word(0xe2), 2, word(1), word(0x12)).is_ok());
    assert_eq!(sink.unflushed().len(), 3);
    assert_eq!(sink.unflushed()[1], sink.unflushed()[2]);
}

#[test]
fn csv_sink_hands_lines_over_once() {
    let mut sink = CsvStorageWriter::new(vec![address(0xa)]);
    assert_eq!(sink.take_unflushed(), Vec::<String>::new());
    assert!(sink.write_storage_node(address(0xa), word(0xbb), 7, word(1), word(2)).is_ok());
    assert!(sink.write_storage_node(address(0xa), word(0xbb), 7, word(3), word(4)).is_ok());
    assert_eq!(sink.take_unflushed(), vec![line(0xa, 0xbb, 7, 1, 2), line(0xa, 0xbb, 7, 3, 4)]);
    assert!(sink.unflushed().is_empty());
    assert_eq!(sink.watched_contracts(), &vec![address(0xa)]);
    assert!(sink.write_storage_node(address(0xa), word(0xbc), 8, word(1), word(5)).is_ok());
    assert_eq!(sink.take_unflushed(), vec![line(0xa, 0xbc, 8, 1, 5)]);
}

#[test]
fn csv_sink_with_empty_watch_list_writes_nothing_for_a_block() {
    let mut sink = CsvStorageWriter::new(vec![]);
    assert!(sink.write_storage_diffs(word(0xcc), 100, block_with_a_and_b()).is_ok());
    assert!(sink.unflushed().is_empty());
    assert!(sink.write_storage_diffs(word(0xcc), 101, StorageDiffs::new()).is_ok());
    assert!(sink.unflushed().is_empty());
}

#[test]
fn a_clone_has_the_watch_list_and_lines_of_its_own() {
    let mut source = CsvStorageWriter::new(vec![address(0xa), address(0xb)]);
    assert!(source.write_storage_node(address(0xa), word(1), 1, word(1), word(1)).is_ok());
    let mut copy = source.boxed_clone();
    assert_eq!(copy.watched_contracts(), source.watched_contracts());
    assert!(copy.unflushed().is_empty());

    assert!(copy.write_storage_diffs(word(0xcc), 100, block_with_a_and_b()).is_ok());
    assert_eq!(copy.unflushed().len(), 3);
    assert_eq!(source.unflushed(), &vec![line(0xa, 1, 1, 1, 1)]);

    assert!(source.write_storage_node(address(0xb), word(2), 2, word(2), word(2)).is_ok());
    assert_eq!(source.unflushed(), &vec![line(0xa, 1, 1, 1, 1), line(0xb, 2, 2, 2, 2)]);
    assert_eq!(copy.unflushed().len(), 3);
}

#[test]
fn postgres_sink_queues_records() {
    let mut sink = PostgresStorageWriter::new(vec![address(0xa)]);
    assert!(sink.enabled());
    assert!(sink.pending().is_empty());
    assert!(sink.write_storage_node(address(0xd), word(0xbb), 7, word(1), word(2)).is_ok());
    assert!(sink.write_storage_diffs(word(0xcc), 100, block_with_a_and_b()).is_ok());
    assert_eq!(
        sink.pending(),
        &vec![record(0xd, 0xbb, 7, 1, 2), record(0xa, 0xcc, 100, 1, 0x11), record(0xa, 0xcc, 100, 3, 0x33)]
    );
    let copy = sink.boxed_clone();
    assert_eq!(copy.watched_contracts(), &vec![address(0xa)]);
    assert!(copy.pending().is_empty());
    assert_eq!(sink.take_pending().len(), 3);
    assert!(sink.pending().is_empty());
    assert_eq!(sink.watched_contracts(), &vec![address(0xa)]);
}

#[test]
fn factory_builds_the_sink_that_was_asked_for() {
    let watched = vec![address(0xa)];
    match storage_writer::new(Database::Csv, watched.clone()) {
        AnyStorageWriter::Csv(sink) => {
            assert_eq!(sink.watched_contracts(), &watched);
            assert!(sink.unflushed().is_empty());
        }
        _ => panic!("expected the CSV sink"),
    }
    match storage_writer::new(Database::Postgres, watched.clone()) {
        AnyStorageWriter::Postgres(sink) => {
            assert_eq!(sink.watched_contracts(), &watched);
            assert!(sink.pending().is_empty());
        }
        _ => panic!("expected the Postgres sink"),
    }
    assert!(matches!(storage_writer::new(Database::Noop, watched), AnyStorageWriter::Noop(_)));
}

#[test]
fn any_sink_is_enabled_unless_it_discards() {
    for database in Database::all_types() {
        let sink = storage_writer::new(database, vec![address(0xa)]);
        assert_eq!(sink.enabled(), database != Database::Noop);
        assert_eq!(sink.boxed_clone().enabled(), database != Database::Noop);
    }
}

#[test]
fn any_sink_writes_through_to_its_kind() {
    let mut csv = storage_writer::new(Database::Csv, vec![address(0xa)]);
    let mut pg = storage_writer::new(Database::Postgres, vec![address(0xa)]);
    let mut noop = storage_writer::new(Database::Noop, vec![address(0xa)]);
    for sink in [&mut csv, &mut pg, &mut noop] {
        assert!(sink.write_storage_node(address(0xd), word(0xbb), 7, word(1), word(2)).is_ok());
        assert!(sink.write_storage_diffs(word(0xcc), 100, block_with_a_and_b()).is_ok());
    }
    match csv {
        AnyStorageWriter::Csv(sink) => assert_eq!(
            sink.unflushed(),
            &vec![line(0xd, 0xbb, 7, 1, 2), line(0xa, 0xcc, 100, 1, 0x11), line(0xa, 0xcc, 100, 3, 0x33)]
        ),
        _ => panic!("expected the CSV sink"),
    }
    match pg {
        AnyStorageWriter::Postgres(sink) => assert_eq!(sink.pending().len(), 3),
        _ => panic!("expected the Postgres sink"),
    }
    assert!(matches!(noop, AnyStorageWriter::Noop(_)));
}

#[test]
fn csv_file_lies_under_the_data_directory() {
    assert_eq!(storage_writer::csv_storage_writer::STORAGE_FILE, "$BASE/watched_storage");
}
