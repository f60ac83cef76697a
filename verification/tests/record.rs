use storage_writer::hash::{Address, H256};
use storage_writer::record::StorageRecord;

fn word(first: u8, rest: u8) -> H256 {
    let mut bytes = [rest; 32];
    bytes[0] = first;
    H256(bytes)
}

#[test]
fn row_has_five_fields_in_order() {
    let record = StorageRecord {
        contract: Address([0x11; 20]),
        block_hash: H256([0xaa; 32]),
        block_number: 42,
        key: H256([0x01; 32]),
        value: H256([0xff; 32]),
    };
    let expected = format!(
        "{},{},42,{},{}\n",
        "11".repeat(20),
        "aa".repeat(32),
        "01".repeat(32),
        "ff".repeat(32)
    );
    assert_eq!(record.csv_row(), expected);
}

#[test]
fn row_is_lowercase_hex_without_prefix_high_half_first() {
    let mut contract = [0u8; 20];
    contract[0] = 0xde;
    contract[1] = 0xad;
    contract[18] = 0x0b;
    contract[19] = 0xe0;
    let record = StorageRecord {
        contract: Address(contract),
        block_hash: word(0xAB, 0x00),
        block_number: 0,
        key: word(0x0f, 0xf0),
        value: word(0x90, 0x09),
    };
    let row = record.csv_row();
    let fields: Vec<&str> = row.trim_end_matches('\n').split(',').collect();
    assert_eq!(fields.len(), 5);
    assert_eq!(fields[0], format!("dead{}0be0", "00".repeat(16)));
    assert_eq!(fields[0].len(), 40);
    assert_eq!(fields[1], format!("ab{}", "00".repeat(31)));
    assert_eq!(fields[2], "0");
    assert_eq!(fields[3], format!("0f{}", "f0".repeat(31)));
    assert_eq!(fields[4], format!("90{}", "09".repeat(31)));
    assert!(row.ends_with('\n'));
    assert!(!row.contains("0x"));
    assert!(!row.contains('"'));
    assert_eq!(row.len(), 40 + 64 + 1 + 64 + 64 + 4 + 1);
}

#[test]
fn block_number_is_decimal() {
    for (number, text) in [
        (0u64, "0"),
        (9, "9"),
        (10, "10"),
        (255, "255"),
        (1_000_000, "1000000"),
        (u64::MAX, "18446744073709551615"),
    ] {
        let record = StorageRecord {
            contract: Address([0; 20]),
            block_hash: H256([0; 32]),
            block_number: number,
            key: H256([0; 32]),
            value: H256([0; 32]),
        };
        let row = record.csv_row();
        let fields: Vec<&str> = row.trim_end_matches('\n').split(',').collect();
        assert_eq!(fields[2], text);
    }
}

#[test]
fn addresses_compare_by_bytes() {
    let mut other = [7u8; 20];
    assert_eq!(Address([7; 20]), Address(other));
    other[19] = 8;
    assert_ne!(Address([7; 20]), Address(other));
    let mut word = [7u8; 32];
    assert_eq!(H256([7; 32]), H256(word));
    word[0] = 0;
    assert_ne!(H256([7; 32]), H256(word));
}
