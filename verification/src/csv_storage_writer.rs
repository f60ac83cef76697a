//! The sink that renders records as CSV lines.

use crate::diffs::{Entries, StorageDiffs};
use crate::hash::{Address, H256};
use crate::record::StorageRecord;
use crate::watch::{
    copy_addresses, lemma_records_come_from_watched_changes, lemma_watched_change_has_record,
    record_of, watched_records,
};
use crate::StorageWriter;
use vstd::prelude::*;

verus! {

/// Where the CSV file lies: `$BASE` stands for the client's data directory.
pub const STORAGE_FILE: &'static str = "$BASE/watched_storage";

/// The text of each row.
pub open spec fn lines_of(rows: Seq<String>) -> Seq<Seq<char>> {
    rows.map_values(|row: String| row@)
}

/// The CSV line of each record.
pub open spec fn csv_lines(records: Seq<StorageRecord>) -> Seq<Seq<char>> {
    records.map_values(|record: StorageRecord| record.csv_line())
}

/// Lines are only ever added at the end: after `records` were written, the
/// lines held before are still there, in their places, and after them stands
/// one line for each record, in the order of the records.
pub proof fn lemma_written_lines_follow(lines: Seq<Seq<char>>, records: Seq<StorageRecord>)
    ensures
        (lines + csv_lines(records)).len() == lines.len() + records.len(),
        forall|k: int| 0 <= k < lines.len() ==> (lines + csv_lines(records))[k] == lines[k],
        forall|k: int|
            0 <= k < records.len() ==> (lines + csv_lines(records))[lines.len() as int + k]
                == #[trigger] records[k].csv_line(),
{
}

/// The lines written for a block hold no line of an account that is not
/// watched, whatever block, slot and value that line names.
pub proof fn lemma_no_line_of_unwatched_account(
    watched: Seq<Address>,
    block_hash: H256,
    block_number: u64,
    entries: Entries,
    record: StorageRecord,
)
    requires
        !watched.contains(record.contract),
    ensures
        !csv_lines(watched_records(watched, block_hash, block_number, entries)).contains(
            record.csv_line(),
        ),
{
    let records = watched_records(watched, block_hash, block_number, entries);
    let lines = csv_lines(records);
    lemma_records_come_from_watched_changes(watched, block_hash, block_number, entries);
    if lines.contains(record.csv_line()) {
        let k = choose|k: int| 0 <= k < lines.len() && lines[k] == record.csv_line();
        records[k].lemma_csv_line_injective(record);
        assert(watched.contains(records[k].contract));
    }
}

/// The lines written for a block hold the line of each changed slot of each
/// watched account, with the block's hash and number.
pub proof fn lemma_line_of_watched_change(
    watched: Seq<Address>,
    block_hash: H256,
    block_number: u64,
    entries: Entries,
    i: int,
    j: int,
)
    requires
        0 <= i < entries.len(),
        0 <= j < entries[i].1.len(),
        watched.contains(entries[i].0),
    ensures
        csv_lines(watched_records(watched, block_hash, block_number, entries)).contains(
            record_of(entries[i].0, block_hash, block_number, entries[i].1[j]).csv_line(),
        ),
{
    let records = watched_records(watched, block_hash, block_number, entries);
    let wanted = record_of(entries[i].0, block_hash, block_number, entries[i].1[j]);
    lemma_watched_change_has_record(watched, block_hash, block_number, entries, i, j);
    let k = choose|k: int| 0 <= k < records.len() && records[k] == wanted;
    assert(csv_lines(records)[k] == wanted.csv_line());
}

/// A slot that is written again gets a second line: the line of the first
/// write stays, and the line of the second write follows it.
pub proof fn lemma_rewrite_keeps_history(
    lines: Seq<Seq<char>>,
    first: StorageRecord,
    second: StorageRecord,
)
    requires
        first.contract == second.contract,
        first.key == second.key,
    ensures
        ({
            let after = lines.push(first.csv_line()).push(second.csv_line());
            &&& after.len() == lines.len() + 2
            &&& after.take(lines.len() as int) == lines
            &&& after[lines.len() as int] == first.csv_line()
            &&& after[lines.len() as int + 1] == second.csv_line()
        }),
{
    let after = lines.push(first.csv_line()).push(second.csv_line());
    assert(after.take(lines.len() as int) =~= lines);
}

/// A sink for a CSV file. It renders each record it is given as one line and
/// holds the lines, oldest first, until the owner of the file takes them to
/// append and flush them.
#[derive(Debug)]
pub struct CsvStorageWriter {
    watched_contracts: Vec<Address>,
    unflushed: Vec<String>,
}

impl CsvStorageWriter {
    /// The accounts whose changes the sink persists.
    pub closed spec fn watched(&self) -> Seq<Address> {
        self.watched_contracts@
    }

    /// The lines that were written and not yet taken, oldest first.
    pub closed spec fn unflushed_lines(&self) -> Seq<Seq<char>> {
        lines_of(self.unflushed@)
    }

    /// A sink for the given watch list, with no line written yet.
    pub fn new(watched_contracts: Vec<Address>) -> (writer: CsvStorageWriter)
        ensures
            writer.watched() == watched_contracts@,
            writer.unflushed_lines() == Seq::<Seq<char>>::empty(),
    {
        CsvStorageWriter { watched_contracts, unflushed: Vec::new() }
    }

    /// The watch list.
    pub fn watched_contracts(&self) -> (watched: &Vec<Address>)
        ensures
            watched@ == self.watched(),
    {
        &self.watched_contracts
    }

    /// The lines that were written and not yet taken, oldest first.
    pub fn unflushed(&self) -> (rows: &Vec<String>)
        ensures
            lines_of(rows@) == self.unflushed_lines(),
    {
        &self.unflushed
    }

    /// Hands over the lines that were written since the last call, oldest
    /// first, and forgets them.
    pub fn take_unflushed(&mut self) -> (rows: Vec<String>)
        ensures
            lines_of(rows@) == old(self).unflushed_lines(),
            final(self).unflushed_lines() == Seq::<Seq<char>>::empty(),
            final(self).watched() == old(self).watched(),
    {
        let mut rows: Vec<String> = Vec::new();
        core::mem::swap(&mut self.unflushed, &mut rows);
        rows
    }
}

impl StorageWriter for CsvStorageWriter {
    fn boxed_clone(&self) -> (copy: Box<Self>)
        ensures
            copy.watched() == self.watched(),
            copy.unflushed_lines() == Seq::<Seq<char>>::empty(),
    {
        let watched = copy_addresses(&self.watched_contracts);
        Box::new(CsvStorageWriter::new(watched))
    }

    fn enabled(&self) -> (on: bool)
        ensures
            on,
    {
        true
    }

    fn write_storage_node(
        &mut self,
        contract: Address,
        block_hash: H256,
        block_number: u64,
        key: H256,
        value: H256,
    ) -> (outcome: Result<(), std::io::Error>)
        ensures
            outcome is Ok,
            final(self).watched() == old(self).watched(),
            final(self).unflushed_lines() == old(self).unflushed_lines().push(
                (StorageRecord { contract, block_hash, block_number, key, value }).csv_line(),
            ),
    {
        let record = StorageRecord { contract, block_hash, block_number, key, value };
        let row = record.csv_row();
        self.unflushed.push(row);
        Ok(())
    }

    fn write_storage_diffs(
        &mut self,
        header_hash: H256,
        header_number: u64,
        accounts_storage_diffs: StorageDiffs,
    ) -> (outcome: Result<(), std::io::Error>)
        ensures
            outcome is Ok,
            final(self).watched() == old(self).watched(),
            final(self).unflushed_lines() == old(self).unflushed_lines() + csv_lines(
                watched_records(
                    old(self).watched(),
                    header_hash,
                    header_number,
                    accounts_storage_diffs@,
                ),
            ),
    {
        let records = accounts_storage_diffs.watched_records(
            &self.watched_contracts,
            header_hash,
            header_number,
        );
        let mut i: usize = 0;
        while i < records.len()
            invariant
                i <= records.len(),
                self.watched() == old(self).watched(),
                self.unflushed_lines() == old(self).unflushed_lines() + csv_lines(
                    records@.take(i as int),
                ),
            decreases records.len() - i,
        {
            let ghost lines_before = self.unflushed_lines();
            let row = records[i].csv_row();
            self.unflushed.push(row);
            assert(self.unflushed_lines() =~= lines_before.push(records@[i as int].csv_line()));
            assert(csv_lines(records@.take(i + 1)) =~= csv_lines(records@.take(i as int)).push(
                records@[i as int].csv_line(),
            ));
            i += 1;
        }
        assert(records@.take(records.len() as int) =~= records@);
        Ok(())
    }
}

} // verus!
