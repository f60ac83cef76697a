//! The sink that queues records for a relational table.

use crate::diffs::StorageDiffs;
use crate::hash::{Address, H256};
use crate::record::StorageRecord;
use crate::watch::{copy_addresses, watched_records};
use crate::StorageWriter;
use vstd::prelude::*;

verus! {

/// A sink for a Postgres table. It holds each record it is given, oldest
/// first, until the owner of the connection takes them to insert them, one
/// row for each.
#[derive(Debug)]
pub struct PostgresStorageWriter {
    watched_contracts: Vec<Address>,
    pending: Vec<StorageRecord>,
}

impl PostgresStorageWriter {
    /// The accounts whose changes the sink persists.
    pub closed spec fn watched(&self) -> Seq<Address> {
        self.watched_contracts@
    }

    /// The records that were written and not yet taken, oldest first.
    pub closed spec fn pending_records(&self) -> Seq<StorageRecord> {
        self.pending@
    }

    /// A sink for the given watch list, with no record written yet.
    pub fn new(watched_contracts: Vec<Address>) -> (writer: PostgresStorageWriter)
        ensures
            writer.watched() == watched_contracts@,
            writer.pending_records() == Seq::<StorageRecord>::empty(),
    {
        PostgresStorageWriter { watched_contracts, pending: Vec::new() }
    }

    /// The watch list.
    pub fn watched_contracts(&self) -> (watched: &Vec<Address>)
        ensures
            watched@ == self.watched(),
    {
        &self.watched_contracts
    }

    /// The records that were written and not yet taken, oldest first.
    pub fn pending(&self) -> (records: &Vec<StorageRecord>)
        ensures
            records@ == self.pending_records(),
    {
        &self.pending
    }

    /// Hands over the records that were written since the last call, oldest
    /// first, and forgets them.
    pub fn take_pending(&mut self) -> (records: Vec<StorageRecord>)
        ensures
            records@ == old(self).pending_records(),
            final(self).pending_records() == Seq::<StorageRecord>::empty(),
            final(self).watched() == old(self).watched(),
    {
        let mut records: Vec<StorageRecord> = Vec::new();
        core::mem::swap(&mut self.pending, &mut records);
        records
    }
}

impl StorageWriter for PostgresStorageWriter {
    fn boxed_clone(&self) -> (copy: Box<Self>)
        ensures
            copy.watched() == self.watched(),
            copy.pending_records() == Seq::<StorageRecord>::empty(),
    {
        let watched = copy_addresses(&self.watched_contracts);
        Box::new(PostgresStorageWriter::new(watched))
    }

    fn enabled(&self) -> (on: bool)
        ensures
            on,
    {
        true
    }

    fn write_storage_node(
        &mut self,
        contract: Address,
        block_hash: H256,
        block_number: u64,
        key: H256,
        value: H256,
    ) -> (outcome: Result<(), std::io::Error>)
        ensures
            outcome is Ok,
            final(self).watched() == old(self).watched(),
            final(self).pending_records() == old(self).pending_records().push(
                StorageRecord { contract, block_hash, block_number, key, value },
            ),
    {
        self.pending.push(StorageRecord { contract, block_hash, block_number, key, value });
        Ok(())
    }

    fn write_storage_diffs(
        &mut self,
        header_hash: H256,
        header_number: u64,
        accounts_storage_diffs: StorageDiffs,
    ) -> (outcome: Result<(), std::io::Error>)
        ensures
            outcome is Ok,
            final(self).watched() == old(self).watched(),
            final(self).pending_records() == old(self).pending_records() + watched_records(
                old(self).watched(),
                header_hash,
                header_number,
                accounts_storage_diffs@,
            ),
    {
        let mut records = accounts_storage_diffs.watched_records(
            &self.watched_contracts,
            header_hash,
            header_number,
        );
        self.pending.append(&mut records);
        Ok(())
    }
}

} // verus!
