//! Sinks that persist per-block contract storage changes.

pub mod config;
pub mod csv_storage_writer;
pub mod database;
pub mod diffs;
pub mod hash;
pub mod noop;
pub mod pg;
pub mod record;
pub mod watch;

use crate::csv_storage_writer::{csv_lines, CsvStorageWriter};
use crate::database::Database;
use crate::diffs::StorageDiffs;
use crate::hash::{Address, H256};
use crate::noop::NoopStorageWriter;
use crate::pg::PostgresStorageWriter;
use crate::record::StorageRecord;
use crate::watch::watched_records;
use vstd::prelude::*;

verus! {

/// std's `std::io::Error`, the error of a sink whose medium rejects a write.
/// Nothing is claimed of its contents: the sinks of this crate carry it in
/// their signatures and never make one.
#[verifier::external_type_specification]
#[verifier::external_body]
pub struct ExIoError(std::io::Error);

/// Something that can write storage values to disk
///
/// The sinks of this crate render and queue what they are given and leave the
/// medium to their owner, so their writes succeed; an implementation that owns
/// its medium returns the medium's error.
pub trait StorageWriter: Send + Sync {
    /// Return a copy of ourself, in a box.
    fn boxed_clone(&self) -> Box<Self> where Self: Sized;

    /// Whether storage writing is enabled
    fn enabled(&self) -> bool;

    /// Write storage node to disk
    fn write_storage_node(
        &mut self,
        contract: Address,
        block_hash: H256,
        block_number: u64,
        key: H256,
        value: H256,
    ) -> Result<(), std::io::Error>;

    /// Write the changed slots of the watched accounts of one block to disk
    fn write_storage_diffs(
        &mut self,
        header_hash: H256,
        header_number: u64,
        accounts_storage_diffs: StorageDiffs,
    ) -> Result<(), std::io::Error>;
}

/// A sink of whichever kind the configuration asked for.
#[derive(Debug)]
pub enum AnyStorageWriter {
    /// Lines for a CSV file.
    Csv(CsvStorageWriter),
    /// Nothing at all.
    Noop(NoopStorageWriter),
    /// Rows for a Postgres table.
    Postgres(PostgresStorageWriter),
}

impl AnyStorageWriter {
    /// The target that the sink writes for.
    pub open spec fn database(&self) -> Database {
        match self {
            AnyStorageWriter::Csv(_) => Database::Csv,
            AnyStorageWriter::Noop(_) => Database::Noop,
            AnyStorageWriter::Postgres(_) => Database::Postgres,
        }
    }

    /// Whether the sink is one for `watched` that has not been written to.
    pub open spec fn is_fresh(&self, watched: Seq<Address>) -> bool {
        match self {
            AnyStorageWriter::Csv(writer) => writer.watched() == watched
                && writer.unflushed_lines() == Seq::<Seq<char>>::empty(),
            AnyStorageWriter::Noop(_) => true,
            AnyStorageWriter::Postgres(writer) => writer.watched() == watched
                && writer.pending_records() == Seq::<StorageRecord>::empty(),
        }
    }

    /// Whether `after` is `self` with `records` written to it, in order: a CSV
    /// sink holds their lines after the lines it held, a Postgres sink holds
    /// the records after the records it held, and the sink that discards is as
    /// it was. The watch list stays.
    pub open spec fn wrote(&self, records: Seq<StorageRecord>, after: &AnyStorageWriter) -> bool {
        match (self, after) {
            (AnyStorageWriter::Csv(was), AnyStorageWriter::Csv(now)) => now.watched()
                == was.watched() && now.unflushed_lines() == was.unflushed_lines() + csv_lines(
                records,
            ),
            (AnyStorageWriter::Noop(_), AnyStorageWriter::Noop(_)) => true,
            (AnyStorageWriter::Postgres(was), AnyStorageWriter::Postgres(now)) => now.watched()
                == was.watched() && now.pending_records() == was.pending_records() + records,
            _ => false,
        }
    }

    /// The accounts whose changes the sink persists: none for the sink that
    /// discards.
    pub open spec fn watched(&self) -> Seq<Address> {
        match self {
            AnyStorageWriter::Csv(writer) => writer.watched(),
            AnyStorageWriter::Noop(_) => Seq::empty(),
            AnyStorageWriter::Postgres(writer) => writer.watched(),
        }
    }
}

impl StorageWriter for AnyStorageWriter {
    fn boxed_clone(&self) -> (copy: Box<Self>)
        ensures
            copy.database() == self.database(),
            copy.is_fresh(self.watched()),
    {
        match self {
            AnyStorageWriter::Csv(writer) => Box::new(AnyStorageWriter::Csv(*writer.boxed_clone())),
            AnyStorageWriter::Noop(writer) => Box::new(
                AnyStorageWriter::Noop(*writer.boxed_clone()),
            ),
            AnyStorageWriter::Postgres(writer) => Box::new(
                AnyStorageWriter::Postgres(*writer.boxed_clone()),
            ),
        }
    }

    fn enabled(&self) -> (on: bool)
        ensures
            on == (self.database() != Database::Noop),
    {
        match self {
            AnyStorageWriter::Csv(writer) => writer.enabled(),
            AnyStorageWriter::Noop(writer) => writer.enabled(),
            AnyStorageWriter::Postgres(writer) => writer.enabled(),
        }
    }

    fn write_storage_node(
        &mut self,
        contract: Address,
        block_hash: H256,
        block_number: u64,
        key: H256,
        value: H256,
    ) -> (outcome: Result<(), std::io::Error>)
        ensures
            outcome is Ok,
            old(self).wrote(
                seq![StorageRecord { contract, block_hash, block_number, key, value }],
                final(self),
            ),
    {
        match self {
            AnyStorageWriter::Csv(writer) => {
                let ghost lines = writer.unflushed_lines();
                let ghost record = StorageRecord { contract, block_hash, block_number, key, value };
                assert(lines.push(record.csv_line()) =~= lines + csv_lines(seq![record]));
                writer.write_storage_node(contract, block_hash, block_number, key, value)
            },
            AnyStorageWriter::Noop(writer) => writer.write_storage_node(
                contract,
                block_hash,
                block_number,
                key,
                value,
            ),
            AnyStorageWriter::Postgres(writer) => {
                let ghost pending = writer.pending_records();
                let ghost record = StorageRecord { contract, block_hash, block_number, key, value };
                assert(pending.push(record) =~= pending + seq![record]);
                writer.write_storage_node(contract, block_hash, block_number, key, value)
            },
        }
    }

    fn write_storage_diffs(
        &mut self,
        header_hash: H256,
        header_number: u64,
        accounts_storage_diffs: StorageDiffs,
    ) -> (outcome: Result<(), std::io::Error>)
        ensures
            outcome is Ok,
            old(self).wrote(
                watched_records(
                    old(self).watched(),
                    header_hash,
                    header_number,
                    accounts_storage_diffs@,
                ),
                final(self),
            ),
    {
        match self {
            AnyStorageWriter::Csv(writer) => writer.write_storage_diffs(
                header_hash,
                header_number,
                accounts_storage_diffs,
            ),
            AnyStorageWriter::Noop(writer) => writer.write_storage_diffs(
                header_hash,
                header_number,
                accounts_storage_diffs,
            ),
            AnyStorageWriter::Postgres(writer) => writer.write_storage_diffs(
                header_hash,
                header_number,
                accounts_storage_diffs,
            ),
        }
    }
}

/// Create a new storage writer for `database`, which watches
/// `watched_accounts`.
pub fn new(database: Database, watched_accounts: Vec<Address>) -> (writer: AnyStorageWriter)
    ensures
        writer.database() == database,
        writer.is_fresh(watched_accounts@),
{
    match database {
        Database::Csv => AnyStorageWriter::Csv(CsvStorageWriter::new(watched_accounts)),
        Database::Noop => AnyStorageWriter::Noop(NoopStorageWriter::new()),
        Database::Postgres => AnyStorageWriter::Postgres(
            PostgresStorageWriter::new(watched_accounts),
        ),
    }
}

} // verus!
