//! The sink that discards what it is given.

use crate::diffs::StorageDiffs;
use crate::hash::{Address, H256};
use crate::StorageWriter;
use vstd::prelude::*;

verus! {

/// A sink that is switched off: it holds nothing and keeps nothing.
#[derive(Debug, Clone, Copy)]
pub struct NoopStorageWriter;

impl NoopStorageWriter {
    /// The sink that discards everything.
    pub fn new() -> (writer: NoopStorageWriter)
        ensures
            writer == NoopStorageWriter,
    {
        NoopStorageWriter
    }
}

impl StorageWriter for NoopStorageWriter {
    fn boxed_clone(&self) -> (copy: Box<Self>)
        ensures
            *copy == NoopStorageWriter,
    {
        Box::new(NoopStorageWriter)
    }

    fn enabled(&self) -> (on: bool)
        ensures
            !on,
    {
        false
    }

    fn write_storage_node(
        &mut self,
        _contract: Address,
        _block_hash: H256,
        _block_number: u64,
        _key: H256,
        _value: H256,
    ) -> (outcome: Result<(), std::io::Error>)
        ensures
            outcome is Ok,
            *final(self) == *old(self),
    {
        Ok(())
    }

    fn write_storage_diffs(
        &mut self,
        _header_hash: H256,
        _header_number: u64,
        _accounts_storage_diffs: StorageDiffs,
    ) -> (outcome: Result<(), std::io::Error>)
        ensures
            outcome is Ok,
            *final(self) == *old(self),
    {
        Ok(())
    }
}

} // verus!
