//! What a client sets to have storage changes persisted.

use crate::database::Database;
use crate::watch::{copy_addresses, same_addresses};
use crate::hash::Address;
use vstd::prelude::*;

verus! {

/// Configuration for writing storage diffs from watched accounts
#[derive(Debug, Eq)]
pub struct StorageWriterConfig {
    /// Accounts to be watched
    pub watched_accounts: Vec<Address>,
    /// Database used for persisting account storage diffs
    pub database: Database,
}

impl Default for StorageWriterConfig {
    fn default() -> (config: StorageWriterConfig)
        ensures
            config.watched_accounts@ == Seq::<Address>::empty(),
            config.database == Database::Noop,
    {
        StorageWriterConfig { watched_accounts: Vec::new(), database: Database::Noop }
    }
}

impl Clone for StorageWriterConfig {
    fn clone(&self) -> (copy: StorageWriterConfig)
        ensures
            copy.watched_accounts@ == self.watched_accounts@,
            copy.database == self.database,
    {
        StorageWriterConfig {
            watched_accounts: copy_addresses(&self.watched_accounts),
            database: self.database,
        }
    }
}

impl PartialEq for StorageWriterConfig {
    fn eq(&self, other: &Self) -> (same: bool) {
        self.database == other.database && same_addresses(
            &self.watched_accounts,
            &other.watched_accounts,
        )
    }
}

impl vstd::std_specs::cmp::PartialEqSpecImpl for StorageWriterConfig {
    open spec fn obeys_eq_spec() -> bool {
        true
    }

    open spec fn eq_spec(&self, other: &Self) -> bool {
        self.database == other.database && self.watched_accounts@ == other.watched_accounts@
    }
}

} // verus!
