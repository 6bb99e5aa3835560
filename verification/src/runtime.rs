//! The in-process runtime: a store used directly, without the HTTP layer.
use vstd::prelude::*;
use crate::db::Database;

verus! {

/// An in-process memory runtime around one store.
pub struct CortexRuntime {
    db: Database,
}

impl CortexRuntime {
    /// The runtime's store.
    pub closed spec fn store(&self) -> Database {
        self.db
    }

    /// A runtime around the store `db`.
    pub fn new(db: Database) -> (r: Self)
        ensures
            r.store() == db,
    {
        Self { db }
    }

    /// A runtime around a fresh in-memory store (see `Database::open_in_memory`);
    /// a failure gives the store's message.
    pub fn in_memory() -> (r: Result<Self, String>)
        ensures
            match r {
                Ok(rt) => {
                    &&& rt.store().file() is None
                    &&& rt.store().tables().entities.is_empty()
                    &&& rt.store().tables().claims.is_empty()
                    &&& rt.store().tables().fts =~= vstd::multiset::Multiset::empty()
                    &&& rt.store().tables().spaces.is_empty() || rt.store().tables().spaces.dom() =~= set![crate::models::default_space_name()]
                },
                Err(_) => true,
            },
    {
        match Database::open_in_memory() {
            Ok(db) => Ok(Self { db }),
            Err(e) => Err(e.into_message()),
        }
    }

    /// A runtime around the store in the database file at `path` (see
    /// `Database::open`); a failure gives the store's message.
    pub fn open(path: &str) -> (r: Result<Self, String>)
        ensures
            r matches Ok(rt) ==> rt.store().file() == Some(path@),
    {
        match Database::open(path) {
            Ok(db) => Ok(Self { db }),
            Err(e) => Err(e.into_message()),
        }
    }

    /// The runtime's store, for reading.
    pub fn database(&self) -> (r: &Database)
        ensures
            *r == self.store(),
    {
        &self.db
    }

    /// The runtime's store, for writing.
    pub fn database_mut(&mut self) -> (r: &mut Database)
        ensures
            *r == old(self).store(),
            final(self).store() == *final(r),
    {
        &mut self.db
    }
}

} // verus!
