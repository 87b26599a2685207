//! The stock: which medicines run low, and the row of one medicine.

use crate::error::StoreError;
use crate::models::Medicine;
use crate::store::{listed, Database, Tables};
use vstd::prelude::*;

verus! {

/// Reads the stock of one store.
pub struct StockService<'a> {
    db: &'a Database,
}

impl<'a> StockService<'a> {
    /// The relations that this service reads.
    pub closed spec fn tables(&self) -> Tables {
        self.db@
    }

    /// A service that reads the stock of `db_pool`.
    pub fn new(db_pool: &'a Database) -> (service: Self)
        ensures
            service.tables() == db_pool@,
    {
        Self { db: db_pool }
    }

    /// The medicines whose quantity has fallen to their alert threshold or below
    /// it, in the order of the relation. Fails with `StoreFault`, and only so, when
    /// the relation of medicines cannot be read.
    pub fn get_near_low_medicines(&self) -> (found: Result<Vec<Medicine>, StoreError>)
        ensures
            listed(found) == self.tables().near_low_medicines(),
    {
        self.db.near_low_medicines()
    }

    /// The medicine with the identifier `id`: the first row that carries it.
    /// `NotFound` when no row does, `StoreFault` when the relation cannot be read.
    pub fn get_medicine(&self, id: &str) -> (found: Result<Medicine, StoreError>)
        ensures
            found == self.tables().medicine(id@),
    {
        let key = id.to_owned();
        self.db.medicine(&key)
    }
}

} // verus!
