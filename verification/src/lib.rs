//! Replenishment recommendations for a pharmacy's inventory: which offers of the
//! providers should be ordered for the medicines whose stock runs low, and how
//! many units of each.
//!
//! The report can be had in two ways. From a store that is held in memory,
//! `handlers::provider::provide_medicines_for_near_low` writes it at once, with
//! the services of `services` as its parts. From a store that can only be asked
//! one question at a time, a `protocol::Run` works it out step by step: it says
//! what to ask, is handed the answer, and in the end gives the report. Both
//! give the report that `handlers::provider::report` defines; `laws` says what
//! holds of that report, and `run_laws` that a run arrives at it.

use crate::store::Database;
use vstd::prelude::*;

pub mod error;
pub mod gather;
pub mod handlers;
pub mod laws;
pub mod mapping;
pub mod models;
pub mod names;
pub mod options;
pub mod protocol;
pub mod run_laws;
pub mod services;
pub mod sorting;
pub mod store;

verus! {

/// What a request is answered from: the data store.
#[derive(Debug)]
pub struct AppState {
    pub db_pool: Database,
}

} // verus!
