use vstd::prelude::*;

verus! {

/// Why a lookup in the data store did not yield a row.
#[derive(Clone, Copy, Debug, PartialEq, Eq, Structural)]
pub enum StoreError {
    /// No row carries the identifier that was asked for.
    NotFound,
    /// The relation could not be read at all.
    StoreFault,
}

} // verus!
