//! `IDBVersionChangeEvent`.

use vstd::prelude::*;

verus! {

/// Native data of an `IDBVersionChangeEvent`.
#[derive(Debug, Clone, Copy, PartialEq, Eq, Structural)]
pub struct IdBVersionChangeEventData {
    /// Old database version.
    pub old_version: u64,
    /// New database version (`None` when the database is being deleted).
    pub new_version: Option<u64>,
}

} // verus!
