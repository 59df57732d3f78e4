//! `IDBFactory`: the rules of `open()` and `deleteDatabase()` before the
//! request is queued.

use vstd::prelude::*;

use crate::api::support::ApiError;

verus! {

/// Native data of the `IDBFactory` singleton on `globalThis`.
#[derive(Debug)]
pub struct IdBFactory;

/// The version `open(name, version)` queues: an omitted version means
/// "the current one" (0); an explicit 0 is a `TypeError`.
pub fn open_version(version: Option<u64>) -> (r: Result<u64, ApiError>)
    ensures
        match version {
            None => r == Ok::<u64, ApiError>(0),
            Some(v) => if v == 0 {
                r matches Err(ApiError::Type(m)) && m@ == "The version provided must not be 0."@
            } else { r == Ok::<u64, ApiError>(v) },
        },
{
    match version {
        None => Ok(0),
        Some(0) => Err(ApiError::Type("The version provided must not be 0.".to_string())),
        Some(v) => Ok(v),
    }
}

} // verus!
