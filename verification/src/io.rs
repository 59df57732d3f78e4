//! The IO runtime that bridges the JavaScript thread and the storage
//! backend.

use vstd::prelude::*;

verus! {

/// IO runtime handle (the backend work itself runs on the pump).
pub struct IoRuntime;

impl IoRuntime {
    /// Creates the IO runtime.
    pub fn new() -> (r: Self) {
        IoRuntime
    }
}

impl Default for IoRuntime {
    fn default() -> (r: Self) {
        IoRuntime::new()
    }
}

} // verus!
