//! The test harness's error type: why a gateway or mock stack could not be
//! started.

use vstd::prelude::*;

verus! {

/// Why a test stack could not be spawned.
#[derive(Debug)]
pub struct SpawnError(pub String);

impl SpawnError {
    /// The error's message (its display form).
    pub fn to_string(&self) -> (s: String)
        ensures
            s@ == self.0@,
    {
        self.0.clone()
    }
}

} // verus!
