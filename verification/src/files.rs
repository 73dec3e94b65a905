//! What reading a file came to, as plain values.

use vstd::prelude::*;

verus! {

/// Why a file could not be read.
#[derive(Debug)]
pub struct ReadFailure {
    /// Whether there is no such file.
    pub missing: bool,
    /// What the system said.
    pub message: String,
}

} // verus!
