//! Failure kinds reported by the image-loading boundary around the scaler.
//! The scaler itself cannot fail on a well-sized input.

use vstd::prelude::*;

verus! {

/// What went wrong while bringing an image into or out of memory.
#[derive(Clone, Copy, Debug, PartialEq, Eq, Structural)]
pub enum XBRError {
    OpeningFile,
    LoadingFromMemory,
}

impl XBRError {
    /// A short description of the failure.
    pub fn message(&self) -> (s: &'static str)
        ensures
            s@ == "XBRError"@,
    {
        "XBRError"
    }
}

} // verus!
