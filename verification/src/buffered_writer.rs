//! A handle for unbuffered writes to host file streams.
use vstd::prelude::*;

verus! {

/// Writes go straight to the host; the writer holds no state.
pub struct BufferedWriter;

impl BufferedWriter {
    pub fn new() -> (w: Self) {
        BufferedWriter
    }
}

} // verus!
