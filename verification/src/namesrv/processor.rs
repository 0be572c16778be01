//! The processor of the name service.

use vstd::prelude::*;

verus! {

/// Answers the commands that reach a name service.
pub struct NamesrvProcessor;

impl NamesrvProcessor {
    /// A processor.
    pub fn new() -> (processor: Self) {
        NamesrvProcessor
    }
}

} // verus!
