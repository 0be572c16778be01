//! A processor that owns its state and is driven step by step.

use vstd::prelude::*;

verus! {

/// A unit of work that can be moved to, and shared between, threads.
pub trait RemotingProcessor: Send + Sync + Sized {
    /// Performs the next step of the work.
    fn process(&mut self);
}

} // verus!
