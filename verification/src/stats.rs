//! Counters for a processing run.

use vstd::prelude::*;

verus! {

/// How many posts a run processed, split by outcome.
pub struct ProcessingStats {
    pub successful: usize,
    pub failed: usize,
    pub total: usize,
}

impl ProcessingStats {
    /// Fresh counters, all zero.
    pub fn new() -> (r: ProcessingStats)
        ensures
            r.successful == 0 && r.failed == 0 && r.total == 0,
    {
        ProcessingStats { successful: 0, failed: 0, total: 0 }
    }
}

} // verus!
