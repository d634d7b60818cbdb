//! Running counters of a test run.

use vstd::prelude::*;

verus! {

/// The counters the first reporting pass keeps while it walks the results.
pub struct TestRunnerStates {
    pub failed_test_count: usize,
    pub total_test_count: usize,
}

impl TestRunnerStates {
    /// Starts a run with nothing counted yet.
    pub fn new() -> (s: Self)
        ensures
            s.failed_test_count == 0,
            s.total_test_count == 0,
    {
        Self { failed_test_count: 0, total_test_count: 0 }
    }
}

} // verus!
