//! The immutable configuration of one run of the harness.

use vstd::prelude::*;

verus! {

/// What a whole run is parameterized over: the executable under test, the
/// base directory of the test tree, and the reporting flags.
pub struct TestRunnerConfig {
    /// Canonicalized path of the executable under test.
    pub mcc_path: Vec<u8>,
    /// Canonicalized path of the base directory of all test files.
    pub base_dir: Vec<u8>,
    /// Suppress all output except for test failures.
    pub quiet: bool,
    /// On a snapshot mismatch, offer to overwrite the approved file.
    pub interactive: bool,
}

/// Builds the run configuration from already-canonicalized paths and the
/// reporting flags, as the surrounding program read them from the command
/// line.
pub fn global_config(mcc_path: Vec<u8>, base_dir: Vec<u8>, quiet: bool, interactive: bool) -> (c:
    TestRunnerConfig)
    ensures
        c.mcc_path == mcc_path,
        c.base_dir == base_dir,
        c.quiet == quiet,
        c.interactive == interactive,
{
    TestRunnerConfig { mcc_path, base_dir, quiet, interactive }
}

} // verus!
