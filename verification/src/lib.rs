//! A test-harness engine for compiler conformance suites.
//!
//! The library discovers test cases from a directory tree, stores them in a
//! compact arena-backed database, decides each test's verdict from the outcome
//! of the external process that ran it, and assembles the reporter's text.
//! All text is handled as raw bytes, since paths, shell commands and captured
//! standard-error streams need not be valid UTF-8.

pub mod global_configuration;
pub mod snapshot_testing;
pub mod state;
pub mod test_configuration;
pub mod test_database;
pub mod test_detector;
pub mod test_reporter;
pub mod test_runner;
pub mod text;
