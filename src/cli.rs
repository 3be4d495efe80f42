//! The command line's settings.

use vstd::prelude::*;

verus! {

/// Settings given on the command line.
pub struct Cli {
    /// The remote paths in which the runner discovers tests.
    pub projects: Vec<String>,
    /// The project's directory, under which every real root lies.
    pub path: String,
    /// Seconds to wait for results.
    pub server_timeout: u64,
    /// Clear the remote output before the run.
    pub clear_output: bool,
    /// Options handed on to the runner.
    pub options: JestOptions,
}

/// Options handed on to the remote test runner.
pub struct JestOptions {
    pub clear_mocks: bool,
    pub expand: bool,
    pub no_stack_trace: bool,
    pub old_function_spying: bool,
    pub pass_with_no_tests: bool,
    pub reset_mocks: bool,
    pub test_match: Vec<String>,
    pub test_name_pattern: Option<String>,
    pub test_path_ignore_patterns: Vec<String>,
    pub test_path_pattern: Option<String>,
    /// Default timeout of a test, in milliseconds.
    pub test_timeout: u32,
    /// Show every test with its groups, not only failures.
    pub verbose: bool,
}

} // verus!
