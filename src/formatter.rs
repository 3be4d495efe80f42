//! A report renderer with the same output as [`crate::output::Formatter`].

use vstd::prelude::*;
use crate::output::{report_segments, report_text, Formatter, Output};
use crate::style::painted;
use crate::style::colors_enabled;

verus! {

/// Renders the outcome of a run as a report.
pub struct JestFormatter {
    /// Show passing, pending and todo tests too, not only failures.
    pub verbose: bool,
    /// Hand the pieces to the terminal-color library; plain text otherwise.
    pub colors: bool,
}

impl JestFormatter {
    /// A formatter that uses colors when the environment asks for them.
    pub fn new(verbose: bool) -> (r: JestFormatter)
        ensures
            r.verbose == verbose,
    {
        JestFormatter { verbose, colors: colors_enabled() }
    }

    /// The report for a run: each test file in the given order, a blank
    /// line, then the summary.
    pub fn format_output(&self, output: &Output) -> (r: String)
        ensures
            !self.colors ==> r@ == report_text(*output, self.verbose),
            self.colors ==> exists|on: Seq<bool>|
                on.len() == report_segments(*output, self.verbose).len()
                && r@ == #[trigger] painted(report_segments(*output, self.verbose), on),
    {
        let f = Formatter::with_colors(self.verbose, self.colors);
        f.format_output(output)
    }
}

} // verus!
