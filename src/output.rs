//! The outcome of a test run, and its rendering as a report.

use vstd::prelude::*;
use crate::lines::{indented, push_indent, push_indent_level, spaces, write_indented};
use crate::style::{
    colors_enabled, doc_of, emit, emit_string, flat, painted, piece, plain, render_colored, render_plain,
    Doc, Segment, Tone,
};
use crate::text::{decimal, push_decimal};

verus! {

/// How a single test ended.
#[derive(Clone, Copy, Debug, PartialEq, Eq, Structural)]
pub enum Status {
    Passed,
    Failed,
    Skipped,
    Pending,
    Todo,
    Disabled,
}

/// One test's outcome.
pub struct AssertionResult {
    pub title: String,
    pub status: Status,
    pub failure_messages: Vec<String>,
    pub duration: Option<u64>,
    /// The enclosing groups, outermost first.
    pub ancestor_titles: Vec<String>,
}

/// Timing of a test file.
pub struct PerfStats {
    pub runtime: u64,
}

/// The outcome of one test file.
pub struct TestResult {
    pub test_file_path: String,
    pub num_failing_tests: u32,
    pub test_results: Vec<AssertionResult>,
    pub perf_stats: PerfStats,
    /// Set when the file itself failed to load or run.
    pub failure_message: Option<String>,
}

/// The aggregate outcome of a run.
pub struct Results {
    pub success: bool,
    pub num_failed_test_suites: u32,
    pub num_failed_tests: u32,
    pub num_passed_test_suites: u32,
    pub num_passed_tests: u32,
    pub num_pending_tests: u32,
    pub num_todo_tests: u32,
    pub num_pending_test_suites: u32,
    pub num_runtime_error_test_suites: u32,
    pub num_total_test_suites: u32,
    pub num_total_tests: u32,
    pub test_results: Vec<TestResult>,
}

/// What the remote runner reports at the end of a run.
pub struct Output {
    pub results: Results,
}

impl Output {
    /// Whether the run succeeded.
    pub fn was_successful(&self) -> (r: bool)
        ensures
            r == self.results.success,
    {
        self.results.success
    }
}

/// The views of a list of strings.
pub open spec fn titles(v: Seq<String>) -> Seq<Seq<char>> {
    v.map_values(|s: String| s@)
}

/// The length of the common prefix of `a` and `b`, counting from `i`.
pub open spec fn common_from(a: Seq<Seq<char>>, b: Seq<Seq<char>>, i: int) -> int
    decreases a.len() - i,
{
    if 0 <= i < a.len() && i < b.len() && a[i] == b[i] {
        common_from(a, b, i + 1)
    } else {
        i
    }
}

/// The length of the longest common prefix of `a` and `b`.
pub open spec fn common_len(a: Seq<Seq<char>>, b: Seq<Seq<char>>) -> int {
    common_from(a, b, 0)
}

/// The group headers at depths `from + 1` to `to`, each on its own line.
pub open spec fn ancestor_lines(anc: Seq<Seq<char>>, from: int, to: int) -> Doc
    decreases to - from,
{
    if to <= from {
        Seq::empty()
    } else {
        ancestor_lines(anc, from, to - 1) + plain(spaces(4 * to as nat) + anc[to - 1] + "\n"@)
    }
}

/// ` (Nms)` for a known duration, nothing otherwise.
pub open spec fn duration_text(d: Option<u64>) -> Seq<char> {
    match d {
        Some(n) => " ("@ + decimal(n as nat) + "ms)"@,
        None => Seq::empty(),
    }
}

/// The first `n` failure messages, each line behind `prefix`.
pub open spec fn messages_text(msgs: Seq<String>, n: int, prefix: Seq<char>) -> Doc
    decreases n,
{
    if n <= 0 {
        Seq::empty()
    } else {
        messages_text(msgs, n - 1, prefix) + indented(msgs[n - 1]@, prefix, Tone::BrightRed)
    }
}

/// The indentation of a test's own line: one level below its groups.
pub open spec fn test_indent(c: AssertionResult) -> Doc {
    plain(spaces(4 * (c.ancestor_titles@.len() + 1)))
}

/// A failed test's line, then its messages one level deeper.
#[verifier::opaque]
pub open spec fn failed_text(c: AssertionResult) -> Doc {
    test_indent(c) + piece("×"@, Tone::RedBold) + piece(" "@ + c.title@, Tone::Red)
        + piece(duration_text(c.duration), Tone::Dimmed) + plain("\n"@)
        + messages_text(c.failure_messages@, c.failure_messages@.len() as int, spaces(4 * (c.ancestor_titles@.len() + 2)))
}

/// A passed test's line.
#[verifier::opaque]
pub open spec fn passed_text(c: AssertionResult) -> Doc {
    test_indent(c) + piece("✓"@, Tone::Green) + plain(" "@ + c.title@)
        + piece(duration_text(c.duration), Tone::Dimmed) + plain("\n"@)
}

/// A pending or todo test's line: a mark and the title, both in tone `t`.
#[verifier::opaque]
pub open spec fn marked_text(c: AssertionResult, mark: Seq<char>, t: Tone) -> Doc {
    test_indent(c) + piece(mark, t) + plain(" "@) + piece(c.title@, t)
        + piece(duration_text(c.duration), Tone::Dimmed) + plain("\n"@)
}

/// The lines of one visible test; skipped and disabled tests show none.
pub open spec fn case_text(c: AssertionResult) -> Doc {
    match c.status {
        Status::Failed => failed_text(c),
        Status::Passed => passed_text(c),
        Status::Pending => marked_text(c, "○"@, Tone::Yellow),
        Status::Todo => marked_text(c, "✎"@, Tone::Blue),
        Status::Skipped => Seq::empty(),
        Status::Disabled => Seq::empty(),
    }
}

/// A test is shown when it failed, or always in verbose mode.
pub open spec fn is_visible(c: AssertionResult, verbose: bool) -> bool {
    c.status == Status::Failed || verbose
}

/// The position of the last visible test among the first `n`.
pub open spec fn last_shown(cases: Seq<AssertionResult>, n: int, verbose: bool) -> Option<int>
    decreases n,
{
    if n <= 0 {
        None
    } else if is_visible(cases[n - 1], verbose) {
        Some(n - 1)
    } else {
        last_shown(cases, n - 1, verbose)
    }
}

/// The group chain of the last visible test among the first `n` (empty
/// before any).
pub open spec fn current_chain(cases: Seq<AssertionResult>, n: int, verbose: bool) -> Seq<Seq<char>> {
    match last_shown(cases, n, verbose) {
        Some(j) => titles(cases[j].ancestor_titles@),
        None => Seq::empty(),
    }
}

/// The text for the first `n` tests of a file: each visible test behind
/// the group headers that the previous visible test did not share.
pub open spec fn cases_text(cases: Seq<AssertionResult>, n: int, verbose: bool) -> Doc
    decreases n,
{
    if n <= 0 {
        Seq::empty()
    } else {
        let prev = cases_text(cases, n - 1, verbose);
        let c = cases[n - 1];
        if !is_visible(c, verbose) {
            prev
        } else {
            let anc = titles(c.ancestor_titles@);
            prev + ancestor_lines(anc, common_len(current_chain(cases, n - 1, verbose), anc), anc.len() as int)
                + case_text(c)
        }
    }
}

/// The header line of a test file: mark, path, runtime.
#[verifier::opaque]
pub open spec fn file_header(f: TestResult) -> Doc {
    let icon = if f.num_failing_tests > 0 {
        piece("×"@, Tone::RedBold)
    } else {
        piece("✓"@, Tone::GreenBold)
    };
    icon + plain(" "@) + piece(f.test_file_path@, Tone::Bold) + plain(" "@)
        + piece("("@ + decimal(f.perf_stats.runtime as nat) + "ms)"@, Tone::Dimmed) + plain("\n"@)
}

/// Why a file failed to run.
pub open spec fn load_failure_text(msg: Seq<char>) -> Doc {
    plain("  "@) + piece("●"@, Tone::RedBold) + plain(" Test suite failed to run\n"@) + plain("\n"@)
        + indented(msg, "  "@, Tone::BrightRed)
}

/// The text for one test file.
pub open spec fn file_text(f: TestResult, verbose: bool) -> Doc {
    file_header(f) + if f.failure_message is Some && f.test_results@.len() == 0 {
        load_failure_text(f.failure_message->0@)
    } else {
        cases_text(f.test_results@, f.test_results@.len() as int, verbose)
    }
}

/// The text for the first `n` test files.
pub open spec fn files_text(files: Seq<TestResult>, n: int, verbose: bool) -> Doc
    decreases n,
{
    if n <= 0 {
        Seq::empty()
    } else {
        files_text(files, n - 1, verbose) + file_text(files[n - 1], verbose)
    }
}

/// `N label` for a nonzero count, behind `, ` when an earlier count was shown.
#[verifier::opaque]
pub open spec fn count_part(n: nat, label: Seq<char>, t: Tone, after: bool) -> Doc {
    if n == 0 {
        Seq::empty()
    } else {
        (if after { plain(", "@) } else { Seq::empty() }) + piece(decimal(n), t) + plain(label)
    }
}

/// The sum of the runtimes of the first `n` files.
pub open spec fn total_runtime(files: Seq<TestResult>, n: int) -> nat
    decreases n,
{
    if n <= 0 {
        0
    } else {
        total_runtime(files, n - 1) + files[n - 1].perf_stats.runtime as nat
    }
}

/// Failed suites on display: those that failed and those with a runtime error.
pub open spec fn failed_suites(r: Results) -> nat {
    r.num_failed_test_suites as nat + r.num_runtime_error_test_suites as nat
}

/// `, N total` and a line break.
pub open spec fn total_text(n: nat) -> Doc {
    plain(", "@ + decimal(n) + " total\n"@)
}

/// The suite counts of a run.
#[verifier::opaque]
pub open spec fn suites_line(r: Results) -> Doc {
    let fs = failed_suites(r);
    let ps = r.num_pending_test_suites as nat;
    piece("Test Suites:"@, Tone::Bold) + plain("\n"@) + plain("  "@)
        + count_part(fs, " failed"@, Tone::RedBold, false)
        + count_part(ps, " pending"@, Tone::Yellow, fs > 0)
        + count_part(r.num_passed_test_suites as nat, " passed"@, Tone::Green, fs > 0 || ps > 0)
        + total_text(r.num_total_test_suites as nat)
}

/// The test counts of a run.
#[verifier::opaque]
pub open spec fn tests_line(r: Results) -> Doc {
    let ft = r.num_failed_tests as nat;
    let pt = r.num_pending_tests as nat;
    let tt = r.num_todo_tests as nat;
    piece("Tests:"@, Tone::Bold) + plain("\n"@) + plain("  "@)
        + count_part(ft, " failed"@, Tone::RedBold, false)
        + count_part(pt, " pending"@, Tone::Yellow, ft > 0)
        + count_part(tt, " todo"@, Tone::Blue, ft > 0 || pt > 0)
        + count_part(r.num_passed_tests as nat, " passed"@, Tone::Green, ft > 0 || pt > 0 || tt > 0)
        + total_text(r.num_total_tests as nat)
}

/// The total time of a run: the sum of its files' runtimes.
#[verifier::opaque]
pub open spec fn time_line(r: Results) -> Doc {
    piece("Time:"@, Tone::Bold)
        + plain(" "@ + decimal(total_runtime(r.test_results@, r.test_results@.len() as int)) + "ms\n"@)
}

/// The summary of a run: suites, tests and total time.
pub open spec fn summary_text(r: Results) -> Doc {
    suites_line(r) + tests_line(r) + time_line(r)
}

/// The whole report, styled: every file in order, a blank line, the summary.
pub open spec fn report_segments(o: Output, verbose: bool) -> Doc {
    files_text(o.results.test_results@, o.results.test_results@.len() as int, verbose) + plain("\n"@)
        + summary_text(o.results)
}

/// The whole report as plain text.
pub open spec fn report_text(o: Output, verbose: bool) -> Seq<char> {
    flat(report_segments(o, verbose))
}

/// Renders the outcome of a run as a report.
pub struct Formatter {
    /// Show passing, pending and todo tests too, not only failures.
    pub verbose: bool,
    /// Hand the pieces to the terminal-color library; plain text otherwise.
    pub colors: bool,
}

/// The length of the longest common prefix of two title chains.
fn common_prefix_len(a: &Vec<String>, b: &Vec<String>) -> (r: usize)
    ensures
        r == common_len(titles(a@), titles(b@)),
        r <= b@.len(),
{
    let mut i: usize = 0;
    while i < a.len() && i < b.len() && a[i] == b[i]
        invariant
            i <= a@.len(),
            i <= b@.len(),
            common_from(titles(a@), titles(b@), i as int) == common_len(titles(a@), titles(b@)),
        decreases a@.len() - i,
    {
        assert(titles(a@)[i as int] == titles(b@)[i as int]);
        i = i + 1;
    }
    i
}

/// ` (Nms)` for a known duration, nothing otherwise.
fn duration_string(d: Option<u64>) -> (r: String)
    ensures
        r@ == duration_text(d),
{
    match d {
        Some(n) => {
            let mut s = String::from_str(" (");
            push_decimal(&mut s, n as u128);
            s.append("ms)");
            s
        },
        None => String::new(),
    }
}

/// The decimal notation of `n`.
fn decimal_string(n: u128) -> (r: String)
    ensures
        r@ == decimal(n as nat),
{
    let mut s = String::new();
    push_decimal(&mut s, n);
    assert(s@ =~= decimal(n as nat));
    s
}

/// Appends `, N total` and a line break.
fn write_total(doc: &mut Vec<Segment>, n: u32)
    ensures
        doc_of(final(doc)@) == doc_of(old(doc)@) + total_text(n as nat),
{
    let mut s = String::from_str(", ");
    push_decimal(&mut s, n as u128);
    s.append(" total\n");
    emit_string(doc, s, Tone::Plain);
}

impl Formatter {
    /// A formatter that uses colors when the environment asks for them.
    pub fn new(verbose: bool) -> (r: Formatter)
        ensures
            r.verbose == verbose,
    {
        Formatter { verbose, colors: colors_enabled() }
    }

    /// A formatter with colors switched on or off.
    pub fn with_colors(verbose: bool, colors: bool) -> (r: Formatter)
        ensures
            r.verbose == verbose,
            r.colors == colors,
    {
        Formatter { verbose, colors }
    }

    /// The report for a run, as styled pieces: each test file in the given
    /// order, a blank line, then the summary.
    pub fn format_segments(&self, output: &Output) -> (r: Vec<Segment>)
        ensures
            doc_of(r@) == report_segments(*output, self.verbose),
    {
        let mut doc: Vec<Segment> = Vec::new();
        assert(doc_of(doc@) =~= Seq::<(Seq<char>, Tone)>::empty());
        self.write_test_results(&mut doc, &output.results.test_results);
        emit(&mut doc, "\n", Tone::Plain);
        self.write_summary(&mut doc, &output.results);
        assert(doc_of(doc@) =~= report_segments(*output, self.verbose));
        doc
    }

    /// The report for a run as text: plain without colors; with colors,
    /// each piece as the terminal-color library writes it.
    pub fn format_output(&self, output: &Output) -> (r: String)
        ensures
            !self.colors ==> r@ == report_text(*output, self.verbose),
            self.colors ==> exists|on: Seq<bool>|
                on.len() == report_segments(*output, self.verbose).len()
                && r@ == #[trigger] painted(report_segments(*output, self.verbose), on),
    {
        let doc = self.format_segments(output);
        assert(doc_of(doc@).len() == doc@.len());
        if self.colors {
            render_colored(&doc)
        } else {
            render_plain(&doc)
        }
    }

    /// Appends `N label` for a nonzero count, behind `, ` when `after`.
    fn push_count(&self, doc: &mut Vec<Segment>, n: u64, label: &str, t: Tone, after: bool)
        ensures
            doc_of(final(doc)@) == doc_of(old(doc)@) + count_part(n as nat, label@, t, after),
    {
        reveal(count_part);
        if n > 0 {
            if after {
                emit(doc, ", ", Tone::Plain);
            }
            emit_string(doc, decimal_string(n as u128), t);
            emit(doc, label, Tone::Plain);
        }
        assert(doc_of(doc@) =~= doc_of(old(doc)@) + count_part(n as nat, label@, t, after));
    }

    /// Appends the summary: suite counts, test counts, total time.
    fn write_summary(&self, doc: &mut Vec<Segment>, results: &Results)
        ensures
            doc_of(final(doc)@) == doc_of(old(doc)@) + summary_text(*results),
    {
        self.write_suite_counts(doc, results);
        self.write_test_counts(doc, results);
        self.write_time(doc, results);
        assert(doc_of(doc@) =~= doc_of(old(doc)@) + summary_text(*results));
    }

    /// Appends the suite counts.
    fn write_suite_counts(&self, doc: &mut Vec<Segment>, results: &Results)
        ensures
            doc_of(final(doc)@) == doc_of(old(doc)@) + suites_line(*results),
    {
        reveal(suites_line);
        emit(doc, "Test Suites:", Tone::Bold);
        emit(doc, "\n", Tone::Plain);
        emit(doc, "  ", Tone::Plain);
        let fs: u64 = results.num_failed_test_suites as u64 + results.num_runtime_error_test_suites as u64;
        let ps: u64 = results.num_pending_test_suites as u64;
        assert(fs as nat == failed_suites(*results));
        self.push_count(doc, fs, " failed", Tone::RedBold, false);
        self.push_count(doc, ps, " pending", Tone::Yellow, fs > 0);
        self.push_count(doc, results.num_passed_test_suites as u64, " passed", Tone::Green, fs > 0 || ps > 0);
        write_total(doc, results.num_total_test_suites);
        assert(doc_of(doc@) =~= doc_of(old(doc)@) + suites_line(*results));
    }

    /// Appends the test counts.
    fn write_test_counts(&self, doc: &mut Vec<Segment>, results: &Results)
        ensures
            doc_of(final(doc)@) == doc_of(old(doc)@) + tests_line(*results),
    {
        reveal(tests_line);
        emit(doc, "Tests:", Tone::Bold);
        emit(doc, "\n", Tone::Plain);
        emit(doc, "  ", Tone::Plain);
        let ft: u64 = results.num_failed_tests as u64;
        let pt: u64 = results.num_pending_tests as u64;
        let tt: u64 = results.num_todo_tests as u64;
        self.push_count(doc, ft, " failed", Tone::RedBold, false);
        self.push_count(doc, pt, " pending", Tone::Yellow, ft > 0);
        self.push_count(doc, tt, " todo", Tone::Blue, ft > 0 || pt > 0);
        self.push_count(doc, results.num_passed_tests as u64, " passed", Tone::Green, ft > 0 || pt > 0 || tt > 0);
        write_total(doc, results.num_total_tests);
        assert(doc_of(doc@) =~= doc_of(old(doc)@) + tests_line(*results));
    }

    /// Appends the total time.
    fn write_time(&self, doc: &mut Vec<Segment>, results: &Results)
        ensures
            doc_of(final(doc)@) == doc_of(old(doc)@) + time_line(*results),
    {
        reveal(time_line);
        emit(doc, "Time:", Tone::Bold);
        let mut s = String::from_str(" ");
        push_decimal(&mut s, self.total_duration(&results.test_results));
        s.append("ms\n");
        emit_string(doc, s, Tone::Plain);
        assert(doc_of(doc@) =~= doc_of(old(doc)@) + time_line(*results));
    }

    /// Appends every test file's section, in the given order.
    fn write_test_results(&self, doc: &mut Vec<Segment>, files: &Vec<TestResult>)
        ensures
            doc_of(final(doc)@) == doc_of(old(doc)@) + files_text(files@, files@.len() as int, self.verbose),
    {
        let mut i: usize = 0;
        assert(doc_of(old(doc)@) =~= doc_of(old(doc)@) + files_text(files@, 0, self.verbose));
        while i < files.len()
            invariant
                i <= files@.len(),
                doc_of(doc@) == doc_of(old(doc)@) + files_text(files@, i as int, self.verbose),
            decreases files@.len() - i,
        {
            self.write_test_file(doc, &files[i]);
            i = i + 1;
            assert(doc_of(doc@) =~= doc_of(old(doc)@) + files_text(files@, i as int, self.verbose));
        }
    }

    /// Appends the group headers at depths `from + 1` and deeper.
    fn write_ancestors(&self, doc: &mut Vec<Segment>, anc: &Vec<String>, from: usize)
        requires
            from <= anc@.len(),
        ensures
            doc_of(final(doc)@) == doc_of(old(doc)@) + ancestor_lines(titles(anc@), from as int, anc@.len() as int),
    {
        let mut i: usize = from;
        assert(doc_of(old(doc)@) =~= doc_of(old(doc)@) + ancestor_lines(titles(anc@), from as int, from as int));
        while i < anc.len()
            invariant
                from <= i <= anc@.len(),
                doc_of(doc@) == doc_of(old(doc)@) + ancestor_lines(titles(anc@), from as int, i as int),
            decreases anc@.len() - i,
        {
            let mut line = String::new();
            push_indent(&mut line, i);
            push_indent_level(&mut line);
            line.append(anc[i].as_str());
            line.append("\n");
            assert(spaces(4 * i as nat) + spaces(4) =~= spaces(4 * (i + 1) as nat));
            emit_string(doc, line, Tone::Plain);
            i = i + 1;
            assert(doc_of(doc@) =~= doc_of(old(doc)@) + ancestor_lines(titles(anc@), from as int, i as int));
        }
    }

    /// Appends the lines of one visible test.
    fn write_case(&self, doc: &mut Vec<Segment>, c: &AssertionResult)
        ensures
            doc_of(final(doc)@) == doc_of(old(doc)@) + case_text(*c),
    {
        match c.status {
            Status::Failed => self.write_failed(doc, c),
            Status::Passed => self.write_passed(doc, c),
            Status::Pending => self.write_marked(doc, c, "○", Tone::Yellow),
            Status::Todo => self.write_marked(doc, c, "✎", Tone::Blue),
            Status::Skipped => {
                assert(doc_of(doc@) =~= doc_of(old(doc)@) + case_text(*c));
            },
            Status::Disabled => {
                assert(doc_of(doc@) =~= doc_of(old(doc)@) + case_text(*c));
            },
        }
    }

    /// Appends the indentation of a test's own line.
    fn write_test_indent(&self, doc: &mut Vec<Segment>, c: &AssertionResult)
        ensures
            doc_of(final(doc)@) == doc_of(old(doc)@) + test_indent(*c),
    {
        let depth = c.ancestor_titles.len();
        let mut s = String::new();
        push_indent(&mut s, depth);
        push_indent_level(&mut s);
        assert(s@ =~= spaces(4 * (depth + 1) as nat));
        emit_string(doc, s, Tone::Plain);
    }

    /// Appends a failed test's line and its messages.
    fn write_failed(&self, doc: &mut Vec<Segment>, c: &AssertionResult)
        ensures
            doc_of(final(doc)@) == doc_of(old(doc)@) + failed_text(*c),
    {
        reveal(failed_text);
        let depth = c.ancestor_titles.len();
        self.write_test_indent(doc, c);
        emit(doc, "×", Tone::RedBold);
        let mut title = String::from_str(" ");
        title.append(c.title.as_str());
        emit_string(doc, title, Tone::Red);
        emit_string(doc, duration_string(c.duration), Tone::Dimmed);
        emit(doc, "\n", Tone::Plain);
        let ghost head = doc_of(doc@);
        let mut prefix = String::new();
        push_indent(&mut prefix, depth);
        push_indent_level(&mut prefix);
        push_indent_level(&mut prefix);
        assert(prefix@ =~= spaces(4 * (depth + 2) as nat));
        let mut k: usize = 0;
        assert(head =~= head + messages_text(c.failure_messages@, 0, prefix@));
        while k < c.failure_messages.len()
            invariant
                k <= c.failure_messages@.len(),
                prefix@ == spaces(4 * (depth + 2) as nat),
                doc_of(doc@) == head + messages_text(c.failure_messages@, k as int, prefix@),
            decreases c.failure_messages@.len() - k,
        {
            write_indented(doc, c.failure_messages[k].as_str(), prefix.as_str(), Tone::BrightRed);
            k = k + 1;
            assert(doc_of(doc@) =~= head + messages_text(c.failure_messages@, k as int, prefix@));
        }
        assert(doc_of(doc@) =~= doc_of(old(doc)@) + failed_text(*c));
    }

    /// Appends a passed test's line.
    fn write_passed(&self, doc: &mut Vec<Segment>, c: &AssertionResult)
        ensures
            doc_of(final(doc)@) == doc_of(old(doc)@) + passed_text(*c),
    {
        reveal(passed_text);
        self.write_test_indent(doc, c);
        emit(doc, "✓", Tone::Green);
        let mut title = String::from_str(" ");
        title.append(c.title.as_str());
        emit_string(doc, title, Tone::Plain);
        emit_string(doc, duration_string(c.duration), Tone::Dimmed);
        emit(doc, "\n", Tone::Plain);
        assert(doc_of(doc@) =~= doc_of(old(doc)@) + passed_text(*c));
    }

    /// Appends a test line made of a mark and the title, both in tone `t`.
    fn write_marked(&self, doc: &mut Vec<Segment>, c: &AssertionResult, mark: &str, t: Tone)
        ensures
            doc_of(final(doc)@) == doc_of(old(doc)@) + marked_text(*c, mark@, t),
    {
        reveal(marked_text);
        self.write_test_indent(doc, c);
        emit(doc, mark, t);
        emit(doc, " ", Tone::Plain);
        emit(doc, c.title.as_str(), t);
        emit_string(doc, duration_string(c.duration), Tone::Dimmed);
        emit(doc, "\n", Tone::Plain);
        assert(doc_of(doc@) =~= doc_of(old(doc)@) + marked_text(*c, mark@, t));
    }

    /// Appends the visible tests of a file, each behind the group headers
    /// that differ from those of the test shown before it.
    fn write_cases(&self, doc: &mut Vec<Segment>, cases: &Vec<AssertionResult>)
        ensures
            doc_of(final(doc)@) == doc_of(old(doc)@) + cases_text(cases@, cases@.len() as int, self.verbose),
    {
        let mut current: Option<usize> = None;
        let mut i: usize = 0;
        assert(doc_of(old(doc)@) =~= doc_of(old(doc)@) + cases_text(cases@, 0, self.verbose));
        while i < cases.len()
            invariant
                i <= cases@.len(),
                doc_of(doc@) == doc_of(old(doc)@) + cases_text(cases@, i as int, self.verbose),
                current matches Some(j) ==> j < i,
                current matches Some(j) ==> last_shown(cases@, i as int, self.verbose) == Some(j as int),
                current is None ==> last_shown(cases@, i as int, self.verbose) is None,
            decreases cases@.len() - i,
        {
            let c = &cases[i];
            if c.status == Status::Failed || self.verbose {
                let common = match current {
                    Some(j) => common_prefix_len(&cases[j].ancestor_titles, &c.ancestor_titles),
                    None => 0,
                };
                assert(common == common_len(current_chain(cases@, i as int, self.verbose), titles(c.ancestor_titles@)));
                self.write_ancestors(doc, &c.ancestor_titles, common);
                self.write_case(doc, c);
                assert(doc_of(doc@) =~= doc_of(old(doc)@) + cases_text(cases@, i + 1, self.verbose));
                current = Some(i);
            }
            i = i + 1;
        }
    }

    /// Appends one test file's section: its header, then either why it
    /// failed to run or its visible tests.
    fn write_test_file(&self, doc: &mut Vec<Segment>, f: &TestResult)
        ensures
            doc_of(final(doc)@) == doc_of(old(doc)@) + file_text(*f, self.verbose),
    {
        self.write_file_header(doc, f);
        match &f.failure_message {
            Some(msg) => {
                if f.test_results.len() == 0 {
                    self.write_load_failure(doc, msg.as_str());
                    assert(doc_of(doc@) =~= doc_of(old(doc)@) + file_text(*f, self.verbose));
                    return;
                }
            },
            None => {},
        }
        self.write_cases(doc, &f.test_results);
        assert(doc_of(doc@) =~= doc_of(old(doc)@) + file_text(*f, self.verbose));
    }

    /// Appends why a file failed to run.
    fn write_load_failure(&self, doc: &mut Vec<Segment>, msg: &str)
        ensures
            doc_of(final(doc)@) == doc_of(old(doc)@) + load_failure_text(msg@),
    {
        emit(doc, "  ", Tone::Plain);
        emit(doc, "●", Tone::RedBold);
        emit(doc, " Test suite failed to run\n", Tone::Plain);
        emit(doc, "\n", Tone::Plain);
        write_indented(doc, msg, "  ", Tone::BrightRed);
        assert(doc_of(doc@) =~= doc_of(old(doc)@) + load_failure_text(msg@));
    }

    /// Appends a file's header line: mark, path, runtime.
    fn write_file_header(&self, doc: &mut Vec<Segment>, f: &TestResult)
        ensures
            doc_of(final(doc)@) == doc_of(old(doc)@) + file_header(*f),
    {
        reveal(file_header);
        if f.num_failing_tests > 0 {
            emit(doc, "×", Tone::RedBold);
        } else {
            emit(doc, "✓", Tone::GreenBold);
        }
        emit(doc, " ", Tone::Plain);
        emit(doc, f.test_file_path.as_str(), Tone::Bold);
        emit(doc, " ", Tone::Plain);
        let mut time = String::from_str("(");
        push_decimal(&mut time, f.perf_stats.runtime as u128);
        time.append("ms)");
        emit_string(doc, time, Tone::Dimmed);
        emit(doc, "\n", Tone::Plain);
        assert(doc_of(doc@) =~= doc_of(old(doc)@) + file_header(*f));
    }

    /// The sum of the files' runtimes.
    fn total_duration(&self, files: &Vec<TestResult>) -> (r: u128)
        ensures
            r == total_runtime(files@, files@.len() as int),
    {
        let mut total: u128 = 0;
        let mut i: usize = 0;
        while i < files.len()
            invariant
                i <= files@.len(),
                total == total_runtime(files@, i as int),
                total <= i * 0xFFFF_FFFF_FFFF_FFFFu128,
            decreases files@.len() - i,
        {
            total = total + files[i].perf_stats.runtime as u128;
            i = i + 1;
        }
        total
    }
}

/// A chain shares all of itself with itself, counting from `i`.
proof fn lemma_common_self(a: Seq<Seq<char>>, i: int)
    requires
        0 <= i <= a.len(),
    ensures
        common_from(a, a, i) == a.len(),
    decreases a.len() - i,
{
    if i < a.len() {
        lemma_common_self(a, i + 1);
    }
}

/// A visible test whose groups are those of the test shown before it
/// prints no group header: only its own lines are added.
pub proof fn lemma_shared_groups_printed_once(cases: Seq<AssertionResult>, n: int, verbose: bool, j: int)
    requires
        0 < n <= cases.len(),
        is_visible(cases[n - 1], verbose),
        last_shown(cases, n - 1, verbose) == Some(j),
        titles(cases[j].ancestor_titles@) == titles(cases[n - 1].ancestor_titles@),
    ensures
        cases_text(cases, n, verbose) == cases_text(cases, n - 1, verbose) + case_text(cases[n - 1]),
{
    let anc = titles(cases[n - 1].ancestor_titles@);
    lemma_common_self(anc, 0);
    assert(ancestor_lines(anc, anc.len() as int, anc.len() as int) == Seq::<(Seq<char>, Tone)>::empty());
    assert(cases_text(cases, n - 1, verbose) + Seq::<(Seq<char>, Tone)>::empty() =~= cases_text(cases, n - 1, verbose));
}

/// Out of verbose mode, a test that did not fail adds nothing to the report.
pub proof fn lemma_quiet_hides_unfailed(cases: Seq<AssertionResult>, n: int)
    requires
        0 < n <= cases.len(),
        cases[n - 1].status != Status::Failed,
    ensures
        cases_text(cases, n, false) == cases_text(cases, n - 1, false),
{
}

/// In verbose mode, a passed test adds its line, after the group headers
/// it does not share with the test shown before it.
pub proof fn lemma_verbose_shows_passed(cases: Seq<AssertionResult>, n: int)
    requires
        0 < n <= cases.len(),
        cases[n - 1].status == Status::Passed,
    ensures
        exists|headers: Doc| cases_text(cases, n, true)
            == #[trigger] (cases_text(cases, n - 1, true) + headers) + passed_text(cases[n - 1]),
{
    let anc = titles(cases[n - 1].ancestor_titles@);
    let headers = ancestor_lines(anc, common_len(current_chain(cases, n - 1, true), anc), anc.len() as int);
    assert(cases_text(cases, n, true) == (cases_text(cases, n - 1, true) + headers) + passed_text(cases[n - 1]));
}

} // verus!
