use jest_companion::formatter::JestFormatter;
use jest_companion::style::Tone;
use jest_companion::output::{
    AssertionResult, Formatter, Output, PerfStats, Results, Status, TestResult,
};

fn case(title: &str, status: Status, ancestors: &[&str], messages: &[&str], duration: Option<u64>) -> AssertionResult {
    AssertionResult {
        title: title.to_string(),
        status,
        failure_messages: messages.iter().map(|m| m.to_string()).collect(),
        duration,
        ancestor_titles: ancestors.iter().map(|a| a.to_string()).collect(),
    }
}

fn file(path: &str, failing: u32, runtime: u64, cases: Vec<AssertionResult>) -> TestResult {
    TestResult {
        test_file_path: path.to_string(),
        num_failing_tests: failing,
        test_results: cases,
        perf_stats: PerfStats { runtime },
        failure_message: None,
    }
}

fn results(files: Vec<TestResult>) -> Results {
    Results {
        success: true,
        num_failed_test_suites: 0,
        num_failed_tests: 0,
        num_passed_test_suites: 0,
        num_passed_tests: 0,
        num_pending_tests: 0,
        num_todo_tests: 0,
        num_pending_test_suites: 0,
        num_runtime_error_test_suites: 0,
        num_total_test_suites: 0,
        num_total_tests: 0,
        test_results: files,
    }
}

fn render(files: Vec<TestResult>, verbose: bool) -> String {
    let out = Output { results: results(files) };
    Formatter::with_colors(verbose, false).format_output(&out)
}

const EMPTY_SUMMARY: &str = "Test Suites:\n  , 0 total\nTests:\n  , 0 total\nTime: 0ms\n";

fn math_file() -> TestResult {
    file(
        "math.spec.lua",
        1,
        12,
        vec![
            case("adds", Status::Passed, &["Math"], &[], None),
            case("subtracts", Status::Failed, &["Math"], &["expected 2 got 3"], None),
        ],
    )
}

#[test]
fn end_to_end_quiet() {
    let text = render(vec![math_file()], false);
    let body = "× math.spec.lua (12ms)\n    Math\n        × subtracts\n            expected 2 got 3\n";
    assert_eq!(text, format!("{body}\nTest Suites:\n  , 0 total\nTests:\n  , 0 total\nTime: 12ms\n"));
    assert_eq!(text.matches("Math").count(), 1);
    assert!(!text.contains("adds"));
}

#[test]
fn end_to_end_verbose() {
    let text = render(vec![math_file()], true);
    let body = "× math.spec.lua (12ms)\n    Math\n        ✓ adds\n        × subtracts\n            expected 2 got 3\n";
    assert!(text.starts_with(body));
    assert_eq!(text.matches("Math").count(), 1);
}

#[test]
fn shared_groups_printed_once() {
    let f = file(
        "a.lua",
        2,
        1,
        vec![
            case("one", Status::Failed, &["Suite A", "Group B"], &[], None),
            case("two", Status::Failed, &["Suite A", "Group B"], &[], None),
        ],
    );
    let text = render(vec![f], false);
    let body = "× a.lua (1ms)\n    Suite A\n        Group B\n            × one\n            × two\n";
    assert_eq!(text, format!("{body}\n{EMPTY_SUMMARY}").replace("Time: 0ms", "Time: 1ms"));
}

#[test]
fn only_differing_groups_are_printed() {
    let f = file(
        "a.lua",
        0,
        0,
        vec![
            case("one", Status::Passed, &["A", "B"], &[], Some(4)),
            case("two", Status::Passed, &["A", "C"], &[], None),
            case("three", Status::Passed, &[], &[], None),
            case("four", Status::Passed, &["A"], &[], None),
        ],
    );
    let text = render(vec![f], true);
    let body = "✓ a.lua (0ms)\n    A\n        B\n            ✓ one (4ms)\n        C\n            ✓ two\n    ✓ three\n    A\n        ✓ four\n";
    assert!(text.starts_with(body), "{text}");
}

#[test]
fn hidden_tests_do_not_change_groups() {
    let f = file(
        "a.lua",
        2,
        0,
        vec![
            case("one", Status::Failed, &["A"], &[], None),
            case("two", Status::Passed, &["B"], &[], None),
            case("three", Status::Failed, &["A"], &[], None),
        ],
    );
    let text = render(vec![f], false);
    assert!(text.starts_with("× a.lua (0ms)\n    A\n        × one\n        × three\n\n"), "{text}");
}

#[test]
fn passed_test_hidden_unless_verbose() {
    let f = file("a.lua", 0, 0, vec![case("works", Status::Passed, &[], &[], Some(7))]);
    assert_eq!(render(vec![f], false), format!("✓ a.lua (0ms)\n\n{EMPTY_SUMMARY}"));
    let f = file("a.lua", 0, 0, vec![case("works", Status::Passed, &[], &[], Some(7))]);
    assert!(render(vec![f], true).starts_with("✓ a.lua (0ms)\n    ✓ works (7ms)\n\n"));
}

#[test]
fn each_status_line() {
    let f = file(
        "s.lua",
        1,
        3,
        vec![
            case("p", Status::Pending, &[], &[], None),
            case("t", Status::Todo, &[], &[], None),
            case("s", Status::Skipped, &["G"], &[], None),
            case("d", Status::Disabled, &[], &[], None),
            case("f", Status::Failed, &[], &["line one\r\nline two\n"], Some(9)),
        ],
    );
    let text = render(vec![f], true);
    let expected = "× s.lua (3ms)\n    ○ p\n    ✎ t\n    G\n    × f (9ms)\n        line one\n        line two\n\n";
    assert!(text.starts_with(expected), "{text}");
}

#[test]
fn suite_that_failed_to_run() {
    let mut f = file("broken.lua", 1, 5, vec![]);
    f.failure_message = Some("boom\nat line 3".to_string());
    let text = render(vec![f], false);
    let body = "× broken.lua (5ms)\n  ● Test suite failed to run\n\n  boom\n  at line 3\n";
    assert!(text.starts_with(&format!("{body}\n")), "{text}");
}

#[test]
fn failure_message_ignored_when_tests_present() {
    let mut f = file("a.lua", 1, 0, vec![case("x", Status::Failed, &[], &[], None)]);
    f.failure_message = Some("ignored".to_string());
    let text = render(vec![f], false);
    assert!(text.starts_with("× a.lua (0ms)\n    × x\n\n"), "{text}");
    assert!(!text.contains("ignored"));
}

#[test]
fn summary_orders_and_omits_zero_counts() {
    let mut r = results(vec![]);
    r.num_failed_tests = 2;
    r.num_passed_tests = 5;
    r.num_total_tests = 7;
    let text = Formatter::with_colors(false, false).format_output(&Output { results: r });
    assert!(text.contains("Tests:\n  2 failed, 5 passed, 7 total\n"), "{text}");
}

#[test]
fn summary_all_categories() {
    let mut r = results(vec![file("a", 0, 30, vec![]), file("b", 0, 12, vec![])]);
    r.num_failed_test_suites = 1;
    r.num_runtime_error_test_suites = 2;
    r.num_pending_test_suites = 4;
    r.num_passed_test_suites = 5;
    r.num_total_test_suites = 12;
    r.num_failed_tests = 1;
    r.num_pending_tests = 2;
    r.num_todo_tests = 3;
    r.num_passed_tests = 4;
    r.num_total_tests = 10;
    let text = Formatter::with_colors(false, false).format_output(&Output { results: r });
    assert!(text.ends_with(
        "\nTest Suites:\n  3 failed, 4 pending, 5 passed, 12 total\nTests:\n  1 failed, 2 pending, 3 todo, 4 passed, 10 total\nTime: 42ms\n"
    ), "{text}");
}

#[test]
fn summary_when_all_counts_are_zero() {
    assert_eq!(render(vec![], false), format!("\n{EMPTY_SUMMARY}"));
}

#[test]
fn summary_skips_leading_zero_categories() {
    let mut r = results(vec![]);
    r.num_todo_tests = 3;
    r.num_total_tests = 3;
    r.num_pending_test_suites = 1;
    r.num_total_test_suites = 1;
    let text = Formatter::with_colors(false, false).format_output(&Output { results: r });
    assert!(text.contains("Test Suites:\n  1 pending, 1 total\nTests:\n  3 todo, 3 total\n"), "{text}");
}

#[test]
fn large_runtimes_are_summed_exactly() {
    let r = results(vec![file("a", 0, u64::MAX, vec![]), file("b", 0, 1, vec![])]);
    let text = Formatter::with_colors(false, false).format_output(&Output { results: r });
    assert!(text.ends_with("Time: 18446744073709551616ms\n"), "{text}");
}

#[test]
fn colored_output_uses_terminal_sequences() {
    colored::control::set_override(true);
    let mut r = results(vec![math_file()]);
    r.num_failed_tests = 2;
    let text = Formatter::with_colors(false, true).format_output(&Output { results: r });
    assert!(text.starts_with("\u{1b}[1;31m×\u{1b}[0m "), "{text:?}");
    assert!(text.contains("\u{1b}[1mmath.spec.lua\u{1b}[0m \u{1b}[2m(12ms)\u{1b}[0m\n"), "{text:?}");
    assert!(text.contains("\u{1b}[91m            expected 2 got 3\u{1b}[0m\n"), "{text:?}");
    assert!(text.contains("\u{1b}[1mTests:\u{1b}[0m\n  \u{1b}[1;31m2\u{1b}[0m failed, 0 total\n"), "{text:?}");
    assert!(text.contains("\u{1b}[31m subtracts\u{1b}[0m\u{1b}[2m\u{1b}[0m\n"), "{text:?}");
}

#[test]
fn pending_and_todo_lines_show_duration() {
    let f = file(
        "q.lua",
        0,
        0,
        vec![
            case("q", Status::Pending, &[], &[], Some(5)),
            case("t", Status::Todo, &["G"], &[], Some(2)),
        ],
    );
    let text = render(vec![f], true);
    assert!(text.starts_with("✓ q.lua (0ms)\n    ○ q (5ms)\n    G\n        ✎ t (2ms)\n\n"), "{text}");
}

#[test]
fn segments_carry_tones() {
    let out = Output { results: results(vec![math_file()]) };
    let segs = Formatter::with_colors(false, false).format_segments(&out);
    assert_eq!(segs[0].text, "×");
    assert_eq!(segs[0].tone, Tone::RedBold);
    assert_eq!(segs[2].text, "math.spec.lua");
    assert_eq!(segs[2].tone, Tone::Bold);
    let joined: String = segs.iter().map(|s| s.text.as_str()).collect();
    assert_eq!(joined, Formatter::with_colors(false, false).format_output(&out));
}

#[test]
fn jest_formatter_renders_alike() {
    let out = Output { results: results(vec![math_file()]) };
    let a = JestFormatter { verbose: true, colors: false }.format_output(&out);
    let b = Formatter::with_colors(true, false).format_output(&out);
    assert_eq!(a, b);
    assert!(JestFormatter::new(true).verbose);
    assert!(!Formatter::new(false).verbose);
}

#[test]
fn success_flag_is_reported() {
    let mut r = results(vec![]);
    assert!(Output { results: r }.was_successful());
    r = results(vec![]);
    r.success = false;
    assert!(!Output { results: r }.was_successful());
}
