use test_better::error::{ErrorKind, SourceLocation};
use test_better::runner::{
    marker_payload, parse_result_line, progress_event, report_lines, scan_output, summary_lines,
    test_args, test_section_header, Progress, ProgressEvent, RunSummary, NO_CONTEXT, STRUCTURED_MARKER,
};
use test_better::structured::{StructuredContextFrame, StructuredError};

/// A minimal structured failure with the given kind, message, and context
/// chain (outermost first).
fn structured_error(kind: ErrorKind, message: &str, context: &[&str]) -> StructuredError {
    StructuredError {
        kind,
        message: Some(message.to_string()),
        location: SourceLocation::new("src/lib.rs", 7, 5),
        context: context
            .iter()
            .map(|frame| StructuredContextFrame { message: (*frame).to_string(), location: None })
            .collect(),
        trace: Vec::new(),
        payload: None,
    }
}

/// A libtest section header line for `test`.
fn header(test: &str) -> String {
    format!("---- {test} stdout ----")
}

/// A marker line; what its payload decodes to is handed to `scan_output`
/// beside it.
fn marker_line(payload: &str) -> String {
    format!("{STRUCTURED_MARKER}{payload}{STRUCTURED_MARKER}")
}

#[test]
fn groups_structured_failures_by_top_context_frame() {
    let db_one = structured_error(ErrorKind::Assertion, "row count differs", &["the user store"]);
    let db_two = structured_error(ErrorKind::Setup, "no connection", &["the user store"]);
    let http = structured_error(ErrorKind::Assertion, "status was 500", &["the http layer"]);
    let lines = vec![
        header("store::counts_match"),
        marker_line("{\"a\":1}"),
        header("store::connects"),
        marker_line("{\"a\":2}"),
        header("http::returns_ok"),
        marker_line("{\"a\":3}"),
    ];
    let decoded = vec![None, Some(db_one), None, Some(db_two), None, Some(http)];

    let (report, _) = scan_output(&lines, decoded);

    assert_eq!(report.groups.len(), 2);
    assert_eq!(report.groups[0].context.as_str(), "the user store");
    assert_eq!(report.groups[0].failures.len(), 2);
    assert_eq!(report.groups[0].failures[0].test.as_str(), "store::counts_match");
    assert_eq!(report.groups[1].context.as_str(), "the http layer");
    assert_eq!(report.groups[1].failures.len(), 1);
    assert!(report.unstructured.is_empty());
}

#[test]
fn keeps_failures_without_a_marker_as_unstructured() {
    let lines = vec![
        header("math::adds"),
        "thread 'math::adds' panicked at src/lib.rs:3:5:".to_string(),
        "assertion `left == right` failed".to_string(),
    ];

    let (report, _) = scan_output(&lines, vec![None, None, None]);

    assert!(report.groups.is_empty());
    assert_eq!(report.unstructured, vec!["math::adds".to_string()]);
}

#[test]
fn echoes_every_non_marker_line() {
    let error = structured_error(ErrorKind::Assertion, "boom", &["an area"]);
    let lines = vec![
        "running 1 test".to_string(),
        header("suite::case"),
        marker_line("{}"),
        "test result: FAILED. 0 passed; 1 failed".to_string(),
    ];

    let (_, echoed) = scan_output(&lines, vec![None, None, Some(error), None]);

    assert_eq!(
        echoed,
        vec![
            "running 1 test".to_string(),
            header("suite::case"),
            "test result: FAILED. 0 passed; 1 failed".to_string(),
        ]
    );
}

#[test]
fn an_unparseable_marker_leaves_the_test_unstructured() {
    let lines = vec![header("suite::case"), marker_line("not json")];

    let (report, _) = scan_output(&lines, vec![None, None]);

    assert!(report.groups.is_empty());
    assert_eq!(report.unstructured, vec!["suite::case".to_string()]);
}

#[test]
fn errors_without_context_land_in_the_no_context_bucket() {
    let bare = structured_error(ErrorKind::Custom, "something off", &[]);
    let lines = vec![header("suite::case"), marker_line("{}")];

    let (report, _) = scan_output(&lines, vec![None, Some(bare)]);

    assert_eq!(report.groups.len(), 1);
    assert_eq!(report.groups[0].context.as_str(), NO_CONTEXT);
}

#[test]
fn parses_a_test_result_line_into_a_summary() {
    let summary = parse_result_line(
        "test result: FAILED. 5 passed; 2 failed; 1 ignored; 0 measured; 3 filtered out; \
         finished in 0.42s",
    )
    .expect("the line is a test result line");
    assert_eq!(summary, RunSummary { passed: 5, failed: 2, ignored: 1, measured: 0, filtered_out: 3 });
}

#[test]
fn a_non_result_line_is_not_a_summary() {
    assert!(parse_result_line("running 3 tests").is_none());
    assert!(parse_result_line("test math::adds ... ok").is_none());
}

#[test]
fn scan_output_sums_the_summary_across_test_binaries() {
    let lines = vec![
        "test result: ok. 3 passed; 0 failed; 1 ignored; 0 measured; 0 filtered out; \
         finished in 0.01s"
            .to_string(),
        "test result: FAILED. 1 passed; 2 failed; 0 ignored; 0 measured; 0 filtered out; \
         finished in 0.02s"
            .to_string(),
    ];

    let (report, _) = scan_output(&lines, vec![None, None]);

    assert_eq!(
        report.summary,
        RunSummary { passed: 4, failed: 2, ignored: 1, measured: 0, filtered_out: 0 }
    );
}

#[test]
fn classifies_progress_events() {
    assert_eq!(progress_event("running 5 tests"), Some(ProgressEvent::Discovered(5)));
    assert_eq!(progress_event("running 1 test"), Some(ProgressEvent::Discovered(1)));
    assert_eq!(progress_event("test math::adds ... ok"), Some(ProgressEvent::Completed));
    assert_eq!(progress_event("test math::divides ... FAILED"), Some(ProgressEvent::Completed));
    assert_eq!(progress_event("test math::slow ... ignored"), Some(ProgressEvent::Completed));
    assert_eq!(progress_event("test result: ok. 1 passed; 0 failed"), None);
    assert_eq!(progress_event("some other line"), None);
}

#[test]
fn a_section_header_names_its_test() {
    assert_eq!(test_section_header("---- suite::case stdout ----").as_deref(), Some("suite::case"));
    assert_eq!(test_section_header("running 1 test"), None);
}

#[test]
fn a_marker_line_yields_its_payload() {
    assert_eq!(marker_payload(&marker_line("{\"k\":1}")).as_deref(), Some("{\"k\":1}"));
    assert_eq!(marker_payload("plain output"), None);
}

#[test]
fn a_result_line_with_missing_counts_reads_them_as_zero() {
    let summary = parse_result_line("test result: ok. 1 passed; 0 failed").expect("a result line");
    assert_eq!(summary, RunSummary { passed: 1, failed: 0, ignored: 0, measured: 0, filtered_out: 0 });
}

#[test]
fn progress_counts_discovered_and_completed_tests() {
    let mut progress = Progress::new(true);
    let first = progress.observe(ProgressEvent::Discovered(2));
    assert_eq!(first.as_deref(), Some("\r  running: 0/2 tests   "));
    let second = progress.observe(ProgressEvent::Completed);
    assert_eq!(second.as_deref(), Some("\r  running: 1/2 tests   "));
    assert_eq!(progress.total, 2);
    assert_eq!(progress.done, 1);

    let mut hidden = Progress::new(false);
    assert_eq!(hidden.observe(ProgressEvent::Completed), None);
    assert_eq!(hidden.clear(), None);
}

#[test]
fn the_summary_lines_report_every_count() {
    let lines = summary_lines(&RunSummary { passed: 4, failed: 2, ignored: 1, measured: 0, filtered_out: 0 });
    let joined = lines.join("\n");
    assert!(joined.contains('4'), "{joined}");
    assert!(joined.contains('2'), "{joined}");
}

#[test]
fn the_report_lines_name_each_group_and_failure() {
    let error = structured_error(ErrorKind::Assertion, "row count differs", &["the user store"]);
    let lines = vec![header("store::counts_match"), marker_line("{}")];
    let (report, _) = scan_output(&lines, vec![None, Some(error)]);
    let joined = report_lines(&report).join("\n");
    assert!(joined.contains("the user store"), "{joined}");
    assert!(joined.contains("store::counts_match"), "{joined}");
}

#[test]
fn forwards_args_after_dropping_the_subcommand() {
    let args = test_args(vec!["test-better".to_string(), "--release".to_string(), "-p".to_string(), "mycrate".to_string()]);
    assert_eq!(args, vec!["test".to_string(), "--release".to_string(), "-p".to_string(), "mycrate".to_string()]);
}

#[test]
fn keeps_args_when_there_is_no_subcommand_prefix() {
    let args = test_args(vec!["--lib".to_string()]);
    assert_eq!(args, vec!["test".to_string(), "--lib".to_string()]);
}

#[test]
fn grouping_keeps_every_failure_once_in_scan_order() {
    let a1 = structured_error(ErrorKind::Assertion, "one", &["area a"]);
    let b = structured_error(ErrorKind::Assertion, "two", &["area b"]);
    let a2 = structured_error(ErrorKind::Assertion, "three", &["area a", "inner"]);
    let lines = vec![
        header("t1"),
        marker_line("{}"),
        header("t2"),
        marker_line("{}"),
        header("t3"),
        marker_line("{}"),
    ];
    let (report, _) = scan_output(&lines, vec![None, Some(a1), None, Some(b), None, Some(a2)]);
    let tests: Vec<Vec<&str>> =
        report.groups.iter().map(|g| g.failures.iter().map(|f| f.test.as_str()).collect()).collect();
    assert_eq!(tests, vec![vec!["t1", "t3"], vec!["t2"]]);
    assert_eq!(report.groups[0].context, "area a");
    assert_eq!(report.groups[1].context, "area b");
}

#[test]
fn a_line_without_a_decoded_entry_reads_as_not_decoding() {
    let lines = vec![header("suite::case"), marker_line("{}")];
    let (report, echoed) = scan_output(&lines, Vec::new());
    assert!(report.groups.is_empty());
    assert_eq!(report.unstructured, vec!["suite::case".to_string()]);
    assert_eq!(echoed, vec![header("suite::case")]);
}
