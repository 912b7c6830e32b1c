use test_better::error::SourceLocation;
use test_better::primitives::{eq, is_true};
use test_better::error::ErrorKind;
use test_better::inline::InlineSnapshotFailure;
use test_better::snapshot::SnapshotFailure;
use test_better::subject::{inline_snapshot_error, snapshot_error, Subject};

#[test]
fn satisfies_returns_ok_on_a_match() {
    let result = Subject::new(2 + 2, "2 + 2", "subject").satisfies(eq(4), SourceLocation::new("tests/subject.rs", 40, 9));
    assert!(result.is_ok());
}

#[test]
fn satisfies_failure_mentions_the_expression_and_the_expected_value() {
    let error = Subject::new(2 + 2, "2 + 2", "subject")
        .satisfies(eq(5), SourceLocation::new("tests/subject.rs", 40, 9))
        .expect_err("2 + 2 is not 5");
    let rendered = error.to_string();
    assert!(rendered.contains("2 + 2"));
    assert!(rendered.contains("equal to 5"));
    assert!(rendered.contains("actual: 4"));
}

#[test]
fn satisfies_failure_captures_the_caller_location() {
    let line = 40;
    let error = Subject::new(2 + 2, "2 + 2", "subject").satisfies(eq(5), SourceLocation::new("tests/subject.rs", 40, 9))
        .expect_err("2 + 2 is not 5");
    assert_eq!(error.location.line, line);
    assert!(error.location.file.ends_with("subject.rs"));
}

#[test]
fn violates_returns_ok_when_the_matcher_does_not_match() {
    let result = Subject::new(2 + 2, "2 + 2", "subject").violates(eq(5), SourceLocation::new("tests/subject.rs", 40, 9));
    assert!(result.is_ok());
}

#[test]
fn violates_failure_mentions_the_expression_and_the_matcher() {
    let error = Subject::new(true, "true", "subject")
        .violates(is_true(), SourceLocation::new("tests/subject.rs", 40, 9))
        .expect_err("true is true");
    let rendered = error.to_string();
    assert!(rendered.contains("check!(true)"));
    assert!(rendered.contains("not to be true"));
}

#[test]
fn a_rendered_failure_has_headline_payload_and_location_lines() {
    let error = Subject::new(2 + 2, "2 + 2", "m")
        .satisfies(eq(5), SourceLocation::new("src/lib.rs", 12, 5))
        .expect_err("2 + 2 is not 5");
    assert_eq!(
        error.to_string(),
        "assertion failed: check!(2 + 2)\n  expected: equal to 5\n    actual: 4\n  at src/lib.rs:12:5"
    );
}

#[test]
fn violates_captures_the_caller_location() {
    let error = Subject::new(true, "true", "subject")
        .violates(is_true(), SourceLocation::new("tests/subject.rs", 77, 17))
        .expect_err("true is true");
    assert_eq!(error.location.line, 77);
}

#[test]
fn snapshot_mismatch_renders_as_a_snapshot_error_with_a_diff() {

    let failure = SnapshotFailure::Mismatch {
        path: "tests/snapshots/m__page.snap".to_string(),
        expected: "line one\nline two".to_string(),
        actual: "line one\nline TWO".to_string(),
    };
    let error = snapshot_error("page", "page", failure, SourceLocation::new("tests/subject.rs", 93, 17));
    assert!(error.kind == ErrorKind::Snapshot);
    let rendered = error.to_string();
    assert!(rendered.contains("snapshot \"page\""));
    assert!(rendered.contains("line one"));
    assert!(rendered.contains("-line two"));
}

#[test]
fn snapshot_missing_renders_as_a_snapshot_error_pointing_at_update() {

    let failure = SnapshotFailure::Missing { path: "tests/snapshots/m__page.snap".to_string() };
    let error = snapshot_error("page", "page", failure, SourceLocation::new("tests/subject.rs", 108, 17));
    assert!(error.kind == ErrorKind::Snapshot);
    assert!(error.to_string().contains("UPDATE_SNAPSHOTS=1"));
}

#[test]
fn inline_snapshot_mismatch_renders_as_a_snapshot_error_with_a_diff() {

    let failure = InlineSnapshotFailure { expected: "one\ntwo".to_string(), actual: "one\nTWO".to_string() };
    let error = inline_snapshot_error("value", failure, SourceLocation::new("tests/subject.rs", 120, 17));
    assert!(error.kind == ErrorKind::Snapshot);
    let rendered = error.to_string();
    assert!(rendered.contains("inline snapshot does not match"));
    assert!(rendered.contains("UPDATE_SNAPSHOTS=1"));
    assert!(rendered.contains("-two"));
}

#[test]
fn a_snapshot_io_failure_names_the_action_and_the_source() {

    let failure = SnapshotFailure::Io {
        path: "s.snap".to_string(),
        action: "reading the snapshot file".to_string(),
        source: "denied".to_string(),
    };
    let error = snapshot_error("v", "n", failure, SourceLocation::new("tests/subject.rs", 136, 17));
    assert_eq!(
        error.message.as_deref(),
        Some("check!(v): snapshot \"n\" I/O error reading the snapshot file (s.snap): denied")
    );
    assert!(error.payload.is_none());
}

#[test]
fn a_timeout_names_the_expression_and_the_limit() {
    let error = test_better::subject::timeout_error("fetch()", "50ms", SourceLocation::new("tests/subject.rs", 160, 5));
    assert_eq!(error.message.as_deref(), Some("check!(fetch()): did not complete within 50ms"));
    assert!(error.to_string().starts_with("assertion failed: check!(fetch())"));
}
