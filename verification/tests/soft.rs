use test_better::error::{ErrorKind, Payload, SourceLocation, TestError};
use test_better::primitives::eq;
use test_better::soft::SoftAsserter;
use test_better::strings::contains_str;

fn at(line: u32) -> SourceLocation {
    SourceLocation::new("tests/soft.rs", line, 9)
}

fn frames_of(error: &TestError) -> Vec<&str> {
    error.context.iter().map(|frame| frame.message.as_str()).collect()
}

fn recorded(error: &TestError) -> &Vec<TestError> {
    match error.payload.as_deref() {
        Some(Payload::Multiple(errors)) => errors,
        _ => panic!("expected a Multiple payload"),
    }
}

#[test]
fn soft_with_no_failures_returns_ok() {
    let mut s = SoftAsserter::new();
    s.expect(&2, eq(2), at(23));
    s.check(Ok(()));
    assert!(s.into_result(at(25)).is_ok());
}

#[test]
fn soft_collects_every_failure_each_with_its_own_location() {
    let mut s = SoftAsserter::new();
    s.expect(&1, eq(2), at(32));
    s.expect(&3, eq(4), at(33));
    s.expect(&5, eq(6), at(34));
    let error = s.into_result(at(35)).expect_err("three soft assertions failed");

    let rendered = error.to_string();
    assert!(rendered.contains("3 soft assertions failed"));
    assert!(rendered.contains("3 failures"));

    let errors = recorded(&error);
    assert_eq!(errors.len(), 3);
    let lines: Vec<u32> = errors.iter().map(|e| e.location.line).collect();
    assert!(lines[0] != lines[1] && lines[1] != lines[2] && lines[0] != lines[2]);
}

#[test]
fn soft_check_records_an_err_and_ignores_ok() {
    let mut s = SoftAsserter::new();
    s.check(Ok(()));
    s.check(Err(TestError::assertion("a recorded failure", at(51))));
    let error = s.into_result(at(52)).expect_err("one recorded check failed");
    assert!(error.to_string().contains("a recorded failure"));
}

#[test]
fn soft_check_preserves_the_recorded_error_location() {
    let recorded_error = TestError::assertion("from elsewhere", at(58));
    let recorded_line = recorded_error.location.line;
    let mut s = SoftAsserter::new();
    s.check(Err(recorded_error));
    let error = s.into_result(at(62)).expect_err("one recorded check failed");
    assert_eq!(recorded(&error)[0].location.line, recorded_line);
}

#[test]
fn context_scope_attaches_a_frame_to_recorded_failures() {
    let mut s = SoftAsserter::new();
    s.push_context("while validating the user", at(69));
    s.expect(&1, eq(2), at(70));
    s.pop_context();
    let error = s.into_result(at(72)).expect_err("one soft assertion failed");
    assert_eq!(frames_of(&recorded(&error)[0]), vec!["while validating the user"]);
}

#[test]
fn context_scope_ends_when_the_scope_is_dropped() {
    let mut s = SoftAsserter::new();
    s.push_context("inside the scope", at(79));
    s.expect(&1, eq(2), at(80));
    s.pop_context();
    s.expect(&3, eq(4), at(82));
    let error = s.into_result(at(83)).expect_err("two soft assertions failed");
    let errors = recorded(&error);
    assert_eq!(errors[0].context.len(), 1usize);
    assert_eq!(errors[1].context.len(), 0usize);
}

#[test]
fn nested_context_scopes_stack_outermost_first() {
    let mut s = SoftAsserter::new();
    s.push_context("while validating the user", at(92));
    s.expect(&1, eq(2), at(93));
    s.push_context("while checking the email", at(94));
    s.expect("bad", contains_str("@"), at(95));
    s.pop_context();
    s.pop_context();
    let error = s.into_result(at(98)).expect_err("two soft assertions failed");
    let rendered = error.to_string();
    assert!(rendered.contains("while validating the user"));
    assert!(rendered.contains("while checking the email"));

    let errors = recorded(&error);
    assert_eq!(frames_of(&errors[0]), vec!["while validating the user"]);
    assert_eq!(frames_of(&errors[1]), vec!["while validating the user", "while checking the email"]);
}

#[test]
fn a_single_soft_failure_says_assertion_in_the_singular() {
    let mut s = SoftAsserter::new();
    s.expect(&1, eq(2), at(111));
    let error = s.into_result(at(112)).expect_err("one soft assertion failed");
    assert_eq!(error.kind, ErrorKind::Assertion);
    assert_eq!(error.message.as_deref(), Some("1 soft assertion failed"));
}

#[test]
fn the_summary_failure_carries_no_context_or_trace_of_its_own() {
    let mut s = SoftAsserter::new();
    s.push_context("while still open", at(129));
    s.expect(&1, eq(2), at(130));
    let error = s.into_result(at(131)).expect_err("one soft assertion failed");
    assert!(error.context.is_empty());
    assert!(error.trace.is_empty());
    assert_eq!(frames_of(&recorded(&error)[0]), vec!["while still open"]);
}
