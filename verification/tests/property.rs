use test_better::error::{ErrorKind, SourceLocation, TestError};
use test_better::property::{property_error, CaseOutcome, CaseRun, CaseStep, Config, Shrinker, Step};

fn at(line: u32) -> SourceLocation {
    SourceLocation::new("tests/property.rs", line, 5)
}

#[test]
fn a_run_of_one_passing_case_holds() {
    // With a single case and an always-true property, exactly one draw is
    // taken and the run passes.
    let (mut run, step) = CaseRun::start(Config { cases: 1 });
    assert_eq!(step, CaseStep::Draw);
    assert_eq!(run.after(CaseOutcome::Passed), CaseStep::Holds);
}

#[test]
fn a_failure_is_reported_with_the_cases_tried_so_far() {
    let (mut run, _) = CaseRun::start(Config { cases: 5 });
    assert_eq!(run.after(CaseOutcome::Passed), CaseStep::Draw);
    assert_eq!(run.after(CaseOutcome::NoValue), CaseStep::Draw);
    assert_eq!(run.after(CaseOutcome::Failed), CaseStep::Shrink { cases: 3 });
}

#[test]
fn a_run_with_no_cases_holds_at_once() {
    let (mut run, step) = CaseRun::start(Config { cases: 0 });
    assert_eq!(step, CaseStep::Holds);
    assert_eq!(run.after(CaseOutcome::Failed), CaseStep::Holds);
    assert_eq!(Config::default().cases, 256);
}

#[test]
fn the_search_keeps_each_failing_input_with_its_own_failure() {
    let (mut search, step) = Shrinker::new(500u32, TestError::assertion("500 fails", at(34)));
    assert_eq!(step, Step::Simplify);
    assert_eq!(search.moved(true), Step::Test);
    assert_eq!(search.tested(100, Err(TestError::assertion("100 fails", at(36)))), Step::Simplify);
    assert_eq!(search.moved(true), Step::Test);
    assert_eq!(search.tested(50, Ok(())), Step::Complicate);
    assert_eq!(search.moved(false), Step::Done);
    let (minimal, failure) = search.finish();
    assert_eq!(minimal, 100);
    assert_eq!(failure.message.as_deref(), Some("100 fails"));
}

#[test]
fn a_property_failure_names_the_shrunk_input_and_the_case_count() {
    let error = property_error(TestError::assertion("less than 100", at(48)), 3, "100", at(48));
    assert_eq!(error.kind, ErrorKind::Property);
    let frame = error.context.last().expect("a context frame");
    assert_eq!(frame.message, "property failed after 3 generated cases; shrunk to 100");
    let one = property_error(TestError::assertion("x", at(52)), 1, "7", at(52));
    assert_eq!(one.context[0].message, "property failed after 1 generated case; shrunk to 7");
}
