use std::cell::Cell;

use test_better::color::{choice_from_code, color_code, resolve, ColorChoice};
use test_better::error::{ContextFrame, ErrorKind, Payload, SourceLocation, TestError, TraceEntry};
use test_better::or_fail::{coerce, Caught, ContextExt, OrFail};
use test_better::structured::StructuredPayload;
use test_better::trace::Trace;

fn here(line: u32) -> SourceLocation {
    SourceLocation::new("tests/core.rs", line, 5)
}

fn sample_assertion() -> TestError {
    TestError::new(ErrorKind::Assertion, here(10)).with_message("values differ")
}

fn io_error() -> Caught {
    Caught::Foreign { message: "missing file".to_string(), chain: Vec::new() }
}

fn step_text(entry: &TraceEntry) -> Option<&str> {
    match entry {
        TraceEntry::Step(s) => Some(s.as_str()),
        TraceEntry::Kv { .. } => None,
    }
}

// ---- error ----

#[test]
fn new_captures_caller_location() {
    let error = TestError::new(ErrorKind::Assertion, here(31));
    assert_eq!(error.location.line, 31);
    assert!(error.location.file.ends_with("core.rs"));
}

#[test]
fn display_includes_headline_message_and_location() {
    let rendered = sample_assertion().to_string();
    assert!(rendered.contains("assertion failed: values differ"));
    assert!(rendered.contains("  at "));
}

#[test]
fn context_frames_render_in_order() {
    let error = sample_assertion()
        .with_context_frame(ContextFrame::new("creating user", here(46)))
        .with_context_frame(ContextFrame::new("loading profile", here(47)));
    let rendered = error.to_string();
    let first = rendered.find("creating user").expect("first frame present");
    let second = rendered.find("loading profile").expect("second frame present");
    assert!(first < second);
}

#[test]
fn error_source_walks_into_payload_other() {
    let error = coerce(io_error(), here(56));
    match error.payload.as_deref() {
        Some(Payload::Other { message, .. }) => assert_eq!(message, "missing file"),
        _ => panic!("expected an Other payload"),
    }
}

#[test]
fn expected_actual_payload_renders_both_values() {
    let error = TestError::new(ErrorKind::Assertion, here(65)).with_payload(Payload::ExpectedActual {
        expected: "4".to_string(),
        actual: "5".to_string(),
        diff: None,
    });
    let rendered = error.to_string();
    assert!(rendered.contains("expected: 4"));
    assert!(rendered.contains("actual: 5"));
}

#[test]
fn multiple_payload_renders_every_sub_failure() {
    let error = TestError::new(ErrorKind::Assertion, here(77)).with_payload(Payload::Multiple(vec![
        TestError::new(ErrorKind::Assertion, here(78)).with_message("first"),
        TestError::new(ErrorKind::Assertion, here(79)).with_message("second"),
    ]));
    let rendered = error.to_string();
    assert!(rendered.contains("first"));
    assert!(rendered.contains("second"));
}

#[test]
fn assertion_constructor_sets_kind_message_and_caller_location() {
    let error = TestError::assertion("values differ", here(88));
    assert_eq!(error.kind, ErrorKind::Assertion);
    assert_eq!(error.message.as_deref(), Some("values differ"));
    assert_eq!(error.location.line, 88);
    assert!(error.location.file.ends_with("core.rs"));
}

#[test]
fn custom_constructor_sets_kind_message_and_caller_location() {
    let error = TestError::custom("something off", here(97));
    assert_eq!(error.kind, ErrorKind::Custom);
    assert_eq!(error.message.as_deref(), Some("something off"));
    assert_eq!(error.location.line, 97);
    assert!(error.location.file.ends_with("core.rs"));
}

#[test]
fn from_expected_actual_captures_debug_values_and_caller_location() {
    let error = TestError::from_expected_actual(&4, &5, here(106));
    assert_eq!(error.kind, ErrorKind::Assertion);
    assert_eq!(error.location.line, 106);
    match error.payload.map(|payload| *payload) {
        Some(Payload::ExpectedActual { expected, actual, diff }) => {
            assert_eq!(expected, "4");
            assert_eq!(actual, "5");
            assert!(diff.is_none());
        }
        _ => panic!("expected ExpectedActual"),
    }
}

#[test]
fn headlines_name_every_kind() {
    assert_eq!(ErrorKind::Assertion.headline(), "assertion failed");
    assert_eq!(ErrorKind::Setup.headline(), "test setup failed");
    assert_eq!(ErrorKind::Timeout.headline(), "timed out");
    assert_eq!(ErrorKind::Snapshot.headline(), "snapshot mismatch");
    assert_eq!(ErrorKind::Property.headline(), "property failed");
    assert_eq!(ErrorKind::Custom.headline(), "test failed");
}

#[test]
fn a_location_renders_as_file_line_column() {
    assert_eq!(SourceLocation::new("src/lib.rs", 12, 7).to_string(), "src/lib.rs:12:7");
}

// ---- render ----

#[test]
fn render_has_no_trailing_newline() {
    let rendered = TestError::new(ErrorKind::Assertion, here(136)).to_string();
    assert!(!rendered.ends_with('\n'), "{rendered:?}");
}

#[test]
fn nested_multiple_indents_each_line() {
    let inner = TestError::new(ErrorKind::Assertion, here(142))
        .with_message("inner")
        .with_context_frame(ContextFrame::new("inner context", here(144)));
    let outer = TestError::new(ErrorKind::Assertion, here(145)).with_payload(Payload::Multiple(vec![inner]));
    let rendered = outer.to_string();
    assert!(rendered.contains("      assertion failed: inner"), "{rendered}");
    assert!(rendered.contains("      while inner context"), "{rendered}");
}

#[test]
fn a_bare_error_renders_its_headline_and_location_exactly() {
    let rendered = TestError::new(ErrorKind::Timeout, SourceLocation::new("a.rs", 3, 4)).to_string();
    assert_eq!(rendered, "timed out\n  at a.rs:3:4");
}

// ---- structured ----

fn all_kinds() -> [ErrorKind; 6] {
    [
        ErrorKind::Assertion,
        ErrorKind::Setup,
        ErrorKind::Timeout,
        ErrorKind::Snapshot,
        ErrorKind::Property,
        ErrorKind::Custom,
    ]
}

#[test]
fn every_kind_round_trips_through_structured() {
    for kind in all_kinds() {
        let error = TestError::new(kind, here(172)).with_message("boom");
        let structured = error.to_structured();
        assert_eq!(structured.kind, kind);
        assert_eq!(structured.message.as_deref(), Some("boom"));
    }
}

#[test]
fn structured_captures_location_and_context() {
    let error = TestError::new(ErrorKind::Assertion, here(181))
        .with_context_frame(ContextFrame::new("step one", here(182)));
    let structured = error.to_structured();
    assert_eq!(structured.context.len(), 1);
    assert_eq!(structured.context[0].message.as_str(), "step one");
    assert!(structured.location.file.ends_with("core.rs"));
    assert!(structured.location.line > 0);
}

#[test]
fn structured_carries_the_trace() {
    let mut trace = Trace::new();
    trace.step("step one");
    trace.kv("answer", "42");
    let error = TestError::new(ErrorKind::Assertion, here(195)).with_trace(trace.entries());
    drop(trace);

    let structured = error.to_structured();
    assert_eq!(structured.trace.len(), 2);
    assert_eq!(step_text(&structured.trace[0]), Some("step one"));
}

#[test]
fn expected_actual_payload_round_trips() {
    let error = TestError::new(ErrorKind::Assertion, here(205)).with_payload(Payload::ExpectedActual {
        expected: "1".to_string(),
        actual: "2".to_string(),
        diff: Some("- 1\n+ 2".to_string()),
    });
    match error.to_structured().payload {
        Some(StructuredPayload::ExpectedActual { expected, actual, diff }) => {
            assert_eq!(expected, "1");
            assert_eq!(actual, "2");
            assert_eq!(diff.as_deref(), Some("- 1\n+ 2"));
        }
        _ => panic!("expected ExpectedActual"),
    }
}

#[test]
fn multiple_payload_round_trips_recursively() {
    let error = TestError::new(ErrorKind::Assertion, here(222)).with_payload(Payload::Multiple(vec![
        TestError::new(ErrorKind::Assertion, here(223)).with_message("a"),
        TestError::new(ErrorKind::Setup, here(224)).with_message("b"),
    ]));
    match error.to_structured().payload {
        Some(StructuredPayload::Multiple(subs)) => {
            assert_eq!(subs.len(), 2);
            assert_eq!(subs[0].message.as_deref(), Some("a"));
            assert_eq!(subs[1].kind, ErrorKind::Setup);
        }
        _ => panic!("expected Multiple"),
    }
}

#[test]
fn other_payload_flattens_error_chain() {
    let error = coerce(Caught::Foreign { message: "missing".to_string(), chain: Vec::new() }, here(238));
    match error.to_structured().payload {
        Some(StructuredPayload::Other { message, chain }) => {
            assert_eq!(message, "missing");
            assert!(chain.is_empty());
        }
        _ => panic!("expected Other"),
    }
}

// ---- trace ----

#[test]
fn steps_and_kv_are_recorded_in_order() {
    let mut trace = Trace::new();
    trace.step("first");
    trace.kv("key", "42");
    trace.step("second");
    let entries = trace.entries();
    assert_eq!(entries.len(), 3);
    assert_eq!(step_text(&entries[0]), Some("first"));
    match &entries[1] {
        TraceEntry::Kv { key, value } => {
            assert_eq!(key, "key");
            assert_eq!(value, "42");
        }
        TraceEntry::Step(_) => panic!("expected a key/value entry"),
    }
    assert_eq!(step_text(&entries[2]), Some("second"));
}

#[test]
fn an_error_built_within_a_trace_snapshots_it() {
    let mut trace = Trace::new();
    trace.step("doing the thing");
    let error = TestError::new(ErrorKind::Assertion, here(273)).with_trace(trace.entries());
    assert_eq!(error.trace.len(), 1);
    assert_eq!(step_text(&error.trace[0]), Some("doing the thing"));
}

#[test]
fn an_error_built_with_no_trace_in_scope_has_an_empty_trace() {
    let error = TestError::new(ErrorKind::Assertion, here(280));
    assert!(error.trace.is_empty());
}

#[test]
fn dropping_a_trace_ends_the_scope() {
    {
        let mut trace = Trace::new();
        trace.step("inside the scope");
    }
    let error = TestError::new(ErrorKind::Assertion, here(290));
    assert!(error.trace.is_empty());
}

#[test]
fn nested_traces_compose_and_restore() {
    let mut outer = Trace::new();
    outer.step("outer step");
    {
        let mut inner = Trace::new();
        inner.step("inner step");
        assert_eq!(inner.entries().len(), 1);
    }
    let entries = outer.entries();
    assert_eq!(entries.len(), 1);
    assert_eq!(step_text(&entries[0]), Some("outer step"));
}

// ---- color ----

#[test]
fn resolve_handles_every_choice_and_no_color() {
    assert!(resolve(ColorChoice::Always, true, false));
    assert!(!resolve(ColorChoice::Never, false, true));
    assert!(resolve(ColorChoice::Auto, false, true));
    assert!(!resolve(ColorChoice::Auto, true, true));
    assert!(!resolve(ColorChoice::Auto, false, false));
}

#[test]
fn choice_round_trips_through_the_global_slot() {
    for choice in [ColorChoice::Always, ColorChoice::Never, ColorChoice::Auto] {
        assert_eq!(choice_from_code(color_code(choice)), choice);
    }
    assert_eq!(choice_from_code(200), ColorChoice::Auto);
}

// ---- or_fail ----

#[test]
fn or_fail_passes_through_some_like_unwrap() {
    let some: Option<i32> = Some(7);
    assert_eq!(some.or_fail("i32", here(331)).expect("some"), 7);
}

#[test]
fn or_fail_passes_through_ok_like_unwrap() {
    let ok: Result<i32, Caught> = Ok(7);
    assert_eq!(ok.or_fail("i32", here(337)).expect("ok"), 7);
}

#[test]
fn or_fail_on_none_names_the_expected_type_and_caller_location() {
    let missing: Option<i32> = None;
    let error = missing.or_fail("i32", here(343)).expect_err("err path");
    assert_eq!(error.kind, ErrorKind::Assertion);
    assert_eq!(error.location.line, 343);
    let message = error.message.as_deref().expect("message present");
    assert!(message.starts_with("expected Some("));
    assert!(message.ends_with("i32), got None"));
}

#[test]
fn or_fail_with_on_none_uses_the_supplied_message() {
    let missing: Option<i32> = None;
    let error = missing
        .or_fail_with("the user should have been seeded", here(355))
        .expect_err("err path");
    assert_eq!(error.message.as_deref(), Some("the user should have been seeded"));
}

#[test]
fn or_fail_on_err_preserves_the_underlying_error() {
    let failing: Result<(), Caught> = Err(io_error());
    let error = failing.or_fail("()", here(363)).expect_err("err path");
    assert_eq!(error.kind, ErrorKind::Custom);
    match error.payload.as_deref() {
        Some(Payload::Other { message, .. }) => assert_eq!(message, "missing file"),
        _ => panic!("expected Other payload"),
    }
}

#[test]
fn or_fail_does_not_double_wrap_a_test_error() {
    let first = TestError::assertion("values differ", here(373));
    let first_line = first.location.line;
    let failing: Result<(), Caught> = Err(Caught::Test(first));
    let error = failing.or_fail("()", here(376)).expect_err("err path");
    assert_eq!(error.kind, ErrorKind::Assertion);
    assert_eq!(error.location.line, first_line);
    assert_eq!(error.message.as_deref(), Some("values differ"));
    assert!(error.payload.is_none());
}

#[test]
fn or_fail_with_on_err_keeps_the_chain_and_adds_context() {
    let failing: Result<(), Caught> = Err(io_error());
    let error = failing
        .or_fail_with("loading the config file", here(387))
        .expect_err("err path");
    assert!(matches!(error.payload.as_deref(), Some(Payload::Other { .. })));
    assert_eq!(error.context.len(), 1);
    assert_eq!(error.context[0].message, "loading the config file");
}

// ---- context ----

#[test]
fn context_passes_through_ok() {
    let value = Ok::<i32, Caught>(7).context("unused", here(398));
    assert_eq!(value.expect("ok path"), 7);
}

#[test]
fn context_passes_through_some() {
    let value = Some(7).context("unused", here(404));
    assert_eq!(value.expect("some path"), 7);
}

#[test]
fn context_wraps_foreign_error_as_other_payload() {
    let failing: Result<(), Caught> = Err(io_error());
    let error = failing.context("reading the fixture", here(411)).expect_err("err path");
    assert_eq!(error.kind, ErrorKind::Custom);
    assert_eq!(error.location.line, 411);
    assert!(matches!(error.payload.as_deref(), Some(Payload::Other { .. })));
    assert_eq!(error.context.len(), 1);
    assert_eq!(error.context[0].message, "reading the fixture");
}

#[test]
fn context_does_not_double_wrap_a_test_error() {
    let first = TestError::assertion("values differ", here(421));
    let first_line = first.location.line;
    let error = Err::<(), _>(Caught::Test(first))
        .context("comparing the results", here(424))
        .expect_err("err path");
    assert_eq!(error.kind, ErrorKind::Assertion);
    assert_eq!(error.location.line, first_line);
    assert!(error.payload.is_none());
    assert_eq!(error.message.as_deref(), Some("values differ"));
    assert_eq!(error.context.len(), 1);
    assert_eq!(error.context[0].message, "comparing the results");
}

#[test]
fn context_frames_accumulate_in_order() {
    let error = Err::<(), _>(io_error())
        .context("inner step", here(436))
        .map_err(Caught::Test)
        .context("outer step", here(438))
        .expect_err("err path");
    let messages: Vec<&str> = error.context.iter().map(|f| f.message.as_str()).collect();
    assert_eq!(messages, ["inner step", "outer step"]);
}

#[test]
fn none_gains_context_and_caller_location() {
    let missing: Option<i32> = None;
    let error = missing.context("looking up the user", here(446)).expect_err("err path");
    assert_eq!(error.kind, ErrorKind::Custom);
    assert_eq!(error.location.line, 446);
    assert_eq!(error.context[0].message, "looking up the user");
}

#[test]
fn with_context_runs_the_closure_only_on_failure() {
    let calls = Cell::new(0);
    let ok = Ok::<i32, Caught>(1).with_context(
        || {
            calls.set(calls.get() + 1);
            "unused".to_string()
        },
        here(456),
    );
    assert_eq!(ok.expect("ok path"), 1);
    assert_eq!(calls.get(), 0, "closure must not run on the success path");

    let err = Err::<(), _>(io_error())
        .with_context(
            || {
                calls.set(calls.get() + 1);
                "computed context".to_string()
            },
            here(466),
        )
        .expect_err("err path");
    assert_eq!(calls.get(), 1, "closure must run once on the failure path");
    assert_eq!(err.context[0].message, "computed context");
}
