use test_better::accept::format_inline_literal;
use test_better::collections::{at_least_one, every};
use test_better::color::{choice_from_code, color_code, ColorChoice};
use test_better::combinators::{all_of, any_of, not};
use test_better::description::Description;
use test_better::inline::{assert_inline_snapshot, normalize_inline_literal, parse_pending_patch, patch_body, InlineLocation, SnapshotMode};
use test_better::matcher::Matcher;
use test_better::primitives::{eq, gt, lt};
use test_better::redact::Redactions;

/// The text between a raw literal's opening `r#"` and its closing `"#`.
fn literal_inner(literal: &str) -> &str {
    literal
        .strip_prefix("r#\"")
        .and_then(|rest| rest.strip_suffix("\"#"))
        .expect("a one-hash raw literal")
}

#[test]
fn a_written_multi_line_literal_normalizes_back_to_its_value() {
    for indent in ["", "    ", "\t", " \t  "] {
        for value in ["a\nb", "top\n  nested\n\nlast", "  lead\nflush", "x\n   \ny"] {
            let literal = format_inline_literal(value, indent);
            assert_eq!(normalize_inline_literal(literal_inner(&literal)), value, "{indent:?} {value:?}");
        }
    }
}

#[test]
fn a_written_single_line_literal_normalizes_back_to_its_value() {
    for value in ["", "one", "a \"quoted\" word"] {
        let literal = format_inline_literal(value, "  ");
        assert_eq!(normalize_inline_literal(literal_inner(&literal)), value);
    }
}

#[test]
fn a_recorded_patch_parses_back_to_its_location_and_value() {
    let location = InlineLocation { file: "tests/a.rs".to_string(), line: 12, column: 9 };
    let body = patch_body(&location, "multi\nline value\n");
    let (parsed, value) = parse_pending_patch(&body).expect("a recorded body parses");
    assert_eq!(parsed.file, "tests/a.rs");
    assert_eq!(parsed.line, 12);
    assert_eq!(parsed.column, 9);
    assert_eq!(value, "multi\nline value\n");
}

#[test]
fn negating_twice_gives_the_same_description_and_verdict() {
    let d = Description::text("equal to 4");
    assert_eq!((!!d.clone()).to_string(), d.to_string());
    for n in [3, 4, 5] {
        assert_eq!(not(not(eq(4))).check(&n).matched, eq(4).check(&n).matched);
    }
}

#[test]
fn not_all_of_accepts_what_any_of_the_negations_accepts() {
    for n in [-5, 0, 5, 50, 500] {
        let left = not(all_of((gt(0), lt(100)))).check(&n).matched;
        let right = any_of((not(gt(0)), not(lt(100)))).check(&n).matched;
        assert_eq!(left, right, "{n}");
    }
}

#[test]
fn every_rejects_exactly_when_some_item_fails() {
    for items in [vec![1, 2, 3], vec![1, -2, 3], vec![], vec![-1]] {
        let all_positive = every(gt(0)).check(&items).matched;
        let some_not_positive = at_least_one(not(gt(0))).check(&items).matched;
        assert_eq!(!all_positive, some_not_positive, "{items:?}");
    }
}

#[test]
fn a_stored_color_choice_reads_back() {
    for choice in [ColorChoice::Auto, ColorChoice::Always, ColorChoice::Never] {
        assert_eq!(choice_from_code(color_code(choice)), choice);
    }
}

#[test]
fn no_redaction_rules_leave_the_text_alone() {
    let text = "id 123e4567-e89b-12d3-a456-426614174000 at 2024-01-02T03:04:05Z";
    assert_eq!(Redactions::new().apply(text), text);
}

#[test]
fn a_written_marker_line_reads_back_its_payload() {
    for payload in ["{\"kind\":\"Assertion\"}", "", "@@ nested @@", "  spaced  "] {
        let line = test_better::runner::marker_line(payload);
        assert_eq!(test_better::runner::marker_payload(&line).as_deref(), Some(payload));
    }
}

#[test]
fn an_accepted_inline_snapshot_passes_on_the_next_run() {
    let location = InlineLocation { file: "tests/page.rs".to_string(), line: 7, column: 5 };
    let actual = "<h1>Hello</h1>\n  <p>body</p>\n";
    let body = assert_inline_snapshot(actual, "old", &location, SnapshotMode::Update)
        .expect("update mode never fails")
        .expect("a differing value records a patch");
    let (at, value) = parse_pending_patch(&body).expect("a recorded patch parses");
    assert_eq!((at.file.as_str(), at.line, at.column), ("tests/page.rs", 7, 5));
    let literal = format_inline_literal(&value, "    ");
    let next = assert_inline_snapshot(actual, literal_inner(&literal), &location, SnapshotMode::Compare);
    assert!(matches!(next, Ok(None)));
}

#[test]
fn a_written_single_line_literal_keeps_its_leading_whitespace() {
    let literal = format_inline_literal("  lead", "    ");
    assert_eq!(normalize_inline_literal(literal_inner(&literal)), "  lead");
}

#[test]
fn negating_a_compound_twice_gives_it_back() {
    let both = Description::text("a").and(Description::text("b"));
    assert_eq!((!both.clone()).to_string(), "not (a and b)".to_string());
    assert_eq!((!!both.clone()).to_string(), both.to_string());
    let either = Description::text("a").or(Description::text("b"));
    assert_eq!((!either.clone()).to_string(), "not (a or b)".to_string());
    assert_eq!((!!either.clone()).to_string(), "a or b".to_string());
    let labeled = Description::labeled("some", !Description::text("zero"));
    assert_eq!((!labeled.clone()).to_string(), "not some:\n  not zero".to_string());
    assert_eq!((!!labeled.clone()).to_string(), labeled.to_string());
}

#[test]
fn a_bare_carriage_return_ends_the_last_line_as_it_stands() {
    let described = Description::labeled("h", Description::text("a\r"));
    assert_eq!(described.to_string(), "h:\n  a\r".to_string());
    let split = Description::labeled("h", Description::text("a\r\nb\r"));
    assert_eq!(split.to_string(), "h:\n  a\n  b\r".to_string());
}
