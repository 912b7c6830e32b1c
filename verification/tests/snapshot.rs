use test_better::accept::{apply_inline_patch, format_inline_literal, group_by_file, hash_count, AcceptError, CallSite, LiteralSpan, StagedPatch};
use test_better::inline::{assert_inline_snapshot, normalize_inline_literal, parse_pending_patch, patch_body, InlineLocation, SnapshotMode};
use test_better::redact::Redactions;
use test_better::snapshot::{compare_snapshot, snapshot_path, SnapshotFailure, Stored};

#[test]
fn hash_count_outgrows_embedded_quote_hash_runs() {
    assert_eq!(hash_count("plain"), 1usize);
    assert_eq!(hash_count("has \"# inside"), 2usize);
    assert_eq!(hash_count("has \"## inside"), 3usize);
}

#[test]
fn format_inline_literal_writes_a_single_line_value_inline() {
    assert_eq!(format_inline_literal("hello", "    "), "r#\"hello\"#".to_string());
}

#[test]
fn format_inline_literal_round_trips_through_normalization() {
    let value = "first line\nsecond line";
    let literal = format_inline_literal(value, "    ");
    let inner = literal
        .strip_prefix("r#\"")
        .and_then(|rest| rest.strip_suffix("\"#"))
        .expect("formatted literal should be `r#\"...\"#`");
    assert_eq!(normalize_inline_literal(inner), value.to_string());
}

#[test]
fn apply_inline_patch_rewrites_the_literal_in_place() {
    let source = "fn t() {\n    check!(x).matches_inline_snapshot(r#\"old\"#)?;\n}\n";
    // The one call spans line 2 from column 4; its literal spans columns 38 to 46.
    let calls = vec![CallSite {
        start_line: 2,
        start_column: 4,
        end_line: 2,
        literal: Some(LiteralSpan { start_line: 2, start_column: 38, end_line: 2, end_column: 46 }),
    }];
    let rewritten = apply_inline_patch("t.rs", source, 2, 4, "new", Ok(calls)).ok().expect("rewrites");
    assert!(rewritten.contains("r#\"new\"#"));
    assert!(!rewritten.contains("old"));
    assert!(rewritten.starts_with("fn t() {\n"));
    assert!(rewritten.ends_with("?;\n}\n"));
}

#[test]
fn apply_inline_patch_reports_a_missing_call() {
    let source = "fn t() {\n    let y = 1;\n}\n";
    let outcome = apply_inline_patch("t.rs", source, 2, 4, "new", Ok(Vec::new()));
    assert!(matches!(outcome, Err(AcceptError::NoCall { .. })));
}

#[test]
fn normalize_drops_leading_newline_and_common_indentation() {
    let raw = "\n        first\n        second\n    ";
    assert_eq!(normalize_inline_literal(raw), "first\nsecond".to_string());
}

#[test]
fn normalize_keeps_relative_indentation() {
    let raw = "\n    outer\n        inner\n";
    assert_eq!(normalize_inline_literal(raw), "outer\n    inner".to_string());
}

#[test]
fn normalize_leaves_a_bare_single_line_literal_alone() {
    assert_eq!(normalize_inline_literal("just this"), "just this".to_string());
}

#[test]
fn a_matching_literal_passes_in_compare_mode() {
    let location = InlineLocation { file: "src/x.rs".to_string(), line: 10, column: 5 };
    assert!(matches!(assert_inline_snapshot("hello", "\n    hello\n", &location, SnapshotMode::Compare), Ok(None)));
}

#[test]
fn a_differing_literal_fails_in_compare_mode_carrying_both_sides() {
    let location = InlineLocation { file: "src/x.rs".to_string(), line: 10, column: 5 };
    let failure = assert_inline_snapshot("actual", "\n    expected\n", &location, SnapshotMode::Compare)
        .err()
        .expect("a differing literal must fail in compare mode");
    assert_eq!(failure.expected, "expected".to_string());
    assert_eq!(failure.actual, "actual".to_string());
}

#[test]
fn a_differing_literal_in_update_mode_yields_the_pending_patch() {
    let location = InlineLocation { file: "src/x.rs".to_string(), line: 10, column: 5 };
    let patch = assert_inline_snapshot("actual\n", "\n    expected\n", &location, SnapshotMode::Update)
        .ok()
        .expect("update mode does not fail");
    assert_eq!(patch, Some("src/x.rs\n10:5\nactual".to_string()));
}

#[test]
fn parse_pending_patch_round_trips_a_recorded_body() {
    let body = "tests/foo.rs\n42:9\nline one\nline two";
    let (location, value) = parse_pending_patch(body).ok().expect("parses");
    assert_eq!(location.file.as_str(), "tests/foo.rs");
    assert_eq!(location.line, 42u32);
    assert_eq!(location.column, 9u32);
    assert_eq!(value, "line one\nline two".to_string());
    assert!(parse_pending_patch("only-one-line").is_err());
}

#[test]
fn a_written_patch_reads_back() {
    let location = InlineLocation { file: "a/b.rs".to_string(), line: 7, column: 13 };
    let body = patch_body(&location, "x\ny");
    let (back, value) = parse_pending_patch(&body).ok().expect("parses");
    assert_eq!(back.file, "a/b.rs");
    assert_eq!((back.line, back.column), (7, 13));
    assert_eq!(value, "x\ny");
}

#[test]
fn snapshot_path_joins_module_and_name_with_a_snap_extension() {
    let path = snapshot_path("tests/snapshots", "snapshot", "homepage");
    assert_eq!(path, "tests/snapshots/snapshot__homepage.snap".to_string());
}

#[test]
fn snapshot_path_collapses_module_separators_and_sanitizes() {
    let path = snapshot_path("snaps", "my_crate::ui::pages", "home page/v2");
    assert_eq!(path, "snaps/my_crate__ui__pages__home_page_v2.snap".to_string());
}

#[test]
fn comparing_with_the_stored_snapshot_decides_the_outcome() {
    assert!(compare_snapshot("p.snap", Stored::Text("same".to_string()), "same").is_ok());
    match compare_snapshot("p.snap", Stored::Text("old".to_string()), "new") {
        Err(SnapshotFailure::Mismatch { path, expected, actual }) => {
            assert_eq!((path.as_str(), expected.as_str(), actual.as_str()), ("p.snap", "old", "new"));
        },
        _ => panic!("a different value is a mismatch"),
    }
    let missing = compare_snapshot("p.snap", Stored::NotFound, "x").err().expect("missing");
    assert!(missing.to_string().contains("UPDATE_SNAPSHOTS=1"));
}

#[test]
fn an_empty_set_returns_its_input_unchanged() {
    let redactions = Redactions::new();
    assert!(redactions.is_empty());
    assert_eq!(redactions.apply("untouched"), "untouched".to_string());
}

#[test]
fn redact_uuids_replaces_every_canonical_uuid() {
    let redactions = Redactions::new().redact_uuids();
    let input = "from 550E8400-E29B-41D4-A716-446655440000 to \
                 00000000-0000-0000-0000-000000000000";
    assert_eq!(redactions.apply(input), "from [uuid] to [uuid]".to_string());
}

#[test]
fn redact_uuids_leaves_a_near_miss_alone() {
    let redactions = Redactions::new().redact_uuids();
    let input = "550e8400-e29b-41d4-a716-44665544000 and zzze8400-e29b";
    assert_eq!(redactions.apply(input), input.to_string());
}

#[test]
fn redact_rfc3339_timestamps_handles_z_and_offset_and_fractions() {
    let redactions = Redactions::new().redact_rfc3339_timestamps();
    let input = "at 2026-05-14T12:34:56Z and 2026-01-02T03:04:05.678-05:00 done";
    assert_eq!(redactions.apply(input), "at [timestamp] and [timestamp] done".to_string());
}

#[test]
fn rules_run_in_order_and_compose() {
    let redactions = Redactions::new()
        .redact_uuids()
        .replace("[uuid]", "<id>")
        .redact_with(|text: &str| text.to_uppercase());
    assert_eq!(redactions.apply("id 550e8400-e29b-41d4-a716-446655440000"), "ID <ID>".to_string());
}

#[test]
fn replace_ignores_an_empty_needle() {
    let redactions = Redactions::new().replace("", "X");
    assert_eq!(redactions.apply("abc"), "abc".to_string());
}

#[test]
fn a_uuid_glued_to_more_hex_is_not_redacted() {
    let redactions = Redactions::new().redact_uuids();
    let input = "550e8400-e29b-41d4-a716-446655440000f";
    assert_eq!(redactions.apply(input), input.to_string());
    assert!(redactions.debug_text().contains("rules: 1"));
}

#[test]
fn a_timestamp_with_a_bare_dot_is_left_alone() {
    let redactions = Redactions::new().redact_rfc3339_timestamps();
    let input = "2026-05-14T12:34:56.Z";
    assert_eq!(redactions.apply(input), input.to_string());
}

/// What reading a snapshot file holding `stored` (or no file) gives.
fn read(stored: &Option<String>) -> Stored {
    match stored {
        Some(text) => Stored::Text(text.clone()),
        None => Stored::NotFound,
    }
}

#[test]
fn missing_file_in_compare_mode_is_a_missing_failure() {
    let path = snapshot_path("scratch", "t", "absent");
    let failure = compare_snapshot(&path, Stored::NotFound, "value").expect_err("a missing snapshot should fail");
    assert!(matches!(failure, SnapshotFailure::Missing { .. }));
    assert!(failure.to_string().contains("UPDATE_SNAPSHOTS=1"));
}

#[test]
fn a_snapshot_is_created_then_verified_then_updated() {
    let path = snapshot_path("scratch", "lifecycle", "greeting");
    let mut file: Option<String> = None;

    let missing = compare_snapshot(&path, read(&file), "hello").expect_err("an absent snapshot must fail");
    assert!(matches!(missing, SnapshotFailure::Missing { .. }));

    // Update mode writes the value as the snapshot.
    file = Some("hello".to_string());
    assert!(compare_snapshot(&path, read(&file), "hello").is_ok());

    match compare_snapshot(&path, read(&file), "goodbye") {
        Err(SnapshotFailure::Mismatch { expected, actual, .. }) => {
            assert_eq!(expected, "hello");
            assert_eq!(actual, "goodbye");
        }
        _ => panic!("expected a mismatch"),
    }

    file = Some("goodbye".to_string());
    assert!(compare_snapshot(&path, read(&file), "goodbye").is_ok());
}

fn staged(file: &str, patch_file: &str, line: u32) -> (String, StagedPatch) {
    (
        file.to_string(),
        StagedPatch { patch_file: patch_file.to_string(), line, column: 5, value: format!("v{line}") },
    )
}

#[test]
fn patches_are_grouped_by_file_once_each_in_reading_order() {
    let items = vec![staged("a.rs", "1.patch", 10), staged("b.rs", "2.patch", 20), staged("a.rs", "3.patch", 30)];
    let groups = group_by_file(&items);
    assert_eq!(groups.len(), 2);
    assert_eq!(groups[0].file, "a.rs");
    assert_eq!(groups[0].patches.iter().map(|p| p.line).collect::<Vec<u32>>(), vec![10, 30]);
    assert_eq!(groups[1].file, "b.rs");
    assert_eq!(groups[1].patches.iter().map(|p| p.patch_file.as_str()).collect::<Vec<&str>>(), vec!["2.patch"]);
    assert_eq!(groups[0].applied().patches, 2);
}

#[test]
fn a_bare_single_line_literal_keeps_its_leading_whitespace() {
    assert_eq!(normalize_inline_literal("  just this  "), "  just this");
    assert_eq!(normalize_inline_literal("  one line\n"), "  one line");
    assert_eq!(normalize_inline_literal("\n    indented\n"), "indented");
}
