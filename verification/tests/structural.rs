use test_better::description::Description;
use test_better::matcher::{MatchResult, Matcher, Mismatch};
use test_better::naming::case_names;
use test_better::predicate::judged;
use test_better::primitives::{eq, gt};
use test_better::strings::contains_str;
use test_better::structural::{arity_error, case_context, field_failure, field_verdict, fields_description, variant_label, wrong_variant};

#[derive(Debug)]
struct User {
    name: String,
    age: u32,
}

#[derive(Debug)]
enum Event {
    Click { x: i32 },
    Close,
}

/// What `matches_struct!(User { name: contains_str("a"), age: gt(17) })`
/// builds.
fn adult_with_an_a() -> impl Matcher<User> {
    let m0 = contains_str("a");
    let m1 = gt(17u32);
    let expected = fields_description(vec![
        ("name".to_string(), Matcher::<String>::description(&m0)),
        ("age".to_string(), Matcher::<u32>::description(&m1)),
    ]);
    judged(expected, move |subject: &User| {
        if let Some(miss) = field_verdict("name", &m0, &subject.name) {
            return Some(miss);
        }
        if let Some(miss) = field_verdict("age", &m1, &subject.age) {
            return Some(miss);
        }
        None
    })
}

/// What `matches_variant!(Event::Click { x: eq(3) })` builds.
fn click_at_three() -> impl Matcher<Event> {
    let m0 = eq(3);
    let expected = Description::labeled(
        "Click",
        fields_description(vec![("x".to_string(), Matcher::<i32>::description(&m0))]),
    );
    judged(expected, move |subject: &Event| match subject {
        Event::Click { x: p0, .. } => field_verdict("x", &m0, p0),
        _ => Some(wrong_variant("Click", format!("{:?}", subject))),
    })
}

#[test]
fn a_structural_matcher_describes_every_field_under_its_name() {
    let name = Matcher::<String>::description(&contains_str("a")).to_string();
    assert_eq!(
        adult_with_an_a().description().to_string(),
        format!("name:\n  {name} and age:\n  greater than 17")
    );
}

#[test]
fn a_structural_matcher_passes_when_every_field_matches() {
    assert!(adult_with_an_a().check(&User { name: "ada".to_string(), age: 36 }).matched);
}

#[test]
fn the_first_missing_field_reports_its_own_mismatch_under_its_name() {
    let failure = adult_with_an_a()
        .check(&User { name: "bob".to_string(), age: 3 })
        .failure
        .expect("bob has no a");
    assert!(failure.expected.to_string().starts_with("name:"), "{}", failure.expected.to_string());
    assert_eq!(failure.actual, "\"bob\"");
    let failure = adult_with_an_a()
        .check(&User { name: "ada".to_string(), age: 3 })
        .failure
        .expect("3 is not an adult");
    assert!(failure.expected.to_string().starts_with("age:"));
    assert_eq!(failure.actual, "3");
}

#[test]
fn a_value_of_another_variant_misses_as_a_whole() {
    assert!(click_at_three().check(&Event::Click { x: 3 }).matched);
    let failure = click_at_three().check(&Event::Close).failure.expect("Close is not Click");
    assert_eq!(failure.expected.to_string(), "the Click variant");
    assert_eq!(failure.actual, "Close");
    let failure = click_at_three().check(&Event::Click { x: 4 }).failure.expect("4 is not 3");
    assert_eq!(failure.expected.to_string(), "x:\n  equal to 3");
}

#[test]
fn no_fields_expect_a_matching_value() {
    assert_eq!(fields_description(Vec::new()).to_string(), "a matching value");
    assert_eq!(variant_label("Close").to_string(), "the Close variant");
}

#[test]
fn a_failed_result_without_detail_falls_back_to_the_description() {
    let result = MatchResult { matched: false, failure: None };
    let miss = field_failure("name", result, Description::text("anything")).expect("a miss");
    assert_eq!(miss.actual, "the field matcher reported failure without detail");
    assert_eq!(miss.expected.to_string(), "name:\n  anything");
    assert!(field_failure("name", MatchResult::pass(), Description::text("x")).is_none());
    let kept = Mismatch::new(Description::text("inner"), "v".to_string()).with_diff("d".to_string());
    let miss = field_failure("f", MatchResult::fail(kept), Description::text("x")).expect("a miss");
    assert_eq!(miss.diff.as_deref(), Some("d"));
}

#[test]
fn a_case_is_described_by_its_label_or_its_index() {
    assert_eq!(case_context(Some("two plus two"), 0, "adds", "2, 2, 4"), "test case \"two plus two\": adds(2, 2, 4)");
    assert_eq!(case_context(None, 3, "adds", "1, 1, 2"), "test case #3: adds(1, 1, 2)");
}

#[test]
fn case_names_sanitize_labels_and_disambiguate_collisions() {
    let labels = vec![Some("Two Plus Two".to_string()), None, Some("two-plus-two".to_string()), Some("9 lives".to_string())];
    assert_eq!(case_names(&labels), vec!["two_plus_two", "case_1", "two_plus_two_2", "_9_lives"]);
}

#[test]
fn arity_error_is_none_when_the_counts_agree() {
    assert_eq!(arity_error(3, "adds", 3), None);
    assert_eq!(arity_error(0, "nothing", 0), None);
}

#[test]
fn arity_error_names_both_counts_and_the_function() {
    assert_eq!(
        arity_error(2, "adds", 3),
        Some("this `#[test_case]` passes 2 argument(s) but `adds` takes 3".to_string())
    );
    assert_eq!(
        arity_error(12, "f", 1),
        Some("this `#[test_case]` passes 12 argument(s) but `f` takes 1".to_string())
    );
}
