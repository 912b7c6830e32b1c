use std::collections::{BTreeSet, HashSet, VecDeque};

use test_better::collections::{at_least_one, contains, contains_all, contains_in_order, every, have_len, is_empty, is_not_empty};
use test_better::combinators::{all_of, any_of, not};
use test_better::description::Description;
use test_better::fixtures::{always_matches, never_matches};
use test_better::matcher::{MatchResult, Matcher, Mismatch};
use test_better::option_result::{err, none, ok, some};
use test_better::predicate::{judged, predicate, satisfies};
use test_better::primitives::{eq, ge, gt, is_false, is_true, le, lt, ne};
use test_better::strings::{contains_str, ends_with, matches_regex, regex_verdict, starts_with};

#[test]
fn text_renders_verbatim() {
    assert_eq!(Description::text("equal to 4").to_string(), "equal to 4".to_string());
}

#[test]
fn not_negates_and_double_negation_cancels() {
    let base = Description::text("equal to 4");
    assert_eq!((!base.clone()).to_string(), "not equal to 4".to_string());
    assert_eq!((!!base).to_string(), "equal to 4".to_string());
}

#[test]
fn and_flattens_and_joins() {
    let combined = Description::text("greater than 0")
        .and(Description::text("less than 100"))
        .and(Description::text("even"));
    assert_eq!(combined.to_string(), "greater than 0 and less than 100 and even".to_string());
}

#[test]
fn or_flattens_and_joins() {
    let combined = Description::text("zero").or(Description::text("one")).or(Description::text("two"));
    assert_eq!(combined.to_string(), "zero or one or two".to_string());
}

#[test]
fn or_inside_and_is_parenthesized() {
    let combined = Description::text("positive").and(Description::text("small").or(Description::text("huge")));
    assert_eq!(combined.to_string(), "positive and (small or huge)".to_string());
}

#[test]
fn not_of_compound_is_parenthesized() {
    let combined = !Description::text("a").and(Description::text("b"));
    assert_eq!(combined.to_string(), "not (a and b)".to_string());
}

#[test]
fn labeled_indents_the_child() {
    let described = Description::labeled("some", Description::text("equal to 42"));
    assert_eq!(described.to_string(), "some:\n  equal to 42".to_string());
}

#[test]
fn nested_labels_indent_two_spaces_per_level() {
    let described = Description::labeled("some", Description::labeled("ok", Description::text("equal to 42")));
    assert_eq!(described.to_string(), "some:\n  ok:\n    equal to 42".to_string());
}

#[test]
fn pass_has_no_failure() {
    let result = MatchResult::pass();
    assert!(result.matched);
    assert!(result.failure.is_none());
}

#[test]
fn fail_carries_the_mismatch() {
    let mismatch = Mismatch::new(Description::text("equal to 4"), "5".to_string());
    let result = MatchResult::fail(mismatch);
    assert!(!result.matched);
    let failure = result.failure.expect("fail() stores the mismatch");
    assert_eq!(failure.expected.to_string(), "equal to 4".to_string());
    assert_eq!(failure.actual, "5".to_string());
    assert!(failure.diff.is_none());
}

#[test]
fn mismatch_with_diff_stores_the_diff() {
    let mismatch = Mismatch::new(Description::text("the file"), "other".to_string()).with_diff("- a\n+ b".to_string());
    assert_eq!(mismatch.diff.as_deref(), Some("- a\n+ b"));
}

#[test]
fn eq_passes_and_fails_with_rendered_mismatch() {
    assert!(eq(4).check(&4).matched);
    let failure = eq(4).check(&5).failure.expect("5 is not 4");
    assert_eq!(failure.expected.to_string(), "equal to 4");
    assert_eq!(failure.actual, "5");
}

#[test]
fn eq_omits_a_diff_for_single_line_values() {
    let failure = eq(4).check(&5).failure.expect("5 is not 4");
    assert!(failure.diff.is_none(), "{:?}", failure.diff);
}

#[test]
fn eq_attaches_a_diff_when_the_pretty_repr_is_multi_line() {
    let failure = eq(vec![1, 2, 3]).check(&vec![1, 2, 4]).failure.expect("the vectors differ");
    let diff = failure.diff.expect("multi-line pretty reprs get a diff");
    assert!(diff.contains("-    3,"), "{diff}");
    assert!(diff.contains("+    4,"), "{diff}");
}

#[test]
fn comparison_matchers_pass_and_fail_with_rendered_mismatch() {
    assert!(ne(4).check(&5).matched);
    let failure = ne(4).check(&4).failure.expect("4 is equal to 4");
    assert_eq!(failure.expected.to_string(), "not equal to 4");
    assert_eq!(failure.actual, "4");
    assert!(lt(10).check(&9).matched);
    let failure = lt(10).check(&10).failure.expect("10 is not < 10");
    assert_eq!(failure.expected.to_string(), "less than 10");
    assert!(le(10).check(&10).matched);
    let failure = le(10).check(&11).failure.expect("11 is not <= 10");
    assert_eq!(failure.expected.to_string(), "less than or equal to 10");
    assert!(gt(0).check(&1).matched);
    let failure = gt(0).check(&0).failure.expect("0 is not > 0");
    assert_eq!(failure.expected.to_string(), "greater than 0");
    assert!(ge(0).check(&0).matched);
    let failure = ge(0).check(&-1).failure.expect("-1 is not >= 0");
    assert_eq!(failure.expected.to_string(), "greater than or equal to 0");
    assert_eq!(failure.actual, "-1");
}

#[test]
fn bool_matchers_pass_and_fail_with_rendered_mismatch() {
    assert!(is_true().check(&true).matched);
    let failure = is_true().check(&false).failure.expect("false is not true");
    assert_eq!(failure.expected.to_string(), "true");
    assert_eq!(failure.actual, "false");
    assert!(is_false().check(&false).matched);
    let failure = is_false().check(&true).failure.expect("true is not false");
    assert_eq!(failure.expected.to_string(), "false");
    assert_eq!(failure.actual, "true");
}

#[test]
fn eq_renders_strings_quoted() {
    let failure = eq("a\"b".to_string()).check(&"c".to_string()).failure.expect("differ");
    assert_eq!(failure.expected.to_string(), "equal to \"a\\\"b\"");
    assert_eq!(failure.actual, "\"c\"");
}

#[test]
fn not_inverts_the_inner_matcher() {
    assert!(not(eq(4)).check(&5).matched);
    assert!(!not(eq(4)).check(&4).matched);
}

#[test]
fn not_failure_negates_the_description_and_renders_the_actual() {
    let failure = not(eq(4)).check(&4).failure.expect("4 does match eq(4), so not(eq(4)) fails");
    assert_eq!(failure.expected.to_string(), "not equal to 4".to_string());
    assert_eq!(failure.actual, "4".to_string());
}

#[test]
fn all_of_passes_when_every_matcher_matches() {
    assert!(all_of((gt(0), lt(100))).check(&50).matched);
}

#[test]
fn all_of_fails_with_the_first_failing_sub_matcher() {
    let failure = all_of((gt(0), lt(100))).check(&150).failure.expect("150 is not less than 100");
    assert_eq!(failure.expected.to_string(), "less than 100".to_string());
    assert_eq!(failure.actual, "150".to_string());
}

#[test]
fn all_of_describes_itself_as_a_conjunction() {
    let description = all_of((gt(0), lt(100))).description();
    assert_eq!(description.to_string(), "greater than 0 and less than 100".to_string());
}

#[test]
fn any_of_passes_when_at_least_one_matcher_matches() {
    assert!(any_of((eq(7), eq(8), eq(9))).check(&8).matched);
}

#[test]
fn any_of_fails_when_no_matcher_matches() {
    let failure = any_of((eq(7), eq(8), eq(9))).check(&1).failure.expect("1 is none of 7, 8, 9");
    assert_eq!(failure.expected.to_string(), "equal to 7 or equal to 8 or equal to 9".to_string());
    assert_eq!(failure.actual, "1".to_string());
}

#[test]
fn combinators_nest() {
    assert!(all_of((not(eq(0)), lt(100))).check(&50).matched);
    assert!(!all_of((not(eq(0)), lt(100))).check(&0).matched);
}

#[test]
fn all_of_supports_arity_eight() {
    let matcher = all_of((gt(0), lt(100), gt(1), lt(99), gt(2), lt(98), gt(3), lt(97)));
    assert!(matcher.check(&50).matched);
}

#[test]
fn always_matches_passes_for_any_type() {
    assert!(always_matches().check(&42).matched);
    assert!(always_matches().check("a str").matched);
    assert!(always_matches().check(&[1, 2, 3][..]).matched);
}

#[test]
fn never_matches_fails_with_a_described_mismatch() {
    let result = never_matches().check(&42);
    assert!(!result.matched);
    let failure = result.failure.expect("never_matches always fails");
    assert_eq!(failure.expected.to_string(), "nothing".to_string());
    assert_eq!(failure.actual, "<value>".to_string());
}

#[test]
fn some_matches_a_some_whose_value_satisfies_the_inner_matcher() {
    assert!(some(eq(42)).check(&Some(42)).matched);
    assert!(!some(eq(42)).check(&Some(7)).matched);
    assert!(!some(eq(42)).check(&None).matched);
}

#[test]
fn some_of_none_reports_none_as_the_actual() {
    let failure = some(eq(42)).check(&None).failure.expect("None is not Some");
    assert_eq!(failure.expected.to_string(), "some:\n  equal to 42".to_string());
    assert_eq!(failure.actual, "None".to_string());
}

#[test]
fn none_matches_only_none() {
    assert!(none::<i32>().check(&None).matched);
    let failure = none().check(&Some(7)).failure.expect("Some(7) is not None");
    assert_eq!(failure.expected.to_string(), "none".to_string());
    assert_eq!(failure.actual, "Some(7)".to_string());
}

#[test]
fn ok_and_err_check_the_variant_and_the_payload() {
    assert!(ok::<i32, &str, _>(eq(42)).check(&Ok(42)).matched);
    let failure = ok::<i32, &str, _>(eq(42)).check(&Err("boom")).failure.expect("Err is not Ok");
    assert_eq!(failure.expected.to_string(), "ok:\n  equal to 42".to_string());
    assert_eq!(failure.actual, "Err(\"boom\")".to_string());
    let failure = err::<i32, &str, _>(eq("boom")).check(&Ok(0)).failure.expect("Ok is not Err");
    assert_eq!(failure.expected.to_string(), "err:\n  equal to \"boom\"".to_string());
    assert_eq!(failure.actual, "Ok(0)".to_string());
}

#[test]
fn nested_matchers_render_aligned_indented_expected_blocks() {
    let matcher = some(ok::<i32, &str, _>(eq(42)));
    assert!(matcher.check(&Some(Ok(42))).matched);
    let failure = matcher.check(&Some(Ok(43))).failure.expect("43 is not 42");
    assert_eq!(failure.expected.to_string(), "some:\n  ok:\n    equal to 42".to_string());
    assert_eq!(failure.actual, "43".to_string());
}

#[test]
fn predicate_runs_the_closure() {
    assert!(predicate("even", |n: &i32| n % 2 == 0).check(&4).matched);
    assert!(!predicate("even", |n: &i32| n % 2 == 0).check(&3).matched);
}

#[test]
fn predicate_failure_reports_the_name_not_the_closure() {
    let failure = predicate("a positive number", |n: &i32| *n > 0).check(&-1).failure.expect("-1 is not positive");
    assert_eq!(failure.expected.to_string(), "a positive number".to_string());
    assert_eq!(failure.actual, "-1".to_string());
}

#[test]
fn satisfies_runs_the_predicate() {
    assert!(satisfies("even", |n: &i32| n % 2 == 0).check(&4).matched);
    assert!(!satisfies("even", |n: &i32| n % 2 == 0).check(&3).matched);
}

#[test]
fn contains_str_matches_a_substring() {
    assert!(contains_str("ell").check("hello").matched);
    assert!(!contains_str("xyz").check("hello").matched);
    assert!(contains_str("ell").check(&String::from("hello")).matched);
}

#[test]
fn starts_with_and_ends_with_check_the_ends() {
    assert!(starts_with("he").check("hello").matched);
    assert!(!starts_with("lo").check("hello").matched);
    assert!(ends_with("lo").check("hello").matched);
    assert!(!ends_with("he").check("hello").matched);
}

#[test]
fn contains_str_failure_describes_the_needle_and_renders_the_actual() {
    let failure = contains_str("xyz").check("hello").failure.expect("no xyz");
    assert_eq!(failure.expected.to_string(), "a string containing \"xyz\"");
    assert_eq!(failure.actual, "\"hello\"");
    assert!(failure.diff.is_none());
}

#[test]
fn multi_line_string_mismatch_carries_a_diff() {
    let failure = starts_with("line one\nline 2").check("line one\nline two").failure.expect("prefix differs");
    let diff = failure.diff.expect("a multi-line needle gets a diff");
    assert_eq!(diff, " line one\n-line 2\n+line two");
}

#[test]
fn matches_regex_matches_and_reports() {
    assert!(matches_regex(r"\d+").check("abc123").matched);
    assert!(!matches_regex(r"^\d+$").check("abc123").matched);
}

#[test]
fn matches_regex_reports_an_invalid_pattern_as_a_failure() {
    let failure = matches_regex(r"(unclosed").check("anything").failure.expect("an invalid pattern fails");
    assert!(failure.actual.starts_with("<invalid regex \"(unclosed\": "), "{}", failure.actual);
}

#[test]
fn have_len_matches_the_exact_length() {
    assert!(have_len(3).check(&vec![1, 2, 3]).matched);
    let failure = have_len(3).check(&vec![1, 2]).failure.expect("length 2 is not 3");
    assert_eq!(failure.expected.to_string(), "a sequence of length 3".to_string());
    assert_eq!(failure.actual, "a sequence of length 2".to_string());
}

#[test]
fn is_empty_and_is_not_empty_are_opposites() {
    assert!(is_empty().check(&Vec::<i32>::new()).matched);
    assert!(!is_empty().check(&vec![1]).matched);
    assert!(is_not_empty().check(&vec![1]).matched);
    assert!(!is_not_empty().check(&Vec::<i32>::new()).matched);
}

#[test]
fn contains_finds_a_matching_item() {
    assert!(contains(eq(2)).check(&vec![1, 2, 3]).matched);
    let failure = contains(eq(9)).check(&vec![1, 2, 3]).failure.expect("9 is not in the sequence");
    assert_eq!(failure.actual, "[1, 2, 3]".to_string());
}

#[test]
fn every_names_the_index_of_the_first_failure() {
    assert!(every(gt(0)).check(&vec![1, 2, 3]).matched);
    let failure = every(gt(0)).check(&vec![1, 2, -1, 4]).failure.expect("-1 is not greater than 0");
    assert!(failure.actual.contains("index 2"));
    assert_eq!(failure.actual, "item at index 2 was -1");
}

#[test]
fn at_least_one_matches_when_some_item_does() {
    assert!(at_least_one(gt(2)).check(&vec![1, 2, 3]).matched);
    assert!(!at_least_one(gt(9)).check(&vec![1, 2, 3]).matched);
}

#[test]
fn contains_in_order_respects_order_but_not_adjacency() {
    assert!(contains_in_order([eq(2), eq(4)]).check(&vec![1, 2, 3, 4]).matched);
    let failure = contains_in_order([eq(4), eq(2)]).check(&vec![1, 2, 3, 4]).failure.expect("2 does not come after 4");
    assert!(failure.actual.contains("matcher at index 1"));
    assert_eq!(
        failure.expected.to_string(),
        "a sequence containing, in order: equal to 4, then equal to 2"
    );
}

#[test]
fn contains_all_requires_every_matcher_to_be_satisfied() {
    assert!(contains_all((eq(1), gt(2))).check(&vec![1, 2, 3]).matched);
    let failure = contains_all((eq(1), gt(9))).check(&vec![1, 2, 3]).failure.expect("nothing is greater than 9");
    assert!(failure.expected.to_string().contains("greater than 9"));
}

#[test]
fn collection_matchers_work_across_collection_types() {
    let deque: VecDeque<i32> = VecDeque::from(vec![1, 2, 3]);
    assert!(have_len(3).check(&deque).matched);

    let btree: BTreeSet<i32> = BTreeSet::from([1, 2, 3]);
    assert!(contains(eq(2)).check(&btree).matched);

    let set: HashSet<i32> = HashSet::from([1, 2, 3]);
    assert!(every(gt(0)).check(&set).matched);

    let slice: &[i32] = &[10, 20, 30];
    assert!(contains_in_order([eq(10), eq(30)]).check(&slice).matched);

    let array = [1, 2, 3];
    assert!(every(lt(4)).check(&array).matched);
}

#[test]
fn ne_passes_and_fails_with_rendered_mismatch() {
    assert!(ne(4).check(&5).matched);
    let failure = ne(4).check(&4).failure.expect("4 is equal to 4");
    assert_eq!(failure.expected.to_string(), "not equal to 4");
    assert_eq!(failure.actual, "4");
}

#[test]
fn lt_passes_and_fails_with_rendered_mismatch() {
    assert!(lt(10).check(&9).matched);
    let failure = lt(10).check(&10).failure.expect("10 is not < 10");
    assert_eq!(failure.expected.to_string(), "less than 10");
    assert_eq!(failure.actual, "10");
}

#[test]
fn le_passes_and_fails_with_rendered_mismatch() {
    assert!(le(10).check(&10).matched);
    let failure = le(10).check(&11).failure.expect("11 is not <= 10");
    assert_eq!(failure.expected.to_string(), "less than or equal to 10");
    assert_eq!(failure.actual, "11");
}

#[test]
fn gt_passes_and_fails_with_rendered_mismatch() {
    assert!(gt(0).check(&1).matched);
    let failure = gt(0).check(&0).failure.expect("0 is not > 0");
    assert_eq!(failure.expected.to_string(), "greater than 0");
    assert_eq!(failure.actual, "0");
}

#[test]
fn ge_passes_and_fails_with_rendered_mismatch() {
    assert!(ge(0).check(&0).matched);
    let failure = ge(0).check(&-1).failure.expect("-1 is not >= 0");
    assert_eq!(failure.expected.to_string(), "greater than or equal to 0");
    assert_eq!(failure.actual, "-1");
}

#[test]
fn is_true_passes_and_fails_with_rendered_mismatch() {
    assert!(is_true().check(&true).matched);
    let failure = is_true().check(&false).failure.expect("false is not true");
    assert_eq!(failure.expected.to_string(), "true");
    assert_eq!(failure.actual, "false");
}

#[test]
fn is_false_passes_and_fails_with_rendered_mismatch() {
    assert!(is_false().check(&false).matched);
    let failure = is_false().check(&true).failure.expect("true is not false");
    assert_eq!(failure.expected.to_string(), "false");
    assert_eq!(failure.actual, "true");
}

#[test]
fn ok_matches_an_ok_whose_value_satisfies_the_inner_matcher() {
    assert!(ok::<i32, &str, _>(eq(42)).check(&Ok(42)).matched);
    let failure = ok::<i32, &str, _>(eq(42)).check(&Err("boom")).failure.expect("Err is not Ok");
    assert_eq!(failure.expected.to_string(), "ok:\n  equal to 42".to_string());
    assert_eq!(failure.actual, "Err(\"boom\")".to_string());
}

#[test]
fn err_matches_an_err_whose_value_satisfies_the_inner_matcher() {
    assert!(err::<i32, &str, _>(eq("boom")).check(&Err("boom")).matched);
    let failure = err::<i32, &str, _>(eq("boom")).check(&Ok(0)).failure.expect("Ok is not Err");
    assert_eq!(failure.expected.to_string(), "err:\n  equal to \"boom\"".to_string());
    assert_eq!(failure.actual, "Ok(0)".to_string());
}

#[test]
fn satisfies_failure_reports_the_name_not_the_closure() {
    let failure = satisfies("a positive number", |n: &i32| *n > 0).check(&-1).failure.expect("-1 is not positive");
    assert_eq!(failure.expected.to_string(), "a positive number".to_string());
    assert_eq!(failure.actual, "-1".to_string());
}

#[test]
fn equal_input_is_all_context_lines() {
    assert_eq!(test_better::diff::diff_lines("one\ntwo", "one\ntwo"), " one\n two".to_string());
}

#[test]
fn a_changed_line_becomes_a_delete_then_an_insert() {
    let diff = test_better::diff::diff_lines("keep\nold\nkeep", "keep\nnew\nkeep");
    assert_eq!(diff, " keep\n-old\n+new\n keep".to_string());
}

#[test]
fn has_no_trailing_newline() {
    let diff = test_better::diff::diff_lines("a\n", "b\n");
    assert!(!diff.ends_with('\n'));
}

#[test]
fn a_single_line_pair_gets_no_diff_but_a_multi_line_pair_does() {
    assert_eq!(test_better::diff::multi_line_diff("a", "b"), None);
    assert_eq!(test_better::diff::multi_line_diff("a\nb", "a\nc").as_deref(), Some(" a\n-b\n+c"));
}

#[test]
fn a_judged_matcher_reports_its_own_rendering_of_a_miss() {
    let even = judged(Description::text("an even number"), |n: &i32| {
        if n % 2 == 0 { None } else { Some(Mismatch::new(Description::text("an even number"), format!("{n} (odd)"))) }
    });
    assert!(even.check(&4).matched);
    let failure = even.check(&7).failure.expect("7 is odd");
    assert_eq!(failure.expected.to_string(), "an even number");
    assert_eq!(failure.actual, "7 (odd)");
    assert_eq!(even.description().to_string(), "an even number");
}

#[test]
fn multi_line_string_mismatch_matches_the_golden_file() {
    let expected = "the quick brown fox\njumps over the lazy dog\nand then keeps running";
    let actual = "the quick brown fox\nleaps over the lazy cat\nand then keeps running";
    let rendered = test_better::diff::diff_lines(expected, actual);
    assert_eq!(
        rendered,
        " the quick brown fox\n-jumps over the lazy dog\n+leaps over the lazy cat\n and then keeps running",
        "diff drifted from golden"
    );
}

#[test]
fn a_regex_verdict_reports_a_refused_pattern_and_a_miss() {
    let pattern = "a+".to_string();
    let refused = regex_verdict(&pattern, "bbb", Err("unclosed group".to_string()));
    let failure = refused.failure.expect("a refused pattern fails");
    assert_eq!(failure.actual, "<invalid regex \"a+\": unclosed group>");
    assert_eq!(failure.expected.to_string(), "a string matching the regex \"a+\"");
    let missed = regex_verdict(&pattern, "bbb", Ok(false)).failure.expect("no match fails");
    assert_eq!(missed.actual, "\"bbb\"");
    assert!(regex_verdict(&pattern, "aaa", Ok(true)).matched);
}
