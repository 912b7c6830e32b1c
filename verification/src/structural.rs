//! What the structural matchers decide: a struct, tuple or enum variant is
//! matched field by field, the first field that misses reports its own
//! mismatch under the field's name, and the expectation is the conjunction of
//! the fields' expectations, each under its name. A value of another variant
//! misses as a whole.
//!
//! The `matches_struct!`, `matches_tuple!` and `matches_variant!` expansions
//! project the fields and call these; the parametrized-test expansion checks
//! each case's arguments with [`arity_error`] and names it with
//! [`case_context`].

use vstd::prelude::*;

use crate::description::{desc_and, Desc, Description};
use crate::matcher::{MatchResult, Matcher, Mismatch, MismatchModel};
use crate::show::{decimal, push_decimal, str_debug, Show};
use crate::text::{chars_of, push_str, string_of};

verus! {

/// The expectation of the listed fields: each field's expectation under its
/// name, joined by conjunction in order; with no field, `a matching value`.
pub open spec fn fields_desc(parts: Seq<(Seq<char>, Desc)>) -> Desc
    decreases parts.len(),
{
    if parts.len() == 0 {
        Desc::Text("a matching value"@)
    } else if parts.len() == 1 {
        Desc::Labeled(parts[0].0, Box::new(parts[0].1))
    } else {
        desc_and(fields_desc(parts.drop_last()), Desc::Labeled(parts.last().0, Box::new(parts.last().1)))
    }
}

/// The view of labeled descriptions.
pub open spec fn parts_view(parts: Seq<(String, Description)>) -> Seq<(Seq<char>, Desc)> {
    parts.map_values(|p: (String, Description)| (p.0@, p.1@))
}

/// The expectation of a structural matcher over the listed fields.
pub fn fields_description(parts: Vec<(String, Description)>) -> (d: Description)
    ensures
        d@ == fields_desc(parts_view(parts@)),
{
    let ghost all = parts_view(parts@);
    let mut acc: Option<Description> = None;
    let mut rest = parts;
    let mut i: usize = 0;
    let n = rest.len();
    let ghost given = rest@;
    proof {
        reveal_strlit("a matching value");
    }
    while rest.len() > 0
        invariant
            n == given.len(),
            all == parts_view(given),
            rest@ == given.skip(i as int),
            i <= n,
            i == 0 ==> acc is None,
            i > 0 ==> (acc matches Some(d) && d@ == fields_desc(all.take(i as int))),
        decreases rest.len(),
    {
        let (label, child) = rest.remove(0);
        proof {
            assert(given[i as int] == (label, child));
            assert(all.take(i + 1).drop_last() =~= all.take(i as int));
            assert(all.take(i + 1).last() == (label@, child@));
            assert(rest@ =~= given.skip(i + 1));
        }
        let part = Description::labeled(label.as_str(), child);
        acc = match acc {
            None => Some(part),
            Some(d) => Some(d.and(part)),
        };
        i = i + 1;
    }
    proof {
        assert(all.take(n as int) =~= all);
    }
    match acc {
        Some(d) => d,
        None => Description::text("a matching value"),
    }
}

/// The message a failed field matcher gives when it carries no mismatch.
pub open spec fn no_detail() -> Seq<char> {
    "the field matcher reported failure without detail"@
}

/// A field's miss, reported under the field's name.
pub open spec fn field_miss(label: Seq<char>, inner: MismatchModel) -> MismatchModel {
    MismatchModel { expected: Desc::Labeled(label, Box::new(inner.expected)), actual: inner.actual, diff: inner.diff }
}

/// What a field's check result makes of the structural check: nothing when
/// the field matched; otherwise the field's mismatch under its name (a failed
/// result with no mismatch reports the field matcher's `description` and
/// says it gave no detail).
pub fn field_failure(label: &str, result: MatchResult, description: Description) -> (r: Option<Mismatch>)
    ensures
        result.matched ==> r is None,
        !result.matched ==> (r matches Some(m) && m@ == field_miss(
            label@,
            match result.failure {
                Some(f) => f@,
                None => MismatchModel { expected: description@, actual: no_detail(), diff: None },
            },
        )),
{
    if result.matched {
        return None;
    }
    let inner = match result.failure {
        Some(mismatch) => mismatch,
        None => {
            proof {
                reveal_strlit("the field matcher reported failure without detail");
            }
            Mismatch::new(description, String::from_str("the field matcher reported failure without detail"))
        },
    };
    Some(Mismatch { expected: Description::labeled(label, inner.expected), actual: inner.actual, diff: inner.diff })
}

/// Checks one field's `value` with its `matcher`: nothing when it matches,
/// otherwise the matcher's own mismatch under the field's name.
pub fn field_verdict<F: ?Sized, M: Matcher<F>>(label: &str, matcher: &M, value: &F) -> (r: Option<Mismatch>)
    ensures
        r is None <==> matcher.accepts(value),
        r matches Some(m) ==> m@ == field_miss(label@, matcher.rejection(value)),
{
    let result = matcher.check(value);
    field_failure(label, result, matcher.description())
}

/// `the <variant> variant`.
pub open spec fn variant_text(variant: Seq<char>) -> Seq<char> {
    "the "@ + variant + " variant"@
}

/// What a variant matcher expects when the variant has no field.
pub fn variant_label(variant: &str) -> (d: Description)
    ensures
        d@ == Desc::Text(variant_text(variant@)),
{
    let mut text = chars_of("the ");
    push_str(&mut text, variant);
    push_str(&mut text, " variant");
    proof {
        reveal_strlit("the ");
        reveal_strlit(" variant");
    }
    assert(text@ =~= variant_text(variant@));
    Description::from_chars(&text)
}

/// The miss of a value of another variant: the variant was expected, and the
/// value is shown as `shown`.
pub fn wrong_variant(variant: &str, shown: String) -> (m: Mismatch)
    ensures
        m@ == (MismatchModel { expected: Desc::Text(variant_text(variant@)), actual: shown@, diff: None }),
{
    Mismatch::new(variant_label(variant), shown)
}

/// `test case <label>: <function>(<args>)`, where the label is the case's own
/// label quoted, or `#<index>` when it has none.
pub open spec fn case_text(label: Option<Seq<char>>, index: nat, function: Seq<char>, args: Seq<char>) -> Seq<char> {
    "test case "@ + match label {
        Some(l) => str_debug(l),
        None => "#"@ + decimal(index),
    } + ": "@ + function + "("@ + args + ")"@
}

/// The context frame a parametrized test case's failure carries.
pub fn case_context(label: Option<&str>, index: usize, function: &str, args: &str) -> (s: String)
    ensures
        s@ == case_text(
            match label {
                Some(l) => Some(l@),
                None => None,
            },
            index as nat,
            function@,
            args@,
        ),
{
    let mut text = chars_of("test case ");
    match label {
        Some(l) => l.write_plain(&mut text),
        None => {
            push_str(&mut text, "#");
            push_decimal(&mut text, index as u64);
        },
    }
    push_str(&mut text, ": ");
    push_str(&mut text, function);
    push_str(&mut text, "(");
    push_str(&mut text, args);
    push_str(&mut text, ")");
    proof {
        reveal_strlit("test case ");
        reveal_strlit("#");
        reveal_strlit(": ");
        reveal_strlit("(");
        reveal_strlit(")");
    }
    let ghost lv = match label {
        Some(l) => Some(l@),
        None => None::<Seq<char>>,
    };
    assert(text@ =~= case_text(lv, index as nat, function@, args@));
    string_of(&text)
}

/// The complaint about a test case that passes `given` arguments to a
/// function taking `takes`.
pub open spec fn arity_text(given: nat, function: Seq<char>, takes: nat) -> Seq<char> {
    "this `#[test_case]` passes "@ + decimal(given) + " argument(s) but `"@ + function + "` takes "@
        + decimal(takes)
}

/// Checks a test case's argument count against its function's: `None` when
/// they agree, else the error the expansion reports for the case.
pub fn arity_error(given: usize, function: &str, takes: usize) -> (r: Option<String>)
    ensures
        given == takes ==> r is None,
        given != takes ==> (r matches Some(m) && m@ == arity_text(given as nat, function@, takes as nat)),
{
    if given == takes {
        return None;
    }
    let mut text = chars_of("this `#[test_case]` passes ");
    push_decimal(&mut text, given as u64);
    push_str(&mut text, " argument(s) but `");
    push_str(&mut text, function);
    push_str(&mut text, "` takes ");
    push_decimal(&mut text, takes as u64);
    proof {
        reveal_strlit("this `#[test_case]` passes ");
        reveal_strlit(" argument(s) but `");
        reveal_strlit("` takes ");
    }
    assert(text@ =~= arity_text(given as nat, function@, takes as nat));
    Some(string_of(&text))
}

} // verus!
