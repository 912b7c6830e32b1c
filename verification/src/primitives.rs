//! Primitive matchers: equality, ordering, and boolean checks.
//!
//! These are the leaves of the matcher library. They compare the actual value
//! against a stored expected value (`eq`, `lt`, ...) or against a fixed truth
//! (`is_true`, `is_false`).

use vstd::prelude::*;

use crate::description::{Desc, Description};
use crate::diff::{multi_line_diff, multi_line_diff_of};
use crate::equality::{Equate, Order};
use crate::matcher::{MatchResult, Matcher, Mismatch, MismatchModel};
use crate::show::Show;
use crate::text::{chars_of, push_all, string_of};

verus! {

/// The `{:?}`-style rendering of `value`, as a `String`.
pub fn rendered<T: Show + ?Sized>(value: &T) -> (s: String)
    ensures
        s@ == value.shown(),
{
    string_of(&value.show())
}

/// The description `prefix` followed by the rendering of `value`.
pub fn phrase<T: Show + ?Sized>(prefix: &str, value: &T) -> (d: Description)
    ensures
        d@ == Desc::Text(prefix@ + value.shown()),
{
    let mut text = chars_of(prefix);
    value.write_plain(&mut text);
    Description::from_chars(&text)
}

/// A mismatch that reports `actual` by its rendering, with no diff.
pub open spec fn plain_rejection(expected: Desc, actual: Seq<char>) -> MismatchModel {
    MismatchModel { expected, actual, diff: None }
}

/// The matcher behind [`eq`]. On a mismatch whose values render over several
/// lines in their pretty form, the failure carries a line-oriented diff.
pub struct EqMatcher<T> {
    pub expected: T,
}

impl<T: Equate + Show> Matcher<T> for EqMatcher<T> {
    open spec fn expects(&self) -> Desc {
        Desc::Text("equal to "@ + self.expected.shown())
    }

    open spec fn accepts(&self, actual: &T) -> bool {
        actual.same(&self.expected)
    }

    open spec fn rejection(&self, actual: &T) -> MismatchModel {
        MismatchModel {
            expected: self.expects(),
            actual: actual.shown(),
            diff: multi_line_diff_of(self.expected.shown_pretty(), actual.shown_pretty()),
        }
    }

    fn check(&self, actual: &T) -> (r: MatchResult) {
        if actual.equals(&self.expected) {
            return MatchResult::pass();
        }
        let mut mismatch = Mismatch::new(self.description(), rendered(actual));
        let e = string_of(&self.expected.show_pretty());
        let a = string_of(&actual.show_pretty());
        match multi_line_diff(e.as_str(), a.as_str()) {
            Some(d) => {
                mismatch = mismatch.with_diff(d);
            },
            None => {},
        }
        MatchResult::fail(mismatch)
    }

    fn description(&self) -> (d: Description) {
        proof {
            reveal_strlit("equal to ");
        }
        phrase("equal to ", &self.expected)
    }
}

/// Matches a value equal to `expected`.
///
/// On a mismatch where the values' pretty representations are multi-line (a
/// struct, a collection), the failure carries a line-oriented diff.
pub fn eq<T: Equate + Show>(expected: T) -> (m: EqMatcher<T>)
    ensures
        m.expected == expected,
{
    EqMatcher { expected }
}

/// The matcher behind [`ne`].
pub struct NeMatcher<T> {
    pub expected: T,
}

impl<T: Equate + Show> Matcher<T> for NeMatcher<T> {
    open spec fn expects(&self) -> Desc {
        Desc::Text("not equal to "@ + self.expected.shown())
    }

    open spec fn accepts(&self, actual: &T) -> bool {
        !actual.same(&self.expected)
    }

    open spec fn rejection(&self, actual: &T) -> MismatchModel {
        plain_rejection(self.expects(), actual.shown())
    }

    fn check(&self, actual: &T) -> (r: MatchResult) {
        if !actual.equals(&self.expected) {
            MatchResult::pass()
        } else {
            MatchResult::fail(Mismatch::new(self.description(), rendered(actual)))
        }
    }

    fn description(&self) -> (d: Description) {
        proof {
            reveal_strlit("not equal to ");
        }
        phrase("not equal to ", &self.expected)
    }
}

/// Matches a value not equal to `expected`.
pub fn ne<T: Equate + Show>(expected: T) -> (m: NeMatcher<T>)
    ensures
        m.expected == expected,
{
    NeMatcher { expected }
}

/// The matcher behind [`lt`].
pub struct LtMatcher<T> {
    pub expected: T,
}

impl<T: Order + Show> Matcher<T> for LtMatcher<T> {
    open spec fn expects(&self) -> Desc {
        Desc::Text("less than "@ + self.expected.shown())
    }

    open spec fn accepts(&self, actual: &T) -> bool {
        actual.before(&self.expected)
    }

    open spec fn rejection(&self, actual: &T) -> MismatchModel {
        plain_rejection(self.expects(), actual.shown())
    }

    fn check(&self, actual: &T) -> (r: MatchResult) {
        if actual.less_than(&self.expected) {
            MatchResult::pass()
        } else {
            MatchResult::fail(Mismatch::new(self.description(), rendered(actual)))
        }
    }

    fn description(&self) -> (d: Description) {
        proof {
            reveal_strlit("less than ");
        }
        phrase("less than ", &self.expected)
    }
}

/// Matches a value strictly less than `expected`.
pub fn lt<T: Order + Show>(expected: T) -> (m: LtMatcher<T>)
    ensures
        m.expected == expected,
{
    LtMatcher { expected }
}

/// The matcher behind [`le`].
pub struct LeMatcher<T> {
    pub expected: T,
}

impl<T: Order + Show> Matcher<T> for LeMatcher<T> {
    open spec fn expects(&self) -> Desc {
        Desc::Text("less than or equal to "@ + self.expected.shown())
    }

    open spec fn accepts(&self, actual: &T) -> bool {
        actual.before(&self.expected) || actual.same(&self.expected)
    }

    open spec fn rejection(&self, actual: &T) -> MismatchModel {
        plain_rejection(self.expects(), actual.shown())
    }

    fn check(&self, actual: &T) -> (r: MatchResult) {
        if actual.less_than(&self.expected) || actual.equals(&self.expected) {
            MatchResult::pass()
        } else {
            MatchResult::fail(Mismatch::new(self.description(), rendered(actual)))
        }
    }

    fn description(&self) -> (d: Description) {
        proof {
            reveal_strlit("less than or equal to ");
        }
        phrase("less than or equal to ", &self.expected)
    }
}

/// Matches a value less than or equal to `expected`.
pub fn le<T: Order + Show>(expected: T) -> (m: LeMatcher<T>)
    ensures
        m.expected == expected,
{
    LeMatcher { expected }
}

/// The matcher behind [`gt`].
pub struct GtMatcher<T> {
    pub expected: T,
}

impl<T: Order + Show> Matcher<T> for GtMatcher<T> {
    open spec fn expects(&self) -> Desc {
        Desc::Text("greater than "@ + self.expected.shown())
    }

    open spec fn accepts(&self, actual: &T) -> bool {
        self.expected.before(actual)
    }

    open spec fn rejection(&self, actual: &T) -> MismatchModel {
        plain_rejection(self.expects(), actual.shown())
    }

    fn check(&self, actual: &T) -> (r: MatchResult) {
        if self.expected.less_than(actual) {
            MatchResult::pass()
        } else {
            MatchResult::fail(Mismatch::new(self.description(), rendered(actual)))
        }
    }

    fn description(&self) -> (d: Description) {
        proof {
            reveal_strlit("greater than ");
        }
        phrase("greater than ", &self.expected)
    }
}

/// Matches a value strictly greater than `expected`.
pub fn gt<T: Order + Show>(expected: T) -> (m: GtMatcher<T>)
    ensures
        m.expected == expected,
{
    GtMatcher { expected }
}

/// The matcher behind [`ge`].
pub struct GeMatcher<T> {
    pub expected: T,
}

impl<T: Order + Show> Matcher<T> for GeMatcher<T> {
    open spec fn expects(&self) -> Desc {
        Desc::Text("greater than or equal to "@ + self.expected.shown())
    }

    open spec fn accepts(&self, actual: &T) -> bool {
        self.expected.before(actual) || actual.same(&self.expected)
    }

    open spec fn rejection(&self, actual: &T) -> MismatchModel {
        plain_rejection(self.expects(), actual.shown())
    }

    fn check(&self, actual: &T) -> (r: MatchResult) {
        if self.expected.less_than(actual) || actual.equals(&self.expected) {
            MatchResult::pass()
        } else {
            MatchResult::fail(Mismatch::new(self.description(), rendered(actual)))
        }
    }

    fn description(&self) -> (d: Description) {
        proof {
            reveal_strlit("greater than or equal to ");
        }
        phrase("greater than or equal to ", &self.expected)
    }
}

/// Matches a value greater than or equal to `expected`.
pub fn ge<T: Order + Show>(expected: T) -> (m: GeMatcher<T>)
    ensures
        m.expected == expected,
{
    GeMatcher { expected }
}

/// A matcher for a fixed boolean truth, behind [`is_true`] and [`is_false`].
pub struct BoolMatcher {
    pub expected: bool,
}

impl Matcher<bool> for BoolMatcher {
    open spec fn expects(&self) -> Desc {
        Desc::Text(if self.expected { "true"@ } else { "false"@ })
    }

    open spec fn accepts(&self, actual: &bool) -> bool {
        *actual == self.expected
    }

    open spec fn rejection(&self, actual: &bool) -> MismatchModel {
        plain_rejection(self.expects(), actual.shown())
    }

    fn check(&self, actual: &bool) -> (r: MatchResult) {
        if *actual == self.expected {
            MatchResult::pass()
        } else {
            MatchResult::fail(Mismatch::new(self.description(), rendered(actual)))
        }
    }

    fn description(&self) -> (d: Description) {
        if self.expected {
            Description::text("true")
        } else {
            Description::text("false")
        }
    }
}

/// Matches `true`.
pub fn is_true() -> (m: BoolMatcher)
    ensures
        m.expected,
{
    BoolMatcher { expected: true }
}

/// Matches `false`.
pub fn is_false() -> (m: BoolMatcher)
    ensures
        !m.expected,
{
    BoolMatcher { expected: false }
}

} // verus!
