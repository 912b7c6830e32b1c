//! Fixture matchers with fixed outcomes: [`always_matches`] and
//! [`never_matches`]. They are for exercising code that consumes matchers
//! (combinators, the `check` entry points) without depending on a real
//! expectation.

use vstd::prelude::*;

use crate::description::{Desc, Description};
use crate::matcher::{MatchResult, Matcher, Mismatch, MismatchModel};

verus! {

/// The matcher behind [`always_matches`].
pub struct AlwaysMatches;

impl<T: ?Sized> Matcher<T> for AlwaysMatches {
    open spec fn expects(&self) -> Desc {
        Desc::Text("anything"@)
    }

    open spec fn accepts(&self, actual: &T) -> bool {
        true
    }

    open spec fn rejection(&self, actual: &T) -> MismatchModel {
        MismatchModel { expected: Desc::Text("anything"@), actual: Seq::empty(), diff: None }
    }

    fn check(&self, actual: &T) -> (r: MatchResult) {
        MatchResult::pass()
    }

    fn description(&self) -> (d: Description) {
        Description::text("anything")
    }
}

/// The matcher behind [`never_matches`].
pub struct NeverMatches;

impl<T: ?Sized> Matcher<T> for NeverMatches {
    open spec fn expects(&self) -> Desc {
        Desc::Text("nothing"@)
    }

    open spec fn accepts(&self, actual: &T) -> bool {
        false
    }

    open spec fn rejection(&self, actual: &T) -> MismatchModel {
        MismatchModel { expected: Desc::Text("nothing"@), actual: "<value>"@, diff: None }
    }

    fn check(&self, actual: &T) -> (r: MatchResult) {
        // `T` is unconstrained, so the actual value cannot be rendered; the
        // mismatch reports a fixed placeholder.
        MatchResult::fail(Mismatch::new(Description::text("nothing"), String::from_str("<value>")))
    }

    fn description(&self) -> (d: Description) {
        Description::text("nothing")
    }
}

/// A matcher that accepts every value, described as `anything`.
pub fn always_matches() -> (m: AlwaysMatches)
    ensures
        m == AlwaysMatches,
{
    AlwaysMatches
}

/// A matcher that rejects every value, described as `nothing`, reporting the
/// actual value as `<value>`.
pub fn never_matches() -> (m: NeverMatches)
    ensures
        m == NeverMatches,
{
    NeverMatches
}

} // verus!
