//! The [`Matcher`] trait and its result types, [`MatchResult`] and
//! [`Mismatch`].
//!
//! A matcher is a reusable expectation: it inspects a borrowed value and
//! reports, in structured form, whether the value met the expectation and, if
//! not, what was expected, what was found, and an optional diff.

use vstd::prelude::*;

use crate::description::{Desc, Description};

verus! {

/// The mathematical form of a [`Mismatch`].
pub struct MismatchModel {
    pub expected: Desc,
    pub actual: Seq<char>,
    pub diff: Option<Seq<char>>,
}

/// Why a value failed a matcher: what was expected, what was found, and an
/// optional diff between the two.
pub struct Mismatch {
    /// The matcher's expectation, as a composable [`Description`].
    pub expected: Description,
    /// The rendering of the actual value.
    pub actual: String,
    /// An optional pre-rendered diff between expected and actual.
    pub diff: Option<String>,
}

/// The view of an optional string.
pub open spec fn opt_chars(s: Option<String>) -> Option<Seq<char>> {
    match s {
        Some(t) => Some(t@),
        None => None,
    }
}

impl View for Mismatch {
    type V = MismatchModel;

    open spec fn view(&self) -> MismatchModel {
        MismatchModel { expected: self.expected@, actual: self.actual@, diff: opt_chars(self.diff) }
    }
}

impl Clone for Mismatch {
    fn clone(&self) -> (out: Mismatch)
        ensures
            out@ == self@,
    {
        Mismatch {
            expected: self.expected.clone(),
            actual: self.actual.clone(),
            diff: match &self.diff {
                Some(d) => Some(d.clone()),
                None => None,
            },
        }
    }
}

impl Mismatch {
    /// A mismatch with no diff.
    pub fn new(expected: Description, actual: String) -> (m: Mismatch)
        ensures
            m@ == (MismatchModel { expected: expected@, actual: actual@, diff: None }),
    {
        Mismatch { expected, actual, diff: None }
    }

    /// Attaches a pre-rendered diff, consuming and returning `self`.
    pub fn with_diff(self, diff: String) -> (m: Mismatch)
        ensures
            m@ == (MismatchModel { expected: self@.expected, actual: self@.actual, diff: Some(diff@) }),
    {
        Mismatch { expected: self.expected, actual: self.actual, diff: Some(diff) }
    }
}

/// The structured outcome of [`Matcher::check`].
///
/// `matched` and `failure` always disagree: `matched == failure.is_none()`,
/// as [`MatchResult::wf`] states and every constructor and matcher ensures.
pub struct MatchResult {
    /// Whether the value met the expectation.
    pub matched: bool,
    /// The mismatch detail, present exactly when `matched` is `false`.
    pub failure: Option<Mismatch>,
}

impl MatchResult {
    /// `matched` and `failure` agree.
    pub open spec fn wf(&self) -> bool {
        self.matched == self.failure.is_none()
    }

    /// The mismatch carried by a failed result.
    pub open spec fn mismatch(&self) -> MismatchModel {
        self.failure.unwrap()@
    }

    /// The value met the expectation.
    pub fn pass() -> (r: MatchResult)
        ensures
            r.wf(),
            r.matched,
    {
        MatchResult { matched: true, failure: None }
    }

    /// The value did not meet the expectation; `mismatch` explains why.
    pub fn fail(mismatch: Mismatch) -> (r: MatchResult)
        ensures
            r.wf(),
            !r.matched,
            r.mismatch() == mismatch@,
    {
        MatchResult { matched: false, failure: Some(mismatch) }
    }
}

/// A reusable expectation about a value of type `T`.
///
/// `T` is `?Sized` so matchers can target unsized values directly (`str`,
/// `[u8]`).
pub trait Matcher<T: ?Sized> {
    /// What the matcher expects.
    spec fn expects(&self) -> Desc;

    /// Whether `actual` meets the expectation.
    spec fn accepts(&self, actual: &T) -> bool;

    /// What the failure reports when `actual` does not meet the expectation.
    spec fn rejection(&self, actual: &T) -> MismatchModel;

    /// Checks `actual` against this matcher's expectation.
    fn check(&self, actual: &T) -> (r: MatchResult)
        ensures
            r.wf(),
            r.matched == self.accepts(actual),
            !r.matched ==> r.mismatch() == self.rejection(actual),
    ;

    /// Describes what this matcher expects, for use in failure output and in
    /// combinator descriptions.
    fn description(&self) -> (d: Description)
        ensures
            d@ == self.expects(),
    ;
}

} // verus!
