//! Matchers from plain closures: [`predicate`] and [`satisfies`], and
//! [`judged`], the general way to define a matcher of one's own.
//!
//! The closure decides; the name describes. A failure reports the name as the
//! expectation and the rendering of the actual value, never the closure.

use vstd::prelude::*;

use crate::description::{Desc, Description};
use crate::matcher::{MatchResult, Matcher, Mismatch, MismatchModel};
use crate::primitives::{plain_rejection, rendered};
use crate::show::Show;

verus! {

/// A closure that can be called on every value and answers the same for the
/// same value.
pub open spec fn total_and_stable<T, F: Fn(&T) -> bool>(pred: F) -> bool {
    &&& forall|a: &T| #[trigger] call_requires(pred, (a,))
    &&& forall|a: &T, b1: bool, b2: bool|
        call_ensures(pred, (a,), b1) && call_ensures(pred, (a,), b2) ==> b1 == b2
}

/// The matcher behind [`predicate`] and [`satisfies`].
pub struct PredicateMatcher<T, F: Fn(&T) -> bool> {
    name: &'static str,
    pred: F,
    marker: std::marker::PhantomData<T>,
}

impl<T, F: Fn(&T) -> bool> PredicateMatcher<T, F> {
    #[verifier::type_invariant]
    spec fn callable(self) -> bool {
        total_and_stable(self.pred)
    }

    /// The name the matcher describes itself by.
    pub closed spec fn name(self) -> Seq<char> {
        self.name@
    }

    /// Whether the closure answers `true` for `actual`.
    pub closed spec fn holds(self, actual: &T) -> bool {
        call_ensures(self.pred, (actual,), true)
    }
}

impl<T: Show, F: Fn(&T) -> bool> Matcher<T> for PredicateMatcher<T, F> {
    open spec fn expects(&self) -> Desc {
        Desc::Text(self.name())
    }

    open spec fn accepts(&self, actual: &T) -> bool {
        self.holds(actual)
    }

    open spec fn rejection(&self, actual: &T) -> MismatchModel {
        plain_rejection(Desc::Text(self.name()), actual.shown())
    }

    fn check(&self, actual: &T) -> (r: MatchResult) {
        proof {
            use_type_invariant(self);
        }
        let b = (self.pred)(actual);
        if b {
            MatchResult::pass()
        } else {
            proof {
                if call_ensures(self.pred, (actual,), true) {
                    assert(call_ensures(self.pred, (actual,), b));
                }
            }
            MatchResult::fail(Mismatch::new(self.description(), rendered(actual)))
        }
    }

    fn description(&self) -> (d: Description) {
        Description::text(self.name)
    }
}

/// Builds the matcher from a name and a closure.
fn named_predicate<T: Show, F: Fn(&T) -> bool>(name: &'static str, pred: F) -> (m: PredicateMatcher<
    T,
    F,
>)
    requires
        total_and_stable(pred),
    ensures
        m.name() == name@,
        forall|a: &T| m.holds(a) == call_ensures(pred, (a,), true),
{
    PredicateMatcher { name, pred, marker: std::marker::PhantomData }
}

/// A matcher from a closure: it accepts exactly the values for which `pred`
/// answers `true`, and is described by `name`.
pub fn predicate<T: Show, F: Fn(&T) -> bool>(name: &'static str, pred: F) -> (m: PredicateMatcher<
    T,
    F,
>)
    requires
        total_and_stable(pred),
    ensures
        m.name() == name@,
        forall|a: &T| m.holds(a) == call_ensures(pred, (a,), true),
{
    named_predicate(name, pred)
}

/// The same as [`predicate`], under the name the `check!` entry points use.
pub fn satisfies<T: Show, F: Fn(&T) -> bool>(name: &'static str, pred: F) -> (m: PredicateMatcher<
    T,
    F,
>)
    requires
        total_and_stable(pred),
    ensures
        m.name() == name@,
        forall|a: &T| m.holds(a) == call_ensures(pred, (a,), true),
{
    named_predicate(name, pred)
}

/// A verdict closure that can be called on every value and gives the same
/// verdict for the same value.
pub open spec fn total_and_stable_verdict<T: ?Sized, F: Fn(&T) -> Option<Mismatch>>(judge: F) -> bool {
    &&& forall|a: &T| #[trigger] call_requires(judge, (a,))
    &&& forall|a: &T, r1: Option<Mismatch>, r2: Option<Mismatch>|
        call_ensures(judge, (a,), r1) && call_ensures(judge, (a,), r2) ==> r1 == r2
}

/// A matcher defined by what it expects and a verdict closure: the closure
/// answers `None` for a value that matches, and the mismatch to report for
/// one that does not.
pub struct JudgedMatcher<T: ?Sized, F: Fn(&T) -> Option<Mismatch>> {
    expected: Description,
    judge: F,
    marker: std::marker::PhantomData<Box<T>>,
}

impl<T: ?Sized, F: Fn(&T) -> Option<Mismatch>> JudgedMatcher<T, F> {
    #[verifier::type_invariant]
    spec fn callable(self) -> bool {
        total_and_stable_verdict(self.judge)
    }

    /// What the matcher expects.
    pub closed spec fn expected(self) -> Desc {
        self.expected@
    }

    /// The closure's verdict on `actual`.
    pub closed spec fn verdict(self, actual: &T) -> Option<Mismatch> {
        choose|r: Option<Mismatch>| call_ensures(self.judge, (actual,), r)
    }
}

impl<T: ?Sized, F: Fn(&T) -> Option<Mismatch>> Matcher<T> for JudgedMatcher<T, F> {
    open spec fn expects(&self) -> Desc {
        self.expected()
    }

    open spec fn accepts(&self, actual: &T) -> bool {
        self.verdict(actual) is None
    }

    open spec fn rejection(&self, actual: &T) -> MismatchModel {
        self.verdict(actual).unwrap()@
    }

    fn check(&self, actual: &T) -> (r: MatchResult) {
        proof {
            use_type_invariant(self);
        }
        let verdict = (self.judge)(actual);
        proof {
            let c = choose|r: Option<Mismatch>| call_ensures(self.judge, (actual,), r);
            assert(call_ensures(self.judge, (actual,), c));
            assert(c == verdict);
        }
        match verdict {
            None => MatchResult::pass(),
            Some(mismatch) => MatchResult::fail(mismatch),
        }
    }

    fn description(&self) -> (d: Description) {
        self.expected.clone()
    }
}

/// A matcher of one's own: it expects `expected`, and `judge` decides each
/// value: `None` when it matches, otherwise the mismatch the failure reports.
pub fn judged<T: ?Sized, F: Fn(&T) -> Option<Mismatch>>(expected: Description, judge: F) -> (m: JudgedMatcher<T, F>)
    requires
        total_and_stable_verdict(judge),
    ensures
        m.expected() == expected@,
        forall|a: &T, r: Option<Mismatch>| call_ensures(judge, (a,), r) ==> m.verdict(a) == r,
{
    let m = JudgedMatcher { expected, judge, marker: std::marker::PhantomData };
    proof {
        assert forall|a: &T, r: Option<Mismatch>| call_ensures(judge, (a,), r) implies m.verdict(a) == r by {
            let c = choose|x: Option<Mismatch>| call_ensures(judge, (a,), x);
            assert(call_ensures(judge, (a,), c));
        }
    }
    m
}

} // verus!
