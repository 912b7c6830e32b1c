//! Logical combinators: [`not`], [`all_of`], and [`any_of`].
//!
//! These take other matchers and build a compound matcher out of them. `not`
//! inverts a single matcher; `all_of` and `any_of` take a *tuple* of matchers
//! (arities 2 through 8) and require, respectively, that every one or at least
//! one of them holds. Each combinator's [`Description`] is built from its
//! children's, through negation, `and` and `or` on [`Description`].

use vstd::prelude::*;

use crate::description::{desc_and, desc_not, desc_or, Desc, Description};
use crate::matcher::{MatchResult, Matcher, Mismatch, MismatchModel};
use crate::primitives::{plain_rejection, rendered};
use crate::show::Show;

verus! {

/// The matcher behind [`not`].
pub struct NotMatcher<M> {
    pub inner: M,
}

impl<T: Show + ?Sized, M: Matcher<T>> Matcher<T> for NotMatcher<M> {
    open spec fn expects(&self) -> Desc {
        desc_not(self.inner.expects())
    }

    open spec fn accepts(&self, actual: &T) -> bool {
        !self.inner.accepts(actual)
    }

    open spec fn rejection(&self, actual: &T) -> MismatchModel {
        plain_rejection(self.expects(), actual.shown())
    }

    fn check(&self, actual: &T) -> (r: MatchResult) {
        if self.inner.check(actual).matched {
            // The inner pass carried no rendered actual; render it here.
            MatchResult::fail(Mismatch::new(self.description(), rendered(actual)))
        } else {
            MatchResult::pass()
        }
    }

    fn description(&self) -> (d: Description) {
        self.inner.description().negate()
    }
}

/// Inverts `matcher`: matches exactly the values it does not.
pub fn not<M>(matcher: M) -> (m: NotMatcher<M>)
    ensures
        m.inner == matcher,
{
    NotMatcher { inner: matcher }
}

/// A tuple of matchers over the same `T`, as [`all_of`] and [`any_of`] take.
pub trait MatcherTuple<T: ?Sized> {
    /// Whether every matcher accepts `actual`.
    spec fn all_accept(&self, actual: &T) -> bool;

    /// The rejection of the first matcher, in order, that rejects `actual`.
    spec fn first_rejection(&self, actual: &T) -> MismatchModel;

    /// Whether at least one matcher accepts `actual`.
    spec fn any_accepts(&self, actual: &T) -> bool;

    /// The rejection of the first matcher.
    spec fn head_rejection(&self, actual: &T) -> MismatchModel;

    /// The matchers' descriptions joined by `and`, left to right.
    spec fn all_expects(&self) -> Desc;

    /// The matchers' descriptions joined by `or`, left to right.
    spec fn any_expects(&self) -> Desc;

    /// Checks `actual` against every matcher, stopping at the first rejection.
    fn check_all(&self, actual: &T) -> (r: MatchResult)
        ensures
            r.wf(),
            r.matched == self.all_accept(actual),
            !r.matched ==> r.mismatch() == self.first_rejection(actual),
    ;

    /// Checks `actual` against the matchers until one accepts it.
    fn check_any(&self, actual: &T) -> (r: MatchResult)
        ensures
            r.wf(),
            r.matched == self.any_accepts(actual),
            !r.matched ==> r.mismatch() == (MismatchModel {
                expected: self.any_expects(),
                actual: self.head_rejection(actual).actual,
                diff: None,
            }),
    ;

    /// The conjunction of the matchers' descriptions.
    fn describe_all(&self) -> (d: Description)
        ensures
            d@ == self.all_expects(),
    ;

    /// The disjunction of the matchers' descriptions.
    fn describe_any(&self) -> (d: Description)
        ensures
            d@ == self.any_expects(),
    ;
}

impl<T: ?Sized, M1: Matcher<T>, M2: Matcher<T>> MatcherTuple<T> for (M1, M2) {
    open spec fn all_accept(&self, actual: &T) -> bool {
        self.0.accepts(actual) && self.1.accepts(actual)
    }

    open spec fn first_rejection(&self, actual: &T) -> MismatchModel {
        if !self.0.accepts(actual) {
            self.0.rejection(actual)
        } else {
            self.1.rejection(actual)
        }
    }

    open spec fn any_accepts(&self, actual: &T) -> bool {
        self.0.accepts(actual) || self.1.accepts(actual)
    }

    open spec fn head_rejection(&self, actual: &T) -> MismatchModel {
        self.0.rejection(actual)
    }

    open spec fn all_expects(&self) -> Desc {
        desc_and(self.0.expects(), self.1.expects())
    }

    open spec fn any_expects(&self) -> Desc {
        desc_or(self.0.expects(), self.1.expects())
    }

    fn check_all(&self, actual: &T) -> (r: MatchResult) {
        let r = self.0.check(actual);
        if !r.matched {
            return r;
        }
        let r = self.1.check(actual);
        if !r.matched {
            return r;
        }
        MatchResult::pass()
    }

    fn check_any(&self, actual: &T) -> (r: MatchResult) {
        let r = self.0.check(actual);
        let first_actual = match r.failure {
            None => {
                return MatchResult::pass();
            },
            Some(mismatch) => mismatch.actual,
        };
        if self.1.check(actual).matched {
            return MatchResult::pass();
        }
        MatchResult::fail(Mismatch::new(self.describe_any(), first_actual))
    }

    fn describe_all(&self) -> (d: Description) {
        let d = self.0.description();
        let d = d.and(self.1.description());
        d
    }

    fn describe_any(&self) -> (d: Description) {
        let d = self.0.description();
        let d = d.or(self.1.description());
        d
    }
}

impl<T: ?Sized, M1: Matcher<T>, M2: Matcher<T>, M3: Matcher<T>> MatcherTuple<T> for (M1, M2, M3) {
    open spec fn all_accept(&self, actual: &T) -> bool {
        self.0.accepts(actual) && self.1.accepts(actual) && self.2.accepts(actual)
    }

    open spec fn first_rejection(&self, actual: &T) -> MismatchModel {
        if !self.0.accepts(actual) {
            self.0.rejection(actual)
        } else if !self.1.accepts(actual) {
            self.1.rejection(actual)
        } else {
            self.2.rejection(actual)
        }
    }

    open spec fn any_accepts(&self, actual: &T) -> bool {
        self.0.accepts(actual) || self.1.accepts(actual) || self.2.accepts(actual)
    }

    open spec fn head_rejection(&self, actual: &T) -> MismatchModel {
        self.0.rejection(actual)
    }

    open spec fn all_expects(&self) -> Desc {
        desc_and(desc_and(self.0.expects(), self.1.expects()), self.2.expects())
    }

    open spec fn any_expects(&self) -> Desc {
        desc_or(desc_or(self.0.expects(), self.1.expects()), self.2.expects())
    }

    fn check_all(&self, actual: &T) -> (r: MatchResult) {
        let r = self.0.check(actual);
        if !r.matched {
            return r;
        }
        let r = self.1.check(actual);
        if !r.matched {
            return r;
        }
        let r = self.2.check(actual);
        if !r.matched {
            return r;
        }
        MatchResult::pass()
    }

    fn check_any(&self, actual: &T) -> (r: MatchResult) {
        let r = self.0.check(actual);
        let first_actual = match r.failure {
            None => {
                return MatchResult::pass();
            },
            Some(mismatch) => mismatch.actual,
        };
        if self.1.check(actual).matched {
            return MatchResult::pass();
        }
        if self.2.check(actual).matched {
            return MatchResult::pass();
        }
        MatchResult::fail(Mismatch::new(self.describe_any(), first_actual))
    }

    fn describe_all(&self) -> (d: Description) {
        let d = self.0.description();
        let d = d.and(self.1.description());
        let d = d.and(self.2.description());
        d
    }

    fn describe_any(&self) -> (d: Description) {
        let d = self.0.description();
        let d = d.or(self.1.description());
        let d = d.or(self.2.description());
        d
    }
}

impl<T: ?Sized, M1: Matcher<T>, M2: Matcher<T>, M3: Matcher<T>, M4: Matcher<T>> MatcherTuple<T> for (M1, M2, M3, M4) {
    open spec fn all_accept(&self, actual: &T) -> bool {
        self.0.accepts(actual) && self.1.accepts(actual) && self.2.accepts(actual) && self.3.accepts(actual)
    }

    open spec fn first_rejection(&self, actual: &T) -> MismatchModel {
        if !self.0.accepts(actual) {
            self.0.rejection(actual)
        } else if !self.1.accepts(actual) {
            self.1.rejection(actual)
        } else if !self.2.accepts(actual) {
            self.2.rejection(actual)
        } else {
            self.3.rejection(actual)
        }
    }

    open spec fn any_accepts(&self, actual: &T) -> bool {
        self.0.accepts(actual) || self.1.accepts(actual) || self.2.accepts(actual) || self.3.accepts(actual)
    }

    open spec fn head_rejection(&self, actual: &T) -> MismatchModel {
        self.0.rejection(actual)
    }

    open spec fn all_expects(&self) -> Desc {
        desc_and(desc_and(desc_and(self.0.expects(), self.1.expects()), self.2.expects()), self.3.expects())
    }

    open spec fn any_expects(&self) -> Desc {
        desc_or(desc_or(desc_or(self.0.expects(), self.1.expects()), self.2.expects()), self.3.expects())
    }

    fn check_all(&self, actual: &T) -> (r: MatchResult) {
        let r = self.0.check(actual);
        if !r.matched {
            return r;
        }
        let r = self.1.check(actual);
        if !r.matched {
            return r;
        }
        let r = self.2.check(actual);
        if !r.matched {
            return r;
        }
        let r = self.3.check(actual);
        if !r.matched {
            return r;
        }
        MatchResult::pass()
    }

    fn check_any(&self, actual: &T) -> (r: MatchResult) {
        let r = self.0.check(actual);
        let first_actual = match r.failure {
            None => {
                return MatchResult::pass();
            },
            Some(mismatch) => mismatch.actual,
        };
        if self.1.check(actual).matched {
            return MatchResult::pass();
        }
        if self.2.check(actual).matched {
            return MatchResult::pass();
        }
        if self.3.check(actual).matched {
            return MatchResult::pass();
        }
        MatchResult::fail(Mismatch::new(self.describe_any(), first_actual))
    }

    fn describe_all(&self) -> (d: Description) {
        let d = self.0.description();
        let d = d.and(self.1.description());
        let d = d.and(self.2.description());
        let d = d.and(self.3.description());
        d
    }

    fn describe_any(&self) -> (d: Description) {
        let d = self.0.description();
        let d = d.or(self.1.description());
        let d = d.or(self.2.description());
        let d = d.or(self.3.description());
        d
    }
}

impl<T: ?Sized, M1: Matcher<T>, M2: Matcher<T>, M3: Matcher<T>, M4: Matcher<T>, M5: Matcher<T>> MatcherTuple<T> for (M1, M2, M3, M4, M5) {
    open spec fn all_accept(&self, actual: &T) -> bool {
        self.0.accepts(actual) && self.1.accepts(actual) && self.2.accepts(actual) && self.3.accepts(actual) && self.4.accepts(actual)
    }

    open spec fn first_rejection(&self, actual: &T) -> MismatchModel {
        if !self.0.accepts(actual) {
            self.0.rejection(actual)
        } else if !self.1.accepts(actual) {
            self.1.rejection(actual)
        } else if !self.2.accepts(actual) {
            self.2.rejection(actual)
        } else if !self.3.accepts(actual) {
            self.3.rejection(actual)
        } else {
            self.4.rejection(actual)
        }
    }

    open spec fn any_accepts(&self, actual: &T) -> bool {
        self.0.accepts(actual) || self.1.accepts(actual) || self.2.accepts(actual) || self.3.accepts(actual) || self.4.accepts(actual)
    }

    open spec fn head_rejection(&self, actual: &T) -> MismatchModel {
        self.0.rejection(actual)
    }

    open spec fn all_expects(&self) -> Desc {
        desc_and(desc_and(desc_and(desc_and(self.0.expects(), self.1.expects()), self.2.expects()), self.3.expects()), self.4.expects())
    }

    open spec fn any_expects(&self) -> Desc {
        desc_or(desc_or(desc_or(desc_or(self.0.expects(), self.1.expects()), self.2.expects()), self.3.expects()), self.4.expects())
    }

    fn check_all(&self, actual: &T) -> (r: MatchResult) {
        let r = self.0.check(actual);
        if !r.matched {
            return r;
        }
        let r = self.1.check(actual);
        if !r.matched {
            return r;
        }
        let r = self.2.check(actual);
        if !r.matched {
            return r;
        }
        let r = self.3.check(actual);
        if !r.matched {
            return r;
        }
        let r = self.4.check(actual);
        if !r.matched {
            return r;
        }
        MatchResult::pass()
    }

    fn check_any(&self, actual: &T) -> (r: MatchResult) {
        let r = self.0.check(actual);
        let first_actual = match r.failure {
            None => {
                return MatchResult::pass();
            },
            Some(mismatch) => mismatch.actual,
        };
        if self.1.check(actual).matched {
            return MatchResult::pass();
        }
        if self.2.check(actual).matched {
            return MatchResult::pass();
        }
        if self.3.check(actual).matched {
            return MatchResult::pass();
        }
        if self.4.check(actual).matched {
            return MatchResult::pass();
        }
        MatchResult::fail(Mismatch::new(self.describe_any(), first_actual))
    }

    fn describe_all(&self) -> (d: Description) {
        let d = self.0.description();
        let d = d.and(self.1.description());
        let d = d.and(self.2.description());
        let d = d.and(self.3.description());
        let d = d.and(self.4.description());
        d
    }

    fn describe_any(&self) -> (d: Description) {
        let d = self.0.description();
        let d = d.or(self.1.description());
        let d = d.or(self.2.description());
        let d = d.or(self.3.description());
        let d = d.or(self.4.description());
        d
    }
}

impl<T: ?Sized, M1: Matcher<T>, M2: Matcher<T>, M3: Matcher<T>, M4: Matcher<T>, M5: Matcher<T>, M6: Matcher<T>> MatcherTuple<T> for (M1, M2, M3, M4, M5, M6) {
    open spec fn all_accept(&self, actual: &T) -> bool {
        self.0.accepts(actual) && self.1.accepts(actual) && self.2.accepts(actual) && self.3.accepts(actual) && self.4.accepts(actual) && self.5.accepts(actual)
    }

    open spec fn first_rejection(&self, actual: &T) -> MismatchModel {
        if !self.0.accepts(actual) {
            self.0.rejection(actual)
        } else if !self.1.accepts(actual) {
            self.1.rejection(actual)
        } else if !self.2.accepts(actual) {
            self.2.rejection(actual)
        } else if !self.3.accepts(actual) {
            self.3.rejection(actual)
        } else if !self.4.accepts(actual) {
            self.4.rejection(actual)
        } else {
            self.5.rejection(actual)
        }
    }

    open spec fn any_accepts(&self, actual: &T) -> bool {
        self.0.accepts(actual) || self.1.accepts(actual) || self.2.accepts(actual) || self.3.accepts(actual) || self.4.accepts(actual) || self.5.accepts(actual)
    }

    open spec fn head_rejection(&self, actual: &T) -> MismatchModel {
        self.0.rejection(actual)
    }

    open spec fn all_expects(&self) -> Desc {
        desc_and(desc_and(desc_and(desc_and(desc_and(self.0.expects(), self.1.expects()), self.2.expects()), self.3.expects()), self.4.expects()), self.5.expects())
    }

    open spec fn any_expects(&self) -> Desc {
        desc_or(desc_or(desc_or(desc_or(desc_or(self.0.expects(), self.1.expects()), self.2.expects()), self.3.expects()), self.4.expects()), self.5.expects())
    }

    fn check_all(&self, actual: &T) -> (r: MatchResult) {
        let r = self.0.check(actual);
        if !r.matched {
            return r;
        }
        let r = self.1.check(actual);
        if !r.matched {
            return r;
        }
        let r = self.2.check(actual);
        if !r.matched {
            return r;
        }
        let r = self.3.check(actual);
        if !r.matched {
            return r;
        }
        let r = self.4.check(actual);
        if !r.matched {
            return r;
        }
        let r = self.5.check(actual);
        if !r.matched {
            return r;
        }
        MatchResult::pass()
    }

    fn check_any(&self, actual: &T) -> (r: MatchResult) {
        let r = self.0.check(actual);
        let first_actual = match r.failure {
            None => {
                return MatchResult::pass();
            },
            Some(mismatch) => mismatch.actual,
        };
        if self.1.check(actual).matched {
            return MatchResult::pass();
        }
        if self.2.check(actual).matched {
            return MatchResult::pass();
        }
        if self.3.check(actual).matched {
            return MatchResult::pass();
        }
        if self.4.check(actual).matched {
            return MatchResult::pass();
        }
        if self.5.check(actual).matched {
            return MatchResult::pass();
        }
        MatchResult::fail(Mismatch::new(self.describe_any(), first_actual))
    }

    fn describe_all(&self) -> (d: Description) {
        let d = self.0.description();
        let d = d.and(self.1.description());
        let d = d.and(self.2.description());
        let d = d.and(self.3.description());
        let d = d.and(self.4.description());
        let d = d.and(self.5.description());
        d
    }

    fn describe_any(&self) -> (d: Description) {
        let d = self.0.description();
        let d = d.or(self.1.description());
        let d = d.or(self.2.description());
        let d = d.or(self.3.description());
        let d = d.or(self.4.description());
        let d = d.or(self.5.description());
        d
    }
}

impl<T: ?Sized, M1: Matcher<T>, M2: Matcher<T>, M3: Matcher<T>, M4: Matcher<T>, M5: Matcher<T>, M6: Matcher<T>, M7: Matcher<T>> MatcherTuple<T> for (M1, M2, M3, M4, M5, M6, M7) {
    open spec fn all_accept(&self, actual: &T) -> bool {
        self.0.accepts(actual) && self.1.accepts(actual) && self.2.accepts(actual) && self.3.accepts(actual) && self.4.accepts(actual) && self.5.accepts(actual) && self.6.accepts(actual)
    }

    open spec fn first_rejection(&self, actual: &T) -> MismatchModel {
        if !self.0.accepts(actual) {
            self.0.rejection(actual)
        } else if !self.1.accepts(actual) {
            self.1.rejection(actual)
        } else if !self.2.accepts(actual) {
            self.2.rejection(actual)
        } else if !self.3.accepts(actual) {
            self.3.rejection(actual)
        } else if !self.4.accepts(actual) {
            self.4.rejection(actual)
        } else if !self.5.accepts(actual) {
            self.5.rejection(actual)
        } else {
            self.6.rejection(actual)
        }
    }

    open spec fn any_accepts(&self, actual: &T) -> bool {
        self.0.accepts(actual) || self.1.accepts(actual) || self.2.accepts(actual) || self.3.accepts(actual) || self.4.accepts(actual) || self.5.accepts(actual) || self.6.accepts(actual)
    }

    open spec fn head_rejection(&self, actual: &T) -> MismatchModel {
        self.0.rejection(actual)
    }

    open spec fn all_expects(&self) -> Desc {
        desc_and(desc_and(desc_and(desc_and(desc_and(desc_and(self.0.expects(), self.1.expects()), self.2.expects()), self.3.expects()), self.4.expects()), self.5.expects()), self.6.expects())
    }

    open spec fn any_expects(&self) -> Desc {
        desc_or(desc_or(desc_or(desc_or(desc_or(desc_or(self.0.expects(), self.1.expects()), self.2.expects()), self.3.expects()), self.4.expects()), self.5.expects()), self.6.expects())
    }

    fn check_all(&self, actual: &T) -> (r: MatchResult) {
        let r = self.0.check(actual);
        if !r.matched {
            return r;
        }
        let r = self.1.check(actual);
        if !r.matched {
            return r;
        }
        let r = self.2.check(actual);
        if !r.matched {
            return r;
        }
        let r = self.3.check(actual);
        if !r.matched {
            return r;
        }
        let r = self.4.check(actual);
        if !r.matched {
            return r;
        }
        let r = self.5.check(actual);
        if !r.matched {
            return r;
        }
        let r = self.6.check(actual);
        if !r.matched {
            return r;
        }
        MatchResult::pass()
    }

    fn check_any(&self, actual: &T) -> (r: MatchResult) {
        let r = self.0.check(actual);
        let first_actual = match r.failure {
            None => {
                return MatchResult::pass();
            },
            Some(mismatch) => mismatch.actual,
        };
        if self.1.check(actual).matched {
            return MatchResult::pass();
        }
        if self.2.check(actual).matched {
            return MatchResult::pass();
        }
        if self.3.check(actual).matched {
            return MatchResult::pass();
        }
        if self.4.check(actual).matched {
            return MatchResult::pass();
        }
        if self.5.check(actual).matched {
            return MatchResult::pass();
        }
        if self.6.check(actual).matched {
            return MatchResult::pass();
        }
        MatchResult::fail(Mismatch::new(self.describe_any(), first_actual))
    }

    fn describe_all(&self) -> (d: Description) {
        let d = self.0.description();
        let d = d.and(self.1.description());
        let d = d.and(self.2.description());
        let d = d.and(self.3.description());
        let d = d.and(self.4.description());
        let d = d.and(self.5.description());
        let d = d.and(self.6.description());
        d
    }

    fn describe_any(&self) -> (d: Description) {
        let d = self.0.description();
        let d = d.or(self.1.description());
        let d = d.or(self.2.description());
        let d = d.or(self.3.description());
        let d = d.or(self.4.description());
        let d = d.or(self.5.description());
        let d = d.or(self.6.description());
        d
    }
}

impl<T: ?Sized, M1: Matcher<T>, M2: Matcher<T>, M3: Matcher<T>, M4: Matcher<T>, M5: Matcher<T>, M6: Matcher<T>, M7: Matcher<T>, M8: Matcher<T>> MatcherTuple<T> for (M1, M2, M3, M4, M5, M6, M7, M8) {
    open spec fn all_accept(&self, actual: &T) -> bool {
        self.0.accepts(actual) && self.1.accepts(actual) && self.2.accepts(actual) && self.3.accepts(actual) && self.4.accepts(actual) && self.5.accepts(actual) && self.6.accepts(actual) && self.7.accepts(actual)
    }

    open spec fn first_rejection(&self, actual: &T) -> MismatchModel {
        if !self.0.accepts(actual) {
            self.0.rejection(actual)
        } else if !self.1.accepts(actual) {
            self.1.rejection(actual)
        } else if !self.2.accepts(actual) {
            self.2.rejection(actual)
        } else if !self.3.accepts(actual) {
            self.3.rejection(actual)
        } else if !self.4.accepts(actual) {
            self.4.rejection(actual)
        } else if !self.5.accepts(actual) {
            self.5.rejection(actual)
        } else if !self.6.accepts(actual) {
            self.6.rejection(actual)
        } else {
            self.7.rejection(actual)
        }
    }

    open spec fn any_accepts(&self, actual: &T) -> bool {
        self.0.accepts(actual) || self.1.accepts(actual) || self.2.accepts(actual) || self.3.accepts(actual) || self.4.accepts(actual) || self.5.accepts(actual) || self.6.accepts(actual) || self.7.accepts(actual)
    }

    open spec fn head_rejection(&self, actual: &T) -> MismatchModel {
        self.0.rejection(actual)
    }

    open spec fn all_expects(&self) -> Desc {
        desc_and(desc_and(desc_and(desc_and(desc_and(desc_and(desc_and(self.0.expects(), self.1.expects()), self.2.expects()), self.3.expects()), self.4.expects()), self.5.expects()), self.6.expects()), self.7.expects())
    }

    open spec fn any_expects(&self) -> Desc {
        desc_or(desc_or(desc_or(desc_or(desc_or(desc_or(desc_or(self.0.expects(), self.1.expects()), self.2.expects()), self.3.expects()), self.4.expects()), self.5.expects()), self.6.expects()), self.7.expects())
    }

    fn check_all(&self, actual: &T) -> (r: MatchResult) {
        let r = self.0.check(actual);
        if !r.matched {
            return r;
        }
        let r = self.1.check(actual);
        if !r.matched {
            return r;
        }
        let r = self.2.check(actual);
        if !r.matched {
            return r;
        }
        let r = self.3.check(actual);
        if !r.matched {
            return r;
        }
        let r = self.4.check(actual);
        if !r.matched {
            return r;
        }
        let r = self.5.check(actual);
        if !r.matched {
            return r;
        }
        let r = self.6.check(actual);
        if !r.matched {
            return r;
        }
        let r = self.7.check(actual);
        if !r.matched {
            return r;
        }
        MatchResult::pass()
    }

    fn check_any(&self, actual: &T) -> (r: MatchResult) {
        let r = self.0.check(actual);
        let first_actual = match r.failure {
            None => {
                return MatchResult::pass();
            },
            Some(mismatch) => mismatch.actual,
        };
        if self.1.check(actual).matched {
            return MatchResult::pass();
        }
        if self.2.check(actual).matched {
            return MatchResult::pass();
        }
        if self.3.check(actual).matched {
            return MatchResult::pass();
        }
        if self.4.check(actual).matched {
            return MatchResult::pass();
        }
        if self.5.check(actual).matched {
            return MatchResult::pass();
        }
        if self.6.check(actual).matched {
            return MatchResult::pass();
        }
        if self.7.check(actual).matched {
            return MatchResult::pass();
        }
        MatchResult::fail(Mismatch::new(self.describe_any(), first_actual))
    }

    fn describe_all(&self) -> (d: Description) {
        let d = self.0.description();
        let d = d.and(self.1.description());
        let d = d.and(self.2.description());
        let d = d.and(self.3.description());
        let d = d.and(self.4.description());
        let d = d.and(self.5.description());
        let d = d.and(self.6.description());
        let d = d.and(self.7.description());
        d
    }

    fn describe_any(&self) -> (d: Description) {
        let d = self.0.description();
        let d = d.or(self.1.description());
        let d = d.or(self.2.description());
        let d = d.or(self.3.description());
        let d = d.or(self.4.description());
        let d = d.or(self.5.description());
        let d = d.or(self.6.description());
        let d = d.or(self.7.description());
        d
    }
}

/// The matcher behind [`all_of`].
pub struct AllOfMatcher<Tup> {
    pub matchers: Tup,
}

impl<T: ?Sized, Tup: MatcherTuple<T>> Matcher<T> for AllOfMatcher<Tup> {
    open spec fn expects(&self) -> Desc {
        self.matchers.all_expects()
    }

    open spec fn accepts(&self, actual: &T) -> bool {
        self.matchers.all_accept(actual)
    }

    open spec fn rejection(&self, actual: &T) -> MismatchModel {
        self.matchers.first_rejection(actual)
    }

    fn check(&self, actual: &T) -> (r: MatchResult) {
        self.matchers.check_all(actual)
    }

    fn description(&self) -> (d: Description) {
        self.matchers.describe_all()
    }
}

/// Matches when every matcher in the tuple matches. On a failure it reports
/// the first matcher, in order, that rejected the value.
pub fn all_of<Tup>(matchers: Tup) -> (m: AllOfMatcher<Tup>)
    ensures
        m.matchers == matchers,
{
    AllOfMatcher { matchers }
}

/// The matcher behind [`any_of`].
pub struct AnyOfMatcher<Tup> {
    pub matchers: Tup,
}

impl<T: ?Sized, Tup: MatcherTuple<T>> Matcher<T> for AnyOfMatcher<Tup> {
    open spec fn expects(&self) -> Desc {
        self.matchers.any_expects()
    }

    open spec fn accepts(&self, actual: &T) -> bool {
        self.matchers.any_accepts(actual)
    }

    open spec fn rejection(&self, actual: &T) -> MismatchModel {
        MismatchModel {
            expected: self.matchers.any_expects(),
            actual: self.matchers.head_rejection(actual).actual,
            diff: None,
        }
    }

    fn check(&self, actual: &T) -> (r: MatchResult) {
        self.matchers.check_any(actual)
    }

    fn description(&self) -> (d: Description) {
        self.matchers.describe_any()
    }
}

/// Matches when at least one matcher in the tuple matches. On a failure the
/// expectation is the disjunction and the actual value is rendered as the
/// first matcher rendered it.
pub fn any_of<Tup>(matchers: Tup) -> (m: AnyOfMatcher<Tup>)
    ensures
        m.matchers == matchers,
{
    AnyOfMatcher { matchers }
}

/// `not` accepts exactly what its matcher rejects.
pub proof fn lemma_not_inverts<T: Show + ?Sized, M: Matcher<T>>(m: M, actual: &T)
    ensures
        (NotMatcher { inner: m }).accepts(actual) == !m.accepts(actual),
{
}

/// Negating a matcher twice accepts what the matcher accepts.
pub proof fn lemma_not_not<T: Show + ?Sized, M: Matcher<T>>(m: M, actual: &T)
    ensures
        (NotMatcher { inner: NotMatcher { inner: m } }).accepts(actual) == m.accepts(actual),
{
}

/// `all_of` of two matchers accepts exactly what both accept, and rejects
/// with the first one's report when the first rejects.
pub proof fn lemma_all_of_pair<T: ?Sized, M1: Matcher<T>, M2: Matcher<T>>(m1: M1, m2: M2, actual: &T)
    ensures
        (AllOfMatcher { matchers: (m1, m2) }).accepts(actual) == (m1.accepts(actual) && m2.accepts(actual)),
        !m1.accepts(actual) ==> (AllOfMatcher { matchers: (m1, m2) }).rejection(actual) == m1.rejection(actual),
{
}

/// `any_of` of two matchers accepts exactly what either accepts.
pub proof fn lemma_any_of_pair<T: ?Sized, M1: Matcher<T>, M2: Matcher<T>>(m1: M1, m2: M2, actual: &T)
    ensures
        (AnyOfMatcher { matchers: (m1, m2) }).accepts(actual) == (m1.accepts(actual) || m2.accepts(actual)),
{
}

/// De Morgan: not all of two accepts what any of the two negations accepts.
pub proof fn lemma_de_morgan<T: Show + ?Sized, M1: Matcher<T>, M2: Matcher<T>>(m1: M1, m2: M2, actual: &T)
    ensures
        (NotMatcher { inner: AllOfMatcher { matchers: (m1, m2) } }).accepts(actual) == (AnyOfMatcher {
            matchers: (NotMatcher { inner: m1 }, NotMatcher { inner: m2 }),
        }).accepts(actual),
{
}

} // verus!
