//! Matchers for `Option` and `Result`: [`some`], [`none`], [`ok`], [`err`].
//!
//! The payload matchers delegate to an inner matcher. When the inner matcher
//! fails, the failure's expectation is the inner one placed under a `some:`,
//! `ok:` or `err:` header, so nested matchers render as aligned, indented
//! blocks.

use vstd::prelude::*;

use crate::description::{Desc, Description};
use crate::matcher::{MatchResult, Matcher, Mismatch, MismatchModel};
use crate::primitives::{plain_rejection, rendered};
use crate::show::{plain_wrapped, Show};
use crate::text::{chars_of, push_all, push_str, string_of};

verus! {

/// An inner rejection placed under `label`.
pub open spec fn wrapped_rejection(label: Seq<char>, inner: MismatchModel) -> MismatchModel {
    MismatchModel {
        expected: Desc::Labeled(label, Box::new(inner.expected)),
        actual: inner.actual,
        diff: inner.diff,
    }
}

/// Fails with `inner`'s report, its expectation placed under `label`.
fn wrap_failure(label: &str, inner: Mismatch) -> (r: MatchResult)
    ensures
        r.wf(),
        !r.matched,
        r.mismatch() == wrapped_rejection(label@, inner@),
{
    MatchResult::fail(
        Mismatch {
            expected: Description::labeled(label, inner.expected),
            actual: inner.actual,
            diff: inner.diff,
        },
    )
}

/// `name(rendering of value)`, as a `String`.
fn wrapped_rendering<T: Show + ?Sized>(name: &str, value: &T) -> (s: String)
    ensures
        s@ == plain_wrapped(name@, value.shown()),
{
    let mut out = chars_of(name);
    push_str(&mut out, "(");
    value.write_plain(&mut out);
    push_str(&mut out, ")");
    assert(out@ =~= plain_wrapped(name@, value.shown()));
    string_of(&out)
}

/// The matcher behind [`some`].
pub struct SomeMatcher<M> {
    pub inner: M,
}

impl<T, M: Matcher<T>> Matcher<Option<T>> for SomeMatcher<M> {
    open spec fn expects(&self) -> Desc {
        Desc::Labeled("some"@, Box::new(self.inner.expects()))
    }

    open spec fn accepts(&self, actual: &Option<T>) -> bool {
        match actual {
            Some(v) => self.inner.accepts(v),
            None => false,
        }
    }

    open spec fn rejection(&self, actual: &Option<T>) -> MismatchModel {
        match actual {
            Some(v) => wrapped_rejection("some"@, self.inner.rejection(v)),
            None => plain_rejection(Desc::Labeled("some"@, Box::new(self.inner.expects())), "None"@),
        }
    }

    fn check(&self, actual: &Option<T>) -> (r: MatchResult) {
        match actual {
            Some(value) => match self.inner.check(value).failure {
                None => MatchResult::pass(),
                Some(inner) => wrap_failure("some", inner),
            },
            None => MatchResult::fail(
                Mismatch::new(Matcher::<Option<T>>::description(self), String::from_str("None")),
            ),
        }
    }

    fn description(&self) -> (d: Description) {
        Description::labeled("some", self.inner.description())
    }
}

/// Matches `Some(v)` where `v` satisfies `inner`.
pub fn some<T, M: Matcher<T>>(inner: M) -> (m: SomeMatcher<M>)
    ensures
        m.inner == inner,
{
    SomeMatcher { inner }
}

/// The matcher behind [`none`].
pub struct NoneMatcher<T> {
    pub marker: std::marker::PhantomData<T>,
}

impl<T: Show> Matcher<Option<T>> for NoneMatcher<T> {
    open spec fn expects(&self) -> Desc {
        Desc::Text("none"@)
    }

    open spec fn accepts(&self, actual: &Option<T>) -> bool {
        actual is None
    }

    open spec fn rejection(&self, actual: &Option<T>) -> MismatchModel {
        plain_rejection(Desc::Text("none"@), actual.shown())
    }

    fn check(&self, actual: &Option<T>) -> (r: MatchResult) {
        match actual {
            None => MatchResult::pass(),
            Some(_) => MatchResult::fail(
                Mismatch::new(Description::text("none"), rendered(actual)),
            ),
        }
    }

    fn description(&self) -> (d: Description) {
        Description::text("none")
    }
}

/// Matches `None`.
pub fn none<T: Show>() -> (m: NoneMatcher<T>)
    ensures
        m == (NoneMatcher::<T> { marker: std::marker::PhantomData }),
{
    NoneMatcher { marker: std::marker::PhantomData }
}

/// The matcher behind [`ok`].
pub struct OkMatcher<M, E> {
    pub inner: M,
    pub marker: std::marker::PhantomData<E>,
}

impl<T, E: Show, M: Matcher<T>> Matcher<Result<T, E>> for OkMatcher<M, E> {
    open spec fn expects(&self) -> Desc {
        Desc::Labeled("ok"@, Box::new(self.inner.expects()))
    }

    open spec fn accepts(&self, actual: &Result<T, E>) -> bool {
        match actual {
            Ok(v) => self.inner.accepts(v),
            Err(_) => false,
        }
    }

    open spec fn rejection(&self, actual: &Result<T, E>) -> MismatchModel {
        match actual {
            Ok(v) => wrapped_rejection("ok"@, self.inner.rejection(v)),
            Err(e) => plain_rejection(
                Desc::Labeled("ok"@, Box::new(self.inner.expects())),
                plain_wrapped("Err"@, e.shown()),
            ),
        }
    }

    fn check(&self, actual: &Result<T, E>) -> (r: MatchResult) {
        match actual {
            Ok(value) => match self.inner.check(value).failure {
                None => MatchResult::pass(),
                Some(inner) => wrap_failure("ok", inner),
            },
            Err(error) => MatchResult::fail(
                Mismatch::new(
                    Matcher::<Result<T, E>>::description(self),
                    wrapped_rendering("Err", error),
                ),
            ),
        }
    }

    fn description(&self) -> (d: Description) {
        Description::labeled("ok", self.inner.description())
    }
}

/// Matches `Ok(v)` where `v` satisfies `inner`.
pub fn ok<T, E: Show, M: Matcher<T>>(inner: M) -> (m: OkMatcher<M, E>)
    ensures
        m.inner == inner,
{
    OkMatcher { inner, marker: std::marker::PhantomData }
}

/// The matcher behind [`err`].
pub struct ErrMatcher<M, T> {
    pub inner: M,
    pub marker: std::marker::PhantomData<T>,
}

impl<T: Show, E, M: Matcher<E>> Matcher<Result<T, E>> for ErrMatcher<M, T> {
    open spec fn expects(&self) -> Desc {
        Desc::Labeled("err"@, Box::new(self.inner.expects()))
    }

    open spec fn accepts(&self, actual: &Result<T, E>) -> bool {
        match actual {
            Err(e) => self.inner.accepts(e),
            Ok(_) => false,
        }
    }

    open spec fn rejection(&self, actual: &Result<T, E>) -> MismatchModel {
        match actual {
            Err(e) => wrapped_rejection("err"@, self.inner.rejection(e)),
            Ok(v) => plain_rejection(
                Desc::Labeled("err"@, Box::new(self.inner.expects())),
                plain_wrapped("Ok"@, v.shown()),
            ),
        }
    }

    fn check(&self, actual: &Result<T, E>) -> (r: MatchResult) {
        match actual {
            Err(value) => match self.inner.check(value).failure {
                None => MatchResult::pass(),
                Some(inner) => wrap_failure("err", inner),
            },
            Ok(value) => MatchResult::fail(
                Mismatch::new(
                    Matcher::<Result<T, E>>::description(self),
                    wrapped_rendering("Ok", value),
                ),
            ),
        }
    }

    fn description(&self) -> (d: Description) {
        Description::labeled("err", self.inner.description())
    }
}

/// Matches `Err(e)` where `e` satisfies `inner`.
pub fn err<T: Show, E, M: Matcher<E>>(inner: M) -> (m: ErrMatcher<M, T>)
    ensures
        m.inner == inner,
{
    ErrMatcher { inner, marker: std::marker::PhantomData }
}

} // verus!
