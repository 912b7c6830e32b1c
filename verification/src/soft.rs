//! Soft assertions: checks that record a failure and carry on, so one test
//! run reports every failed expectation instead of only the first.
//!
//! A [`SoftAsserter`] collects failures, each with the context frames that
//! were open when it was recorded. [`SoftAsserter::into_result`] turns them
//! into one failure whose payload lists them all.

use vstd::prelude::*;

use crate::error::{ContextFrame, ErrorKind, Payload, SourceLocation, TestError, TestResult};
use crate::matcher::Matcher;
use crate::show::{decimal, push_decimal};
use crate::text::{push_str, string_of};

verus! {

/// Collects soft assertion failures.
pub struct SoftAsserter {
    errors: Vec<TestError>,
    context: Vec<ContextFrame>,
}

/// `N soft assertion(s) failed`.
pub open spec fn soft_summary(count: nat) -> Seq<char> {
    decimal(count) + if count == 1 {
        " soft assertion failed"@
    } else {
        " soft assertions failed"@
    }
}

impl SoftAsserter {
    /// The failures recorded so far, in order.
    pub closed spec fn errors(&self) -> Seq<TestError> {
        self.errors@
    }

    /// The context frames open now, outermost first.
    pub closed spec fn frames(&self) -> Seq<ContextFrame> {
        self.context@
    }

    /// An asserter with no failures and no open context.
    pub fn new() -> (s: SoftAsserter)
        ensures
            s.errors().len() == 0,
            s.frames().len() == 0,
    {
        SoftAsserter { errors: Vec::new(), context: Vec::new() }
    }

    /// Records `error`, with the open context frames placed before its own.
    fn record(&mut self, error: TestError)
        ensures
            final(self).frames() == old(self).frames(),
            final(self).errors().len() == old(self).errors().len() + 1,
            final(self).errors().drop_last() == old(self).errors(),
            final(self).errors().last().context@ == old(self).frames() + error.context@,
            final(self).errors().last().kind == error.kind,
            final(self).errors().last().message == error.message,
            final(self).errors().last().location == error.location,
            final(self).errors().last().payload == error.payload,
    {
        let mut error = error;
        let mut frames: Vec<ContextFrame> = Vec::new();
        let mut i: usize = 0;
        while i < self.context.len()
            invariant
                i <= self.context@.len(),
                frames@ == self.context@.take(i as int),
            decreases self.context.len() - i,
        {
            frames.push(self.context[i].duplicate());
            assert(frames@ =~= self.context@.take(i + 1));
            i = i + 1;
        }
        assert(frames@ =~= self.context@);
        let ghost own = error.context@;
        frames.append(&mut error.context);
        error.context = frames;
        let ghost before = self.errors@;
        self.errors.push(error);
        assert(self.errors@.drop_last() =~= before);
    }

    /// Checks `actual` against `matcher`; a mismatch is recorded as an
    /// assertion failure at `location`, and the run carries on.
    pub fn expect<T: ?Sized, M: Matcher<T>>(&mut self, actual: &T, matcher: M, location: SourceLocation)
        ensures
            final(self).frames() == old(self).frames(),
            matcher.accepts(actual) ==> final(self).errors() == old(self).errors(),
            !matcher.accepts(actual) ==> final(self).errors().len() == old(self).errors().len() + 1
                && final(self).errors().drop_last() == old(self).errors() && final(self).errors().last().kind
                == ErrorKind::Assertion && final(self).errors().last().location == location
                && final(self).errors().last().context@ == old(self).frames(),
    {
        match matcher.check(actual).failure {
            None => {},
            Some(mismatch) => {
                let error = TestError::new(ErrorKind::Assertion, location).with_payload(
                    Payload::ExpectedActual {
                        expected: mismatch.expected.to_string(),
                        actual: mismatch.actual,
                        diff: mismatch.diff,
                    },
                );
                assert(error.context@ =~= Seq::<ContextFrame>::empty());
                self.record(error);
                assert(self.frames() + Seq::<ContextFrame>::empty() =~= self.frames());
            },
        }
    }

    /// Records the failure of `result`, if it failed; its own location and
    /// context are kept.
    pub fn check(&mut self, result: TestResult)
        ensures
            final(self).frames() == old(self).frames(),
            result is Ok ==> final(self).errors() == old(self).errors(),
            result matches Err(e) ==> final(self).errors().len() == old(self).errors().len() + 1
                && final(self).errors().drop_last() == old(self).errors()
                && final(self).errors().last().location == e.location
                && final(self).errors().last().context@ == old(self).frames() + e.context@,
    {
        match result {
            Ok(()) => {},
            Err(error) => self.record(error),
        }
    }

    /// Opens a context frame: failures recorded until it is closed carry it.
    pub fn push_context(&mut self, message: &str, location: SourceLocation)
        ensures
            final(self).errors() == old(self).errors(),
            final(self).frames().len() == old(self).frames().len() + 1,
            final(self).frames().drop_last() == old(self).frames(),
            final(self).frames().last().message@ == message@,
    {
        self.context.push(ContextFrame::new(message, location));
        assert(self.context@.drop_last() =~= old(self).context@);
    }

    /// Closes the innermost context frame.
    pub fn pop_context(&mut self)
        ensures
            final(self).errors() == old(self).errors(),
            final(self).frames() == if old(self).frames().len() == 0 {
                old(self).frames()
            } else {
                old(self).frames().drop_last()
            },
    {
        let _ = self.context.pop();
        assert(old(self).context@.len() > 0 ==> self.context@ =~= old(self).context@.drop_last());
    }

    /// `Ok` when nothing was recorded; otherwise one assertion failure at
    /// `location`, `N soft assertion(s) failed`, listing every recorded
    /// failure in order, with no context frame and no trace of its own.
    pub fn into_result(self, location: SourceLocation) -> (r: TestResult)
        ensures
            self.errors().len() == 0 ==> r is Ok,
            self.errors().len() > 0 ==> (r matches Err(e) && e.kind == ErrorKind::Assertion
                && e.location == location && e.context@.len() == 0 && e.trace@.len() == 0
                && (e.message matches Some(m) && m@ == soft_summary(
                self.errors().len())) && (e.payload matches Some(p) && (*p matches Payload::Multiple(es)
                && es@ == self.errors()))),
    {
        if self.errors.len() == 0 {
            return Ok(());
        }
        let count = self.errors.len();
        let mut message: Vec<char> = Vec::new();
        push_decimal(&mut message, count as u64);
        if count == 1 {
            push_str(&mut message, " soft assertion failed");
        } else {
            push_str(&mut message, " soft assertions failed");
        }
        assert(message@ =~= soft_summary(count as nat));
        let text = string_of(&message);
        Err(
            TestError::new(ErrorKind::Assertion, location).with_message(text.as_str()).with_payload(
                Payload::Multiple(self.errors),
            ),
        )
    }
}

} // verus!
