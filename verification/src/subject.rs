//! [`Subject`]: a value under test, with the source text of the expression
//! that produced it, checked against a matcher.
//!
//! A failed check becomes a [`TestError`] whose message names the expression
//! and whose payload carries what the matcher expected and what it found.

use vstd::prelude::*;

use crate::description::{render, Description};
use crate::error::{ErrorKind, Payload, SourceLocation, TestError, TestResult};
use crate::matcher::{Matcher, Mismatch, MismatchModel};
use crate::diff::{diff_lines, diff_text, line_changes};
use crate::inline::InlineSnapshotFailure;
use crate::show::{str_debug, Show};
use crate::snapshot::SnapshotFailure;
use crate::text::{chars_of, push_str, string_of};

verus! {

/// A value under test and the expression it came from.
pub struct Subject<T> {
    pub actual: T,
    pub expr: &'static str,
    pub module: &'static str,
}

/// `check!(<expr>)`.
pub open spec fn check_message(expr: Seq<char>) -> Seq<char> {
    "check!("@ + expr + ")"@
}

/// Whether `e` is the failure a mismatch `m` of the expression `expr` at
/// `location` becomes: an assertion naming the expression, with the expected
/// and actual renderings and the diff as its payload.
pub open spec fn is_mismatch_error(e: TestError, expr: Seq<char>, m: MismatchModel, location: SourceLocation) -> bool {
    &&& e.kind == ErrorKind::Assertion
    &&& e.message matches Some(msg) && msg@ == check_message(expr)
    &&& e.location == location
    &&& e.context@.len() == 0
    &&& e.trace@.len() == 0
    &&& e.payload matches Some(p) && match *p {
        Payload::ExpectedActual { expected, actual, diff } => expected@ == render(m.expected)
            && actual@ == m.actual && crate::matcher::opt_chars(diff) == m.diff,
        _ => false,
    }
}

/// `check!(<expr>): expected it not to be <description>, but it was`.
pub open spec fn unexpected_match_message(expr: Seq<char>, description: Seq<char>) -> Seq<char> {
    check_message(expr) + ": expected it not to be "@ + description + ", but it was"@
}

/// The failure for a matcher that did not match.
pub fn mismatch_error(expr: &str, mismatch: Mismatch, location: SourceLocation) -> (e: TestError)
    ensures
        is_mismatch_error(e, expr@, mismatch@, location),
{
    let mut message = chars_of("check!(");
    push_str(&mut message, expr);
    push_str(&mut message, ")");
    proof {
        reveal_strlit("check!(");
        reveal_strlit(")");
    }
    assert(message@ =~= check_message(expr@));
    let text = string_of(&message);
    TestError::new(ErrorKind::Assertion, location).with_message(text.as_str()).with_payload(
        Payload::ExpectedActual {
            expected: mismatch.expected.to_string(),
            actual: mismatch.actual,
            diff: mismatch.diff,
        },
    )
}

/// The failure for a matcher that matched when it should not have.
pub fn unexpected_match_error(expr: &str, description: Description, location: SourceLocation) -> (e: TestError)
    ensures
        e.kind == ErrorKind::Assertion,
        e.message matches Some(msg) && msg@ == unexpected_match_message(expr@, render(description@)),
        e.location == location,
        e.context@.len() == 0,
        e.trace@.len() == 0,
        e.payload is None,
{
    let mut message = chars_of("check!(");
    push_str(&mut message, expr);
    push_str(&mut message, "): expected it not to be ");
    push_str(&mut message, description.to_string().as_str());
    push_str(&mut message, ", but it was");
    proof {
        reveal_strlit("check!(");
        reveal_strlit(")");
        reveal_strlit("): expected it not to be ");
        reveal_strlit(": expected it not to be ");
        reveal_strlit(", but it was");
    }
    assert(message@ =~= unexpected_match_message(expr@, render(description@)));
    let text = string_of(&message);
    TestError::new(ErrorKind::Assertion, location).with_message(text.as_str())
}

impl<T> Subject<T> {
    /// A subject: the value, the source text of its expression, and the
    /// module it was written in.
    pub fn new(actual: T, expr: &'static str, module: &'static str) -> (s: Subject<T>)
        ensures
            s.actual == actual,
            s.expr == expr,
            s.module == module,
    {
        Subject { actual, expr, module }
    }

    /// Passes when `matcher` accepts the value; otherwise fails with the
    /// mismatch, reported at `location`.
    pub fn satisfies<M: Matcher<T>>(self, matcher: M, location: SourceLocation) -> (r: TestResult)
        ensures
            matcher.accepts(&self.actual) ==> r is Ok,
            !matcher.accepts(&self.actual) ==> (r matches Err(e) && is_mismatch_error(
                e,
                self.expr@,
                matcher.rejection(&self.actual),
                location,
            )),
    {
        match matcher.check(&self.actual).failure {
            None => Ok(()),
            Some(mismatch) => Err(mismatch_error(self.expr, mismatch, location)),
        }
    }

    /// Passes when `matcher` rejects the value; otherwise fails, reported at
    /// `location`, naming what the value should not have been.
    pub fn violates<M: Matcher<T>>(self, matcher: M, location: SourceLocation) -> (r: TestResult)
        ensures
            !matcher.accepts(&self.actual) ==> r is Ok,
            matcher.accepts(&self.actual) ==> (r matches Err(e) && e.kind == ErrorKind::Assertion
                && e.location == location && (e.message matches Some(msg) && msg@
                == unexpected_match_message(self.expr@, render(matcher.expects())))),
    {
        if matcher.check(&self.actual).matched {
            Err(unexpected_match_error(self.expr, matcher.description(), location))
        } else {
            Ok(())
        }
    }
}


/// The message of a failed file snapshot named `name`, checked by the
/// expression `expr`.
pub open spec fn snapshot_message(expr: Seq<char>, name: Seq<char>, failure: SnapshotFailure) -> Seq<char> {
    let head = check_message(expr) + ": snapshot "@ + str_debug(name);
    match failure {
        SnapshotFailure::Mismatch { path, .. } => head + " at "@ + path@ + " does not match"@,
        SnapshotFailure::Missing { path } => head + " does not exist at "@ + path@
            + "; rerun with UPDATE_SNAPSHOTS=1 to create it"@,
        SnapshotFailure::Io { path, action, source } => head + " I/O error "@ + action@ + " ("@
            + path@ + "): "@ + source@,
    }
}

/// Whether `p` is the payload showing a snapshot's stored text `expected`
/// beside the value `actual`, with their line diff.
pub open spec fn is_snapshot_payload(p: Option<Box<Payload>>, expected: Seq<char>, actual: Seq<char>) -> bool {
    p matches Some(b) && match *b {
        Payload::ExpectedActual { expected: x, actual: y, diff } => x@ == expected && y@ == actual
            && (diff matches Some(d) && d@ == diff_text(line_changes(expected, actual))),
        _ => false,
    }
}

/// The failure for a file snapshot named `name` that did not pass: a snapshot
/// failure whose message says what happened; a mismatch also carries both
/// texts and their diff.
pub fn snapshot_error(expr: &str, name: &str, failure: SnapshotFailure, location: SourceLocation) -> (e: TestError)
    ensures
        e.kind == ErrorKind::Snapshot,
        e.message matches Some(m) && m@ == snapshot_message(expr@, name@, failure),
        e.location == location,
        e.context@.len() == 0,
        e.trace@.len() == 0,
        match failure {
            SnapshotFailure::Mismatch { expected, actual, .. } => is_snapshot_payload(
                e.payload,
                expected@,
                actual@,
            ),
            _ => e.payload is None,
        },
{
    let ghost f = failure;
    let mut message = chars_of("check!(");
    push_str(&mut message, expr);
    push_str(&mut message, "): snapshot ");
    name.write_plain(&mut message);
    proof {
        reveal_strlit("check!(");
        reveal_strlit(")");
        reveal_strlit(": snapshot ");
        reveal_strlit("): snapshot ");
        reveal_strlit(" at ");
        reveal_strlit(" does not match");
        reveal_strlit(" does not exist at ");
        reveal_strlit("; rerun with UPDATE_SNAPSHOTS=1 to create it");
        reveal_strlit(" I/O error ");
        reveal_strlit(" (");
        reveal_strlit("): ");
    }
    let ghost head = message@;
    assert(head =~= check_message(expr@) + ": snapshot "@ + str_debug(name@));
    match failure {
        SnapshotFailure::Mismatch { path, expected, actual } => {
            push_str(&mut message, " at ");
            push_str(&mut message, path.as_str());
            push_str(&mut message, " does not match");
            assert(message@ =~= snapshot_message(expr@, name@, f));
            let text = string_of(&message);
            let diff = diff_lines(expected.as_str(), actual.as_str());
            TestError::new(ErrorKind::Snapshot, location).with_message(text.as_str()).with_payload(
                Payload::ExpectedActual { expected, actual, diff: Some(diff) },
            )
        },
        SnapshotFailure::Missing { path } => {
            push_str(&mut message, " does not exist at ");
            push_str(&mut message, path.as_str());
            push_str(&mut message, "; rerun with UPDATE_SNAPSHOTS=1 to create it");
            assert(message@ =~= snapshot_message(expr@, name@, f));
            let text = string_of(&message);
            TestError::new(ErrorKind::Snapshot, location).with_message(text.as_str())
        },
        SnapshotFailure::Io { path, action, source } => {
            push_str(&mut message, " I/O error ");
            push_str(&mut message, action.as_str());
            push_str(&mut message, " (");
            push_str(&mut message, path.as_str());
            push_str(&mut message, "): ");
            push_str(&mut message, source.as_str());
            assert(message@ =~= snapshot_message(expr@, name@, f));
            let text = string_of(&message);
            TestError::new(ErrorKind::Snapshot, location).with_message(text.as_str())
        },
    }
}

/// `check!(<expr>): inline snapshot does not match; rerun with
/// UPDATE_SNAPSHOTS=1 to update it`.
pub open spec fn inline_snapshot_message(expr: Seq<char>) -> Seq<char> {
    check_message(expr) + ": inline snapshot does not match; rerun with UPDATE_SNAPSHOTS=1 to update it"@
}

/// The failure for an inline snapshot that did not match: both texts and
/// their diff go into the payload.
pub fn inline_snapshot_error(expr: &str, failure: InlineSnapshotFailure, location: SourceLocation) -> (e: TestError)
    ensures
        e.kind == ErrorKind::Snapshot,
        e.message matches Some(m) && m@ == inline_snapshot_message(expr@),
        e.location == location,
        e.context@.len() == 0,
        e.trace@.len() == 0,
        is_snapshot_payload(e.payload, failure.expected@, failure.actual@),
{
    let mut message = chars_of("check!(");
    push_str(&mut message, expr);
    push_str(&mut message, "): inline snapshot does not match; rerun with UPDATE_SNAPSHOTS=1 to update it");
    proof {
        reveal_strlit("check!(");
        reveal_strlit(")");
        reveal_strlit(": inline snapshot does not match; rerun with UPDATE_SNAPSHOTS=1 to update it");
        reveal_strlit("): inline snapshot does not match; rerun with UPDATE_SNAPSHOTS=1 to update it");
    }
    assert(message@ =~= inline_snapshot_message(expr@));
    let text = string_of(&message);
    let InlineSnapshotFailure { expected, actual } = failure;
    let diff = diff_lines(expected.as_str(), actual.as_str());
    TestError::new(ErrorKind::Snapshot, location).with_message(text.as_str()).with_payload(
        Payload::ExpectedActual { expected, actual, diff: Some(diff) },
    )
}

/// `check!(<expr>): did not complete within <limit>`.
pub open spec fn timeout_message(expr: Seq<char>, limit: Seq<char>) -> Seq<char> {
    check_message(expr) + ": did not complete within "@ + limit
}

/// The failure for a future that did not finish in time; `limit` is the
/// rendering of the time it was given.
pub fn timeout_error(expr: &str, limit: &str, location: SourceLocation) -> (e: TestError)
    ensures
        e.kind == ErrorKind::Assertion,
        e.message matches Some(m) && m@ == timeout_message(expr@, limit@),
        e.location == location,
        e.context@.len() == 0,
        e.trace@.len() == 0,
        e.payload is None,
{
    let mut message = chars_of("check!(");
    push_str(&mut message, expr);
    push_str(&mut message, "): did not complete within ");
    push_str(&mut message, limit);
    proof {
        reveal_strlit("check!(");
        reveal_strlit(")");
        reveal_strlit(": did not complete within ");
        reveal_strlit("): did not complete within ");
    }
    assert(message@ =~= timeout_message(expr@, limit@));
    let text = string_of(&message);
    TestError::new(ErrorKind::Assertion, location).with_message(text.as_str())
}

} // verus!
