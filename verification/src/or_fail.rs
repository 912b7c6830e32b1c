//! Turning a missing value or a failed call into a test failure: [`OrFail`]
//! and [`ContextExt`] on `Option` and `Result`, the `?`-friendly alternatives
//! to `unwrap` and `expect`.
//!
//! On the `Result` side the error is a [`Caught`]: either already a
//! [`TestError`], which is kept as it is, or a foreign error reduced to its
//! message and the messages of its sources, which becomes the
//! [`Payload::Other`] of a fresh [`ErrorKind::Custom`] failure.

use vstd::prelude::*;

use crate::error::{ContextFrame, ErrorKind, Payload, SourceLocation, TestError, TestResult};
use crate::text::{chars_of, push_str, string_of};

verus! {

/// `expected Some(<type>), got None`.
pub open spec fn missing_message(type_label: Seq<char>) -> Seq<char> {
    "expected Some("@ + type_label + "), got None"@
}

/// Unwraps a value or fails the test.
pub trait OrFail<T> {
    /// The value, or an assertion failure at `location` naming what was
    /// missing: `type_label` spells the value's type.
    fn or_fail(self, type_label: &str, location: SourceLocation) -> TestResult<T>;

    /// The value, or an assertion failure at `location` with `message`.
    fn or_fail_with(self, message: &str, location: SourceLocation) -> TestResult<T>;
}

impl<T> OrFail<T> for Option<T> {
    fn or_fail(self, type_label: &str, location: SourceLocation) -> (r: TestResult<T>)
        ensures
            self matches Some(v) ==> r == Ok::<T, TestError>(v),
            self is None ==> (r matches Err(e) && e.kind == ErrorKind::Assertion && e.location == location
                && (e.message matches Some(m) && m@ == missing_message(type_label@))),
    {
        match self {
            Some(value) => Ok(value),
            None => {
                let mut message = chars_of("expected Some(");
                push_str(&mut message, type_label);
                push_str(&mut message, "), got None");
                proof {
                    reveal_strlit("expected Some(");
                    reveal_strlit("), got None");
                }
                assert(message@ =~= missing_message(type_label@));
                let text = string_of(&message);
                Err(TestError::new(ErrorKind::Assertion, location).with_message(text.as_str()))
            },
        }
    }

    fn or_fail_with(self, message: &str, location: SourceLocation) -> (r: TestResult<T>)
        ensures
            self matches Some(v) ==> r == Ok::<T, TestError>(v),
            self is None ==> (r matches Err(e) && e.kind == ErrorKind::Assertion && e.location == location
                && (e.message matches Some(m) && m@ == message@) && e.context@.len() == 0),
    {
        match self {
            Some(value) => Ok(value),
            None => Err(TestError::new(ErrorKind::Assertion, location).with_message(message)),
        }
    }
}

/// Attaches "while doing X" context to a missing value.
pub trait ContextExt<T> {
    /// The value, or a failure carrying `message` as a context frame.
    fn context(self, message: &str, location: SourceLocation) -> TestResult<T>;

    /// Like `context`, but the message is computed by `f`, which runs only on
    /// the failure path.
    fn with_context<F: FnOnce() -> String>(self, f: F, location: SourceLocation) -> TestResult<T>
        requires
            f.requires(()),
    ;
}

impl<T> ContextExt<T> for Option<T> {
    fn context(self, message: &str, location: SourceLocation) -> (r: TestResult<T>)
        ensures
            self matches Some(v) ==> r == Ok::<T, TestError>(v),
            self is None ==> (r matches Err(e) && e.kind == ErrorKind::Custom && (e.message matches Some(m)
                && m@ == "value was None"@) && e.context@.len() == 1 && e.context@[0].message@
                == message@ && e.location == location),
    {
        match self {
            Some(value) => Ok(value),
            None => {
                let frame = ContextFrame::new(message, location.duplicate());
                let e = TestError::new(ErrorKind::Custom, location).with_message("value was None");
                let e = e.with_context_frame(frame);
                Err(e)
            },
        }
    }

    fn with_context<F: FnOnce() -> String>(self, f: F, location: SourceLocation) -> (r: TestResult<
        T,
    >)
        ensures
            self matches Some(v) ==> r == Ok::<T, TestError>(v),
            self is None ==> (r matches Err(e) && e.kind == ErrorKind::Custom && (e.message matches Some(m)
                && m@ == "value was None"@) && e.context@.len() == 1 && f.ensures(
                (),
                e.context@[0].message,
            ) && e.location == location),
    {
        match self {
            Some(value) => Ok(value),
            None => {
                let message = f();
                let frame = ContextFrame { message, location: Some(location.duplicate()) };
                let e = TestError::new(ErrorKind::Custom, location).with_message("value was None");
                Err(e.with_context_frame(frame))
            },
        }
    }
}

/// The error on the failure path of a `Result`, as the library sees it.
pub enum Caught {
    /// The error already is a test failure.
    Test(TestError),
    /// Any other error: its message and the messages of its sources, in order.
    Foreign { message: String, chain: Vec<String> },
}

/// A caught error as a test failure: a `TestError` is returned untouched (no
/// double wrapping); a foreign one becomes the `Other` payload of a fresh
/// custom failure at `location`.
pub fn coerce(error: Caught, location: SourceLocation) -> (e: TestError)
    ensures
        error matches Caught::Test(t) ==> e == t,
        error matches Caught::Foreign { message, chain } ==> e.kind == ErrorKind::Custom
            && e.message is None && e.location == location && e.context@.len() == 0
            && e.trace@.len() == 0 && e.payload == Some(
            Box::new(Payload::Other { message, chain }),
        ),
{
    match error {
        Caught::Test(e) => e,
        Caught::Foreign { message, chain } => TestError::new(ErrorKind::Custom, location).with_payload(
            Payload::Other { message, chain },
        ),
    }
}

/// Whether `e` is `base` with one more context frame, `frame`.
pub open spec fn framed(e: TestError, base: TestError, frame: ContextFrame) -> bool {
    &&& e.context@ == base.context@.push(frame)
    &&& e.kind == base.kind
    &&& e.message == base.message
    &&& e.location == base.location
    &&& e.trace == base.trace
    &&& e.payload == base.payload
}

/// Whether `e` is what coercing `error` at `location` gives, with one more
/// context frame saying `message` at `location`.
pub open spec fn coerced_with_frame(
    e: TestError,
    error: Caught,
    location: SourceLocation,
    message: Seq<char>,
) -> bool {
    &&& e.context@.len() >= 1
    &&& e.context@.last().message@ == message
    &&& e.context@.last().location == Some(location)
    &&& match error {
        Caught::Test(t) => framed(e, t, e.context@.last()),
        Caught::Foreign { message: m, chain } => e.kind == ErrorKind::Custom && e.message is None
            && e.location == location && e.context@.len() == 1 && e.trace@.len() == 0 && e.payload
            == Some(Box::new(Payload::Other { message: m, chain })),
    }
}

impl<T> OrFail<T> for Result<T, Caught> {
    fn or_fail(self, type_label: &str, location: SourceLocation) -> (r: TestResult<T>)
        ensures
            self matches Ok(v) ==> r == Ok::<T, TestError>(v),
            self matches Err(c) ==> (r matches Err(e) && (c matches Caught::Test(t) ==> e == t)
                && (c matches Caught::Foreign { message, chain } ==> e.kind == ErrorKind::Custom
                && e.message is None && e.location == location && e.context@.len() == 0
                && e.payload == Some(Box::new(Payload::Other { message, chain })))),
    {
        match self {
            Ok(value) => Ok(value),
            Err(error) => Err(coerce(error, location)),
        }
    }

    /// The supplied message is attached as a context frame, so the underlying
    /// error's own message and source chain are kept.
    fn or_fail_with(self, message: &str, location: SourceLocation) -> (r: TestResult<T>)
        ensures
            self matches Ok(v) ==> r == Ok::<T, TestError>(v),
            self matches Err(c) ==> (r matches Err(e) && coerced_with_frame(e, c, location, message@)),
    {
        match self {
            Ok(value) => Ok(value),
            Err(error) => {
                let frame = ContextFrame::new(message, location.duplicate());
                Err(coerce(error, location).with_context_frame(frame))
            },
        }
    }
}

impl<T> ContextExt<T> for Result<T, Caught> {
    fn context(self, message: &str, location: SourceLocation) -> (r: TestResult<T>)
        ensures
            self matches Ok(v) ==> r == Ok::<T, TestError>(v),
            self matches Err(c) ==> (r matches Err(e) && coerced_with_frame(e, c, location, message@)),
    {
        match self {
            Ok(value) => Ok(value),
            Err(error) => {
                let frame = ContextFrame::new(message, location.duplicate());
                Err(coerce(error, location).with_context_frame(frame))
            },
        }
    }

    fn with_context<F: FnOnce() -> String>(self, f: F, location: SourceLocation) -> (r: TestResult<
        T,
    >)
        ensures
            self matches Ok(v) ==> r == Ok::<T, TestError>(v),
            self matches Err(c) ==> (r matches Err(e) && e.context@.len() >= 1 && f.ensures(
                (),
                e.context@.last().message,
            ) && coerced_with_frame(e, c, location, e.context@.last().message@)),
    {
        match self {
            Ok(value) => Ok(value),
            Err(error) => {
                let message = f();
                let frame = ContextFrame { message, location: Some(location.duplicate()) };
                Err(coerce(error, location).with_context_frame(frame))
            },
        }
    }
}

} // verus!
