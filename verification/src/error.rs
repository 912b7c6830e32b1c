//! [`TestError`], the structured failure type, and its parts: [`ErrorKind`],
//! [`SourceLocation`], [`ContextFrame`], [`TraceEntry`] and [`Payload`].
//!
//! A `TestError` is plain data: what went wrong (its kind and an optional
//! message), where (a source location), while doing what (context frames),
//! after which breadcrumbs (trace entries), and the detail (a payload).

use vstd::prelude::*;

use crate::show::{decimal, push_decimal, Show};
use crate::text::{chars_of, push_str, string_of};

verus! {

/// The category of a test failure; each has a fixed headline.
#[derive(PartialEq, Eq, Structural, Clone, Copy, Debug, Hash)]
pub enum ErrorKind {
    /// An expectation about a value did not hold.
    Assertion,
    /// The test could not set up what it needed.
    Setup,
    /// Something did not finish in time.
    Timeout,
    /// A snapshot did not match.
    Snapshot,
    /// A property did not hold for some input.
    Property,
    /// Anything else.
    Custom,
}

/// The headline of a kind.
pub open spec fn headline_of(kind: ErrorKind) -> Seq<char> {
    match kind {
        ErrorKind::Assertion => "assertion failed"@,
        ErrorKind::Setup => "test setup failed"@,
        ErrorKind::Timeout => "timed out"@,
        ErrorKind::Snapshot => "snapshot mismatch"@,
        ErrorKind::Property => "property failed"@,
        ErrorKind::Custom => "test failed"@,
    }
}

impl ErrorKind {
    /// The short phrase that opens a rendered failure of this kind.
    pub fn headline(self) -> (s: &'static str)
        ensures
            s@ == headline_of(self),
    {
        match self {
            ErrorKind::Assertion => "assertion failed",
            ErrorKind::Setup => "test setup failed",
            ErrorKind::Timeout => "timed out",
            ErrorKind::Snapshot => "snapshot mismatch",
            ErrorKind::Property => "property failed",
            ErrorKind::Custom => "test failed",
        }
    }
}

/// A place in the source: file, line and column.
#[derive(Debug)]
pub struct SourceLocation {
    pub file: String,
    pub line: u32,
    pub column: u32,
}

/// `file:line:column`.
pub open spec fn location_text(l: SourceLocation) -> Seq<char> {
    l.file@ + ":"@ + decimal(l.line as nat) + ":"@ + decimal(l.column as nat)
}

impl SourceLocation {
    /// A location from its parts.
    pub fn new(file: &str, line: u32, column: u32) -> (l: SourceLocation)
        ensures
            l.file@ == file@,
            l.line == line,
            l.column == column,
    {
        SourceLocation { file: String::from_str(file), line, column }
    }

    /// A copy of this location.
    pub fn duplicate(&self) -> (l: SourceLocation)
        ensures
            l == *self,
    {
        SourceLocation { file: self.file.clone(), line: self.line, column: self.column }
    }

    /// Appends `file:line:column`.
    pub fn write_to(&self, out: &mut Vec<char>)
        ensures
            final(out)@ == old(out)@ + location_text(*self),
    {
        push_str(out, self.file.as_str());
        out.push(':');
        push_decimal(out, self.line as u64);
        out.push(':');
        push_decimal(out, self.column as u64);
        proof {
            reveal_strlit(":");
        }
        assert(final(out)@ =~= old(out)@ + location_text(*self));
    }

    /// `file:line:column`.
    pub fn to_string(&self) -> (s: String)
        ensures
            s@ == location_text(*self),
    {
        let mut out: Vec<char> = Vec::new();
        self.write_to(&mut out);
        assert(out@ =~= location_text(*self));
        string_of(&out)
    }
}

/// One "while doing X" frame attached to an error.
#[derive(Debug)]
pub struct ContextFrame {
    pub message: String,
    pub location: Option<SourceLocation>,
}

impl ContextFrame {
    /// A frame with `message`, recorded at `location`.
    pub fn new(message: &str, location: SourceLocation) -> (f: ContextFrame)
        ensures
            f.message@ == message@,
            f.location == Some(location),
    {
        ContextFrame { message: String::from_str(message), location: Some(location) }
    }

    /// A copy of this frame.
    pub fn duplicate(&self) -> (f: ContextFrame)
        ensures
            f == *self,
    {
        ContextFrame {
            message: self.message.clone(),
            location: match &self.location {
                Some(l) => Some(l.duplicate()),
                None => None,
            },
        }
    }
}

/// One breadcrumb of a trace: a step, or a key and its rendered value.
#[derive(Debug)]
pub enum TraceEntry {
    Step(String),
    Kv { key: String, value: String },
}

impl TraceEntry {
    /// A copy of this entry.
    pub fn duplicate(&self) -> (t: TraceEntry)
        ensures
            t == *self,
    {
        match self {
            TraceEntry::Step(s) => TraceEntry::Step(s.clone()),
            TraceEntry::Kv { key, value } => TraceEntry::Kv { key: key.clone(), value: value.clone() },
        }
    }
}

/// The detail of a failure.
#[derive(Debug)]
pub enum Payload {
    /// What was expected, what was found, and an optional diff.
    ExpectedActual { expected: String, actual: String, diff: Option<String> },
    /// Several failures collected together.
    Multiple(Vec<TestError>),
    /// An underlying error: its message and the messages of its sources, in
    /// order.
    Other { message: String, chain: Vec<String> },
}

/// A structured test failure.
#[derive(Debug)]
pub struct TestError {
    pub kind: ErrorKind,
    pub message: Option<String>,
    pub location: SourceLocation,
    pub context: Vec<ContextFrame>,
    pub trace: Vec<TraceEntry>,
    pub payload: Option<Box<Payload>>,
}

impl TestError {
    /// A bare error of `kind` at `location`: no message, context, trace or
    /// payload.
    pub fn new(kind: ErrorKind, location: SourceLocation) -> (e: TestError)
        ensures
            e.kind == kind,
            e.location == location,
            e.message is None,
            e.context@.len() == 0,
            e.trace@.len() == 0,
            e.payload is None,
    {
        TestError {
            kind,
            message: None,
            location,
            context: Vec::new(),
            trace: Vec::new(),
            payload: None,
        }
    }

    /// An assertion failure with `message`.
    pub fn assertion(message: &str, location: SourceLocation) -> (e: TestError)
        ensures
            e.kind == ErrorKind::Assertion,
            e.message is Some,
            e.message.unwrap()@ == message@,
            e.location == location,
            e.context@.len() == 0,
            e.trace@.len() == 0,
            e.payload is None,
    {
        TestError::new(ErrorKind::Assertion, location).with_message(message)
    }

    /// A custom failure with `message`.
    pub fn custom(message: &str, location: SourceLocation) -> (e: TestError)
        ensures
            e.kind == ErrorKind::Custom,
            e.message is Some,
            e.message.unwrap()@ == message@,
            e.location == location,
            e.context@.len() == 0,
            e.trace@.len() == 0,
            e.payload is None,
    {
        TestError::new(ErrorKind::Custom, location).with_message(message)
    }

    /// An assertion failure whose payload is the renderings of `expected` and
    /// `actual`, with no diff.
    pub fn from_expected_actual<A: Show + ?Sized, B: Show + ?Sized>(
        expected: &A,
        actual: &B,
        location: SourceLocation,
    ) -> (e: TestError)
        ensures
            e.kind == ErrorKind::Assertion,
            e.message is None,
            e.location == location,
            e.context@.len() == 0,
            e.trace@.len() == 0,
            e.payload matches Some(p) && match *p {
                Payload::ExpectedActual { expected: x, actual: y, diff } => x@ == expected.shown()
                    && y@ == actual.shown() && diff is None,
                _ => false,
            },
    {
        let x = string_of(&expected.show());
        let y = string_of(&actual.show());
        TestError::new(ErrorKind::Assertion, location).with_payload(
            Payload::ExpectedActual { expected: x, actual: y, diff: None },
        )
    }

    /// Replaces the message.
    pub fn with_message(self, message: &str) -> (e: TestError)
        ensures
            e.message is Some,
            e.message.unwrap()@ == message@,
            e.kind == self.kind,
            e.location == self.location,
            e.context == self.context,
            e.trace == self.trace,
            e.payload == self.payload,
    {
        TestError { message: Some(String::from_str(message)), ..self }
    }

    /// Replaces the kind.
    pub fn with_kind(self, kind: ErrorKind) -> (e: TestError)
        ensures
            e == (TestError { kind, ..self }),
    {
        TestError { kind, ..self }
    }

    /// Replaces the location.
    pub fn with_location(self, location: SourceLocation) -> (e: TestError)
        ensures
            e == (TestError { location, ..self }),
    {
        TestError { location, ..self }
    }

    /// Replaces the payload.
    pub fn with_payload(self, payload: Payload) -> (e: TestError)
        ensures
            e == (TestError { payload: Some(Box::new(payload)), ..self }),
    {
        TestError { payload: Some(Box::new(payload)), ..self }
    }

    /// Replaces the trace with `entries`, as the trace active when the error
    /// was built.
    pub fn with_trace(self, entries: Vec<TraceEntry>) -> (e: TestError)
        ensures
            e == (TestError { trace: entries, ..self }),
    {
        TestError { trace: entries, ..self }
    }

    /// Appends a context frame, consuming and returning `self`.
    pub fn with_context_frame(self, frame: ContextFrame) -> (e: TestError)
        ensures
            e.context@ == self.context@.push(frame),
            e.kind == self.kind,
            e.message == self.message,
            e.location == self.location,
            e.trace == self.trace,
            e.payload == self.payload,
    {
        let mut e = self;
        e.context.push(frame);
        e
    }

    /// Appends a context frame in place.
    pub fn push_context(&mut self, frame: ContextFrame)
        ensures
            final(self).context@ == old(self).context@.push(frame),
            final(self).kind == old(self).kind,
            final(self).message == old(self).message,
            final(self).location == old(self).location,
            final(self).trace == old(self).trace,
            final(self).payload == old(self).payload,
    {
        self.context.push(frame);
    }
}

} // verus!

verus! {

/// The return type of a test or test helper: `Ok`, or the failure that ends
/// it.
pub type TestResult<T = ()> = Result<T, TestError>;

} // verus!
