//! [`StructuredError`]: the owned, serializable mirror of a [`TestError`]
//! that tooling consumes.

use vstd::prelude::*;

use crate::error::{ContextFrame, ErrorKind, Payload, SourceLocation, TestError, TraceEntry};

verus! {

/// A context frame in structured form.
#[derive(Debug)]
pub struct StructuredContextFrame {
    pub message: String,
    pub location: Option<SourceLocation>,
}

/// A payload in structured form.
#[derive(Debug)]
pub enum StructuredPayload {
    ExpectedActual { expected: String, actual: String, diff: Option<String> },
    Multiple(Vec<StructuredError>),
    Other { message: String, chain: Vec<String> },
}

/// A failure in structured form.
#[derive(Debug)]
pub struct StructuredError {
    pub kind: ErrorKind,
    pub message: Option<String>,
    pub location: SourceLocation,
    pub context: Vec<StructuredContextFrame>,
    pub trace: Vec<TraceEntry>,
    pub payload: Option<StructuredPayload>,
}

/// The text of an optional string.
pub open spec fn opt_text(s: Option<String>) -> Option<Seq<char>> {
    match s {
        Some(t) => Some(t@),
        None => None,
    }
}

/// The content of a failure, shared by [`TestError`] and [`StructuredError`].
pub struct ErrorModel {
    pub kind: ErrorKind,
    pub message: Option<Seq<char>>,
    pub location: SourceLocation,
    pub context: Seq<(Seq<char>, Option<SourceLocation>)>,
    pub trace: Seq<TraceEntry>,
    pub payload: Option<PayloadModel>,
}

/// The content of a payload.
pub enum PayloadModel {
    ExpectedActual(Seq<char>, Seq<char>, Option<Seq<char>>),
    Multiple(Seq<ErrorModel>),
    Other(Seq<char>, Seq<Seq<char>>),
}

/// The texts of a run of strings.
pub open spec fn texts(v: Seq<String>) -> Seq<Seq<char>> {
    v.map_values(|s: String| s@)
}

/// The content of an error.
pub open spec fn error_model(e: TestError) -> ErrorModel
    decreases e, 2int,
{
    ErrorModel {
        kind: e.kind,
        message: opt_text(e.message),
        location: e.location,
        context: e.context@.map_values(|f: ContextFrame| (f.message@, f.location)),
        trace: e.trace@,
        payload: match e.payload {
            Some(p) => Some(payload_model(*p)),
            None => None,
        },
    }
}

/// The content of a payload.
pub open spec fn payload_model(p: Payload) -> PayloadModel
    decreases p, 1int,
{
    match p {
        Payload::ExpectedActual { expected, actual, diff } => PayloadModel::ExpectedActual(
            expected@,
            actual@,
            opt_text(diff),
        ),
        Payload::Multiple(es) => PayloadModel::Multiple(error_models(es@)),
        Payload::Other { message, chain } => PayloadModel::Other(message@, texts(chain@)),
    }
}

/// The contents of a run of errors.
pub open spec fn error_models(es: Seq<TestError>) -> Seq<ErrorModel>
    decreases es, 0int,
{
    Seq::new(
        es.len(),
        |i: int|
            if 0 <= i < es.len() {
                error_model(es[i])
            } else {
                vstd::pervasive::arbitrary()
            },
    )
}

/// The content of a structured error.
pub open spec fn structured_model(e: StructuredError) -> ErrorModel
    decreases e, 2int,
{
    ErrorModel {
        kind: e.kind,
        message: opt_text(e.message),
        location: e.location,
        context: e.context@.map_values(|f: StructuredContextFrame| (f.message@, f.location)),
        trace: e.trace@,
        payload: match e.payload {
            Some(p) => Some(structured_payload_model(p)),
            None => None,
        },
    }
}

/// The content of a structured payload.
pub open spec fn structured_payload_model(p: StructuredPayload) -> PayloadModel
    decreases p, 1int,
{
    match p {
        StructuredPayload::ExpectedActual { expected, actual, diff } => PayloadModel::ExpectedActual(
            expected@,
            actual@,
            opt_text(diff),
        ),
        StructuredPayload::Multiple(es) => PayloadModel::Multiple(structured_models(es@)),
        StructuredPayload::Other { message, chain } => PayloadModel::Other(message@, texts(chain@)),
    }
}

/// The contents of a run of structured errors.
pub open spec fn structured_models(es: Seq<StructuredError>) -> Seq<ErrorModel>
    decreases es, 0int,
{
    Seq::new(
        es.len(),
        |i: int|
            if 0 <= i < es.len() {
                structured_model(es[i])
            } else {
                vstd::pervasive::arbitrary()
            },
    )
}

proof fn lemma_models_index(es: Seq<TestError>, ss: Seq<StructuredError>)
    ensures
        error_models(es).len() == es.len(),
        structured_models(ss).len() == ss.len(),
        forall|i: int| 0 <= i < es.len() ==> #[trigger] error_models(es)[i] == error_model(es[i]),
        forall|i: int|
            0 <= i < ss.len() ==> #[trigger] structured_models(ss)[i] == structured_model(ss[i]),
{
}

proof fn lemma_multiple_decreases(p: Payload, i: int)
    requires
        p is Multiple,
        0 <= i < p->Multiple_0@.len(),
    ensures
        decreases_to!(p => p->Multiple_0@[i]),
{
    match p {
        Payload::Multiple(errors) => {
            assert(decreases_to!(p => errors));
            assert(decreases_to!(errors => errors@));
            assert(decreases_to!(errors@ => errors@[i]));
        },
        _ => {},
    }
}

impl TestError {
    /// The structured mirror of this error, sub-failures included.
    pub fn to_structured(&self) -> (s: StructuredError)
        ensures
            structured_model(s) == error_model(*self),
        decreases self, 2int,
    {
        let mut context: Vec<StructuredContextFrame> = Vec::new();
        let mut i: usize = 0;
        while i < self.context.len()
            invariant
                i <= self.context@.len(),
                context@.len() == i,
                forall|j: int|
                    0 <= j < i ==> #[trigger] context@[j].message@ == self.context@[j].message@
                        && context@[j].location == self.context@[j].location,
            decreases self.context.len() - i,
        {
            let frame = &self.context[i];
            context.push(
                StructuredContextFrame {
                    message: frame.message.clone(),
                    location: match &frame.location {
                        Some(l) => Some(l.duplicate()),
                        None => None,
                    },
                },
            );
            i = i + 1;
        }
        let mut trace: Vec<TraceEntry> = Vec::new();
        let mut k: usize = 0;
        while k < self.trace.len()
            invariant
                k <= self.trace@.len(),
                trace@ == self.trace@.take(k as int),
            decreases self.trace.len() - k,
        {
            trace.push(self.trace[k].duplicate());
            assert(trace@ =~= self.trace@.take(k + 1));
            k = k + 1;
        }
        assert(trace@ =~= self.trace@);
        let payload = match &self.payload {
            Some(p) => Some(structured_payload(p)),
            None => None,
        };
        let s = StructuredError {
            kind: self.kind,
            message: match &self.message {
                Some(m) => Some(m.clone()),
                None => None,
            },
            location: self.location.duplicate(),
            context,
            trace,
            payload,
        };
        assert(structured_model(s).context =~= error_model(*self).context);
        s
    }
}

/// The structured mirror of a payload.
fn structured_payload(p: &Payload) -> (s: StructuredPayload)
    ensures
        structured_payload_model(s) == payload_model(*p),
    decreases p, 1int,
{
    match p {
        Payload::ExpectedActual { expected, actual, diff } => {
            let d: Option<String> = match diff {
                Some(d) => Some(d.clone()),
                None => None,
            };
            StructuredPayload::ExpectedActual { expected: expected.clone(), actual: actual.clone(), diff: d }
        },
        Payload::Other { message, chain } => {
            let mut copied: Vec<String> = Vec::new();
            let mut i: usize = 0;
            while i < chain.len()
                invariant
                    i <= chain@.len(),
                    copied@ == chain@.take(i as int),
                decreases chain.len() - i,
            {
                copied.push(chain[i].clone());
                assert(copied@ =~= chain@.take(i + 1));
                i = i + 1;
            }
            assert(copied@ =~= chain@);
            StructuredPayload::Other { message: message.clone(), chain: copied }
        },
        Payload::Multiple(errors) => {
            let mut subs: Vec<StructuredError> = Vec::new();
            let mut i: usize = 0;
            while i < errors.len()
                invariant
                    i <= errors@.len(),
                    *p == Payload::Multiple(*errors),
                    subs@.len() == i,
                    forall|j: int|
                        0 <= j < i ==> #[trigger] structured_model(subs@[j]) == error_model(errors@[j]),
                decreases errors.len() - i,
            {
                proof {
                    lemma_multiple_decreases(*p, i as int);
                }
                let sub = errors[i].to_structured();
                subs.push(sub);
                i = i + 1;
            }
            proof {
                lemma_models_index(errors@, subs@);
                assert(structured_models(subs@) =~= error_models(errors@));
            }
            StructuredPayload::Multiple(subs)
        },
    }
}

} // verus!
