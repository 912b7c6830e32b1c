//! Property checks: how many cases a run tries, what a failed run reports,
//! and the shrink search that walks a failing input down to a minimal one.
//!
//! Generating values and moving through a shrink tree is the strategy's work;
//! the decisions between those moves are made here. A [`Shrinker`] holds the
//! smallest failing input found so far with the failure it produced, and
//! answers each outcome with the next [`Step`] to take.

use vstd::prelude::*;

use crate::error::{ContextFrame, ErrorKind, SourceLocation, TestError, TestResult};
use crate::show::{decimal, push_decimal};
use crate::text::{chars_of, push_str, string_of};

verus! {

/// How a property run is configured.
#[derive(Clone, Copy, Debug)]
pub struct Config {
    /// How many generated cases to try before concluding the property holds.
    pub cases: u32,
}

impl Default for Config {
    /// 256 cases.
    fn default() -> (c: Config)
        ensures
            c.cases == 256,
    {
        Config { cases: 256 }
    }
}

/// A property that did not hold: the first failing input, the minimal one the
/// shrink search reached, the failure that one produced, and how many cases
/// ran (the failing one included) before shrinking began.
#[derive(Debug)]
pub struct PropertyFailure<T> {
    pub original: T,
    pub shrunk: T,
    pub failure: TestError,
    pub cases: u32,
}

/// What the shrink search asks for next.
#[derive(PartialEq, Eq, Structural, Clone, Copy, Debug)]
pub enum Step {
    /// Move to a simpler value, and report whether there was one.
    Simplify,
    /// Move back toward the last failing value, and report whether there was
    /// another value to try.
    Complicate,
    /// Run the property on the current value, and report its outcome.
    Test,
    /// The search is over: the kept input is the minimal counterexample.
    Done,
}

/// The smallest failing input found so far, with the failure it produced.
pub struct Shrinker<T> {
    pub minimal: T,
    pub failure: TestError,
}

impl<T> Shrinker<T> {
    /// A search that starts from a failing input and its failure; the first
    /// step is always to simplify.
    pub fn new(minimal: T, failure: TestError) -> (r: (Shrinker<T>, Step))
        ensures
            r.0.minimal == minimal,
            r.0.failure == failure,
            r.1 == Step::Simplify,
    {
        (Shrinker { minimal, failure }, Step::Simplify)
    }

    /// After a `Simplify` or `Complicate`: a move to another value is tested;
    /// no move left means the search is over.
    pub fn moved(&self, moved: bool) -> (s: Step)
        ensures
            s == if moved {
                Step::Test
            } else {
                Step::Done
            },
    {
        if moved {
            Step::Test
        } else {
            Step::Done
        }
    }

    /// After a `Test` of `candidate`: a failing candidate is kept, with its own
    /// failure, and the search simplifies again; a passing one means the
    /// search went past the failure and walks back.
    pub fn tested(&mut self, candidate: T, outcome: TestResult) -> (s: Step)
        ensures
            outcome matches Err(e) ==> final(self).minimal == candidate && final(self).failure == e && s
                == Step::Simplify,
            outcome is Ok ==> *final(self) == *old(self) && s == Step::Complicate,
    {
        match outcome {
            Err(e) => {
                self.minimal = candidate;
                self.failure = e;
                Step::Simplify
            },
            Ok(()) => Step::Complicate,
        }
    }

    /// The minimal failing input and the failure it produced.
    pub fn finish(self) -> (r: (T, TestError))
        ensures
            r.0 == self.minimal,
            r.1 == self.failure,
    {
        (self.minimal, self.failure)
    }
}

/// What one drawn case came to.
#[derive(PartialEq, Eq, Structural, Clone, Copy, Debug)]
pub enum CaseOutcome {
    /// The strategy could not produce a value; this is no failure.
    NoValue,
    /// The property held for the drawn value.
    Passed,
    /// The property failed for the drawn value.
    Failed,
}

/// What a property run asks for next.
#[derive(PartialEq, Eq, Structural, Clone, Copy, Debug)]
pub enum CaseStep {
    /// Draw a value and run the property on it, then report the outcome.
    Draw,
    /// The last drawn value failed: shrink it and report the failure, which
    /// came after `cases` cases.
    Shrink { cases: u32 },
    /// Every case was tried and the property held.
    Holds,
}

/// A property run's count of cases tried, against its configuration.
pub struct CaseRun {
    config: Config,
    tried: u32,
}

impl CaseRun {
    /// The configuration of the run.
    pub closed spec fn config(self) -> Config {
        self.config
    }

    /// How many cases have been tried.
    pub closed spec fn tried(self) -> u32 {
        self.tried
    }

    /// A run with nothing tried yet; it draws if there is any case to try.
    pub fn start(config: Config) -> (r: (CaseRun, CaseStep))
        ensures
            r.0.config() == config,
            r.0.tried() == 0,
            r.1 == if config.cases > 0 {
                CaseStep::Draw
            } else {
                CaseStep::Holds
            },
    {
        let step = if config.cases > 0 {
            CaseStep::Draw
        } else {
            CaseStep::Holds
        };
        (CaseRun { config, tried: 0 }, step)
    }

    /// Counts a drawn case by its outcome: a failure is shrunk and reported
    /// with the count of cases tried so far, this one included; otherwise the
    /// run draws again while cases are left, and holds when none is. A run
    /// that has tried all its cases already holds and counts nothing more.
    pub fn after(&mut self, outcome: CaseOutcome) -> (s: CaseStep)
        ensures
            final(self).config() == old(self).config(),
            old(self).tried() < old(self).config().cases ==> final(self).tried() == old(self).tried() + 1
                && s == match outcome {
                CaseOutcome::Failed => CaseStep::Shrink { cases: final(self).tried() },
                _ => if final(self).tried() < final(self).config().cases {
                    CaseStep::Draw
                } else {
                    CaseStep::Holds
                },
            },
            old(self).tried() >= old(self).config().cases ==> final(self).tried() == old(self).tried()
                && s == CaseStep::Holds,
            s matches CaseStep::Shrink { cases } ==> 1 <= cases <= final(self).config().cases,
    {
        if self.tried >= self.config.cases {
            return CaseStep::Holds;
        }
        self.tried = self.tried + 1;
        match outcome {
            CaseOutcome::Failed => CaseStep::Shrink { cases: self.tried },
            _ => if self.tried < self.config.cases {
                CaseStep::Draw
            } else {
                CaseStep::Holds
            },
        }
    }
}

/// `property failed after N generated case(s); shrunk to <shrunk>`.
pub open spec fn property_context(cases: u32, shrunk: Seq<char>) -> Seq<char> {
    "property failed after "@ + decimal(cases as nat) + if cases == 1 {
        " generated case"@
    } else {
        " generated cases"@
    } + "; shrunk to "@ + shrunk
}

/// The failure a property run reports: the shrunk input's own failure, made a
/// property failure, with a context frame saying how many cases ran and what
/// the input shrank to (`shrunk` is its rendering).
pub fn property_error(failure: TestError, cases: u32, shrunk: &str, location: SourceLocation) -> (e: TestError)
    ensures
        e.kind == ErrorKind::Property,
        e.message == failure.message,
        e.location == failure.location,
        e.trace == failure.trace,
        e.payload == failure.payload,
        e.context@.len() == failure.context@.len() + 1,
        e.context@.drop_last() == failure.context@,
        e.context@.last().message@ == property_context(cases, shrunk@),
        e.context@.last().location == Some(location),
{
    let mut text = chars_of("property failed after ");
    push_decimal(&mut text, cases as u64);
    if cases == 1 {
        push_str(&mut text, " generated case");
    } else {
        push_str(&mut text, " generated cases");
    }
    push_str(&mut text, "; shrunk to ");
    push_str(&mut text, shrunk);
    assert(text@ =~= property_context(cases, shrunk@));
    let message = string_of(&text);
    let mut error = failure.with_kind(ErrorKind::Property);
    error.push_context(ContextFrame::new(message.as_str(), location));
    assert(error.context@.drop_last() =~= failure.context@);
    error
}

} // verus!
