//! A testing library in which failures are values: composable matchers with
//! structured results, failures that carry their context and render to text,
//! soft assertions, `?`-friendly unwrapping, file and inline snapshots with
//! redactions and an accept step, the decisions of a property search, and the
//! reader of a test run's output that groups its failures.

pub mod text;
pub mod description;
pub mod show;
pub mod equality;
pub mod matcher;
pub mod diff;
pub mod primitives;
pub mod combinators;
pub mod fixtures;
pub mod option_result;
pub mod predicate;
pub mod strings;
pub mod collections;
pub mod error;
pub mod render;
pub mod structured;
pub mod trace;
pub mod color;
pub mod redact;
pub mod inline;
pub mod snapshot;
pub mod accept;
pub mod subject;
pub mod soft;
pub mod runner;
pub mod naming;
pub mod or_fail;
pub mod property;
pub mod structural;
