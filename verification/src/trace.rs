//! [`Trace`]: breadcrumbs recorded while a test runs, carried by the failure
//! that ends it.
//!
//! A trace is a list of [`TraceEntry`] values, steps and key/value pairs, in
//! the order they were recorded.

use vstd::prelude::*;

use crate::error::TraceEntry;

verus! {

/// An ordered record of steps and key/value pairs.
pub struct Trace {
    entries: Vec<TraceEntry>,
}

impl View for Trace {
    type V = Seq<TraceEntry>;

    closed spec fn view(&self) -> Seq<TraceEntry> {
        self.entries@
    }
}

impl Trace {
    /// An empty trace.
    pub fn new() -> (t: Trace)
        ensures
            t@ == Seq::<TraceEntry>::empty(),
    {
        Trace { entries: Vec::new() }
    }

    /// Records a step.
    pub fn step(&mut self, message: &str)
        ensures
            final(self)@.len() == old(self)@.len() + 1,
            final(self)@.drop_last() == old(self)@,
            final(self)@.last() matches TraceEntry::Step(m) && m@ == message@,
    {
        self.entries.push(TraceEntry::Step(String::from_str(message)));
        assert(self@.drop_last() =~= old(self)@);
    }

    /// Records a key and its rendered value.
    pub fn kv(&mut self, key: &str, value: &str)
        ensures
            final(self)@.len() == old(self)@.len() + 1,
            final(self)@.drop_last() == old(self)@,
            final(self)@.last() matches TraceEntry::Kv { key: k, value: v } && k@ == key@ && v@
                == value@,
    {
        self.entries.push(
            TraceEntry::Kv { key: String::from_str(key), value: String::from_str(value) },
        );
        assert(self@.drop_last() =~= old(self)@);
    }

    /// A copy of the entries recorded so far, in order.
    pub fn entries(&self) -> (v: Vec<TraceEntry>)
        ensures
            v@ == self@,
    {
        let mut v: Vec<TraceEntry> = Vec::new();
        let mut i: usize = 0;
        while i < self.entries.len()
            invariant
                i <= self.entries@.len(),
                v@ == self.entries@.take(i as int),
            decreases self.entries.len() - i,
        {
            v.push(self.entries[i].duplicate());
            assert(v@ =~= self.entries@.take(i + 1));
            i = i + 1;
        }
        assert(v@ =~= self.entries@);
        v
    }
}

impl Default for Trace {
    fn default() -> (t: Trace)
        ensures
            t@ == Seq::<TraceEntry>::empty(),
    {
        Trace::new()
    }
}

} // verus!
