//! Collection matchers: [`have_len`], [`is_empty`], [`is_not_empty`],
//! [`contains`], [`at_least_one`], [`every`], [`contains_in_order`] and
//! [`contains_all`].
//!
//! They work on anything that can list its items in order ([`Sequence`]):
//! slices, arrays, `Vec`, `VecDeque`, `BTreeSet`, `HashSet`, and references to
//! them.

use std::collections::{BTreeSet, HashSet, VecDeque};

use vstd::prelude::*;
use vstd::std_specs::btree::{into_iter_btree_keys, key_obeys_cmp_spec, spec_btree_keys_iter};
use vstd::std_specs::hash::{into_iter_hash_keys, obeys_key_model, spec_hash_keys_iter};
use vstd::std_specs::iter::IteratorSpec;

use crate::description::{desc_and, render, Desc, Description};
use crate::matcher::{MatchResult, Matcher, Mismatch, MismatchModel};
use crate::primitives::plain_rejection;
use crate::show::{decimal, list_body, push_decimal, shown_list, Show};
use crate::text::{chars_of, join, push_all, push_str, string_of};

verus! {

/// A collection whose items can be listed in order.
pub trait Sequence {
    type Item;

    /// The items, in the order the collection yields them.
    spec fn items(&self) -> Seq<Self::Item>;

    /// References to the items, in order.
    fn sequence_items(&self) -> (v: Vec<&Self::Item>)
        ensures
            v@.unref() == self.items(),
    ;
}

/// References to the items of a slice, in order.
fn slice_items<T>(s: &[T]) -> (v: Vec<&T>)
    ensures
        v@.unref() == s@,
{
    let mut v: Vec<&T> = Vec::new();
    let mut i: usize = 0;
    while i < s.len()
        invariant
            i <= s@.len(),
            v@.len() == i,
            forall|j: int| 0 <= j < i ==> *v@[j] == s@[j],
        decreases s.len() - i,
    {
        v.push(&s[i]);
        i = i + 1;
    }
    assert(v@.unref() =~= s@);
    v
}

impl<T> Sequence for [T] {
    type Item = T;

    open spec fn items(&self) -> Seq<T> {
        self@
    }

    fn sequence_items(&self) -> (v: Vec<&T>) {
        slice_items(self)
    }
}

impl<T, const N: usize> Sequence for [T; N] {
    type Item = T;

    open spec fn items(&self) -> Seq<T> {
        self@
    }

    fn sequence_items(&self) -> (v: Vec<&T>) {
        slice_items(self.as_slice())
    }
}

impl<T> Sequence for Vec<T> {
    type Item = T;

    open spec fn items(&self) -> Seq<T> {
        self@
    }

    fn sequence_items(&self) -> (v: Vec<&T>) {
        slice_items(self.as_slice())
    }
}

impl<T> Sequence for VecDeque<T> {
    type Item = T;

    open spec fn items(&self) -> Seq<T> {
        self@
    }

    fn sequence_items(&self) -> (v: Vec<&T>) {
        broadcast use vstd::std_specs::vecdeque::group_vec_dequeue_axioms;

        let mut v: Vec<&T> = Vec::new();
        let mut i: usize = 0;
        while i < self.len()
            invariant
                i <= self@.len(),
                v@.len() == i,
                forall|j: int| 0 <= j < i ==> *v@[j] == self@[j],
            decreases self@.len() - i,
        {
            v.push(&self[i]);
            i = i + 1;
        }
        assert(v@.unref() =~= self@);
        v
    }
}

/// References to distinct items point at distinct items.
proof fn lemma_unref_no_duplicates<T>(s: Seq<&T>)
    requires
        s.no_duplicates(),
    ensures
        s.unref().no_duplicates(),
{
    assert forall|i: int, j: int| 0 <= i < s.len() && 0 <= j < s.len() && i != j implies s.unref()[i]
        != s.unref()[j] by {
        assert(s[i] != s[j]);
    }
}

/// `BTreeSet::iter`, collected: the set's items in the order the set yields
/// them, which `vstd` models as the keys of `spec_btree_keys_iter(s)`.
#[verifier::external_body]
fn btree_set_walk<T>(s: &BTreeSet<T>) -> (v: Vec<&T>)
    ensures
        v@.unref() == into_iter_btree_keys(spec_btree_keys_iter(s)),
{
    s.iter().collect()
}

impl<T> Sequence for BTreeSet<T> {
    type Item = T;

    open spec fn items(&self) -> Seq<T> {
        into_iter_btree_keys(spec_btree_keys_iter(self))
    }

    /// With keys whose order `vstd` models, the walk yields every item of the
    /// set once.
    fn sequence_items(&self) -> (v: Vec<&T>)
        ensures
            key_obeys_cmp_spec::<T>() ==> v@.unref().to_set() == self@ && v@.unref().no_duplicates(),
    {
        broadcast use vstd::std_specs::btree::group_btree_axioms;

        // The iterator's own contract ties the keys it yields to the set.
        let keys = self.iter();
        let v = btree_set_walk(self);
        proof {
            if key_obeys_cmp_spec::<T>() {
                assert(into_iter_btree_keys(keys) == IteratorSpec::remaining(&keys).unref());
                lemma_unref_no_duplicates(IteratorSpec::remaining(&keys));
            }
        }
        v
    }
}

/// `HashSet::iter`, collected: the set's items in the order the set yields
/// them, which `vstd` models as the keys of `spec_hash_keys_iter(s)`.
#[verifier::external_body]
fn hash_set_walk<T>(s: &HashSet<T>) -> (v: Vec<&T>)
    ensures
        v@.unref() == into_iter_hash_keys(spec_hash_keys_iter(s)),
{
    s.iter().collect()
}

impl<T> Sequence for HashSet<T> {
    type Item = T;

    open spec fn items(&self) -> Seq<T> {
        into_iter_hash_keys(spec_hash_keys_iter(self))
    }

    /// With keys that `vstd` models, the walk yields every item of the set
    /// once.
    fn sequence_items(&self) -> (v: Vec<&T>)
        ensures
            obeys_key_model::<T>() ==> v@.unref().to_set() == self@ && v@.unref().no_duplicates(),
    {
        broadcast use vstd::std_specs::hash::group_hash_axioms;

        // The iterator's own contract ties the keys it yields to the set.
        let keys = self.iter();
        let v = hash_set_walk(self);
        proof {
            if obeys_key_model::<T>() {
                assert(into_iter_hash_keys(keys) == IteratorSpec::remaining(&keys).unref());
                lemma_unref_no_duplicates(IteratorSpec::remaining(&keys));
            }
        }
        v
    }
}

impl<'a, S: Sequence + ?Sized> Sequence for &'a S {
    type Item = S::Item;

    open spec fn items(&self) -> Seq<S::Item> {
        (**self).items()
    }

    fn sequence_items(&self) -> (v: Vec<&S::Item>) {
        (**self).sequence_items()
    }
}

/// The `{:?}` rendering of a list of items, as a `String`.
fn render_items<T: Show>(items: &Vec<&T>) -> (s: String)
    ensures
        s@ == shown_list(items@.unref()),
{
    let ghost all = items@.unref();
    let mut out: Vec<char> = Vec::new();
    out.push('[');
    proof {
        reveal_strlit("[");
        assert(out@ =~= "["@ + list_body(all.take(0)));
    }
    let mut i: usize = 0;
    while i < items.len()
        invariant
            i <= items@.len(),
            all == items@.unref(),
            out@ == "["@ + list_body(all.take(i as int)),
        decreases items.len() - i,
    {
        proof {
            reveal_strlit("[");
            reveal_strlit(", ");
        }
        if i > 0 {
            push_str(&mut out, ", ");
        }
        let item: &T = items[i];
        item.write_plain(&mut out);
        proof {
            let t = all.take(i + 1);
            assert(t.drop_last() =~= all.take(i as int));
            assert(t.last() == *items@[i as int]);
            if i == 0 {
                assert(list_body(t) == t[0].shown());
            }
        }
        i = i + 1;
    }
    out.push(']');
    proof {
        reveal_strlit("[");
        reveal_strlit("]");
        assert(all.take(items@.len() as int) =~= all);
    }
    assert(out@ =~= shown_list(all));
    string_of(&out)
}

/// `a sequence of length n`.
pub open spec fn length_phrase(n: nat) -> Seq<char> {
    "a sequence of length "@ + decimal(n)
}

fn length_text(n: usize) -> (s: Vec<char>)
    ensures
        s@ == length_phrase(n as nat),
{
    let mut out = chars_of("a sequence of length ");
    push_decimal(&mut out, n as u64);
    proof {
        reveal_strlit("a sequence of length ");
    }
    out
}

/// The matcher behind [`have_len`].
pub struct LenMatcher {
    pub expected: usize,
}

impl<C: Sequence + ?Sized> Matcher<C> for LenMatcher {
    open spec fn expects(&self) -> Desc {
        Desc::Text(length_phrase(self.expected as nat))
    }

    open spec fn accepts(&self, actual: &C) -> bool {
        actual.items().len() == self.expected
    }

    open spec fn rejection(&self, actual: &C) -> MismatchModel {
        plain_rejection(
            Desc::Text(length_phrase(self.expected as nat)),
            length_phrase(actual.items().len()),
        )
    }

    fn check(&self, actual: &C) -> (r: MatchResult) {
        let items = actual.sequence_items();
        let len = items.len();
        if len == self.expected {
            MatchResult::pass()
        } else {
            let expected = Description::from_chars(&length_text(self.expected));
            MatchResult::fail(Mismatch::new(expected, string_of(&length_text(len))))
        }
    }

    fn description(&self) -> (d: Description) {
        Description::from_chars(&length_text(self.expected))
    }
}

/// Matches a sequence with exactly `n` items.
pub fn have_len(n: usize) -> (m: LenMatcher)
    ensures
        m.expected == n,
{
    LenMatcher { expected: n }
}

/// The matcher behind [`is_empty`] and [`is_not_empty`].
pub struct EmptyMatcher {
    pub want_empty: bool,
}

impl EmptyMatcher {
    /// `an empty sequence` or `a non-empty sequence`.
    pub open spec fn phrase(&self) -> Seq<char> {
        if self.want_empty {
            "an empty sequence"@
        } else {
            "a non-empty sequence"@
        }
    }

    fn description_text(&self) -> (d: Description)
        ensures
            d@ == Desc::Text(self.phrase()),
    {
        Description::text(if self.want_empty {
            "an empty sequence"
        } else {
            "a non-empty sequence"
        })
    }
}

impl<C: Sequence + ?Sized> Matcher<C> for EmptyMatcher {
    open spec fn expects(&self) -> Desc {
        Desc::Text(self.phrase())
    }

    open spec fn accepts(&self, actual: &C) -> bool {
        (actual.items().len() == 0) == self.want_empty
    }

    open spec fn rejection(&self, actual: &C) -> MismatchModel {
        plain_rejection(
            Desc::Text(self.phrase()),
            if self.want_empty {
                length_phrase(actual.items().len())
            } else {
                "an empty sequence"@
            },
        )
    }

    fn check(&self, actual: &C) -> (r: MatchResult) {
        let items = actual.sequence_items();
        let len = items.len();
        if (len == 0) == self.want_empty {
            MatchResult::pass()
        } else if self.want_empty {
            MatchResult::fail(Mismatch::new(self.description_text(), string_of(&length_text(len))))
        } else {
            MatchResult::fail(
                Mismatch::new(self.description_text(), String::from_str("an empty sequence")),
            )
        }
    }

    fn description(&self) -> (d: Description) {
        self.description_text()
    }
}

/// Matches a sequence with no items.
pub fn is_empty() -> (m: EmptyMatcher)
    ensures
        m.want_empty,
{
    EmptyMatcher { want_empty: true }
}

/// Matches a sequence with at least one item.
pub fn is_not_empty() -> (m: EmptyMatcher)
    ensures
        !m.want_empty,
{
    EmptyMatcher { want_empty: false }
}

/// Whether some item of `items` satisfies `m`.
pub open spec fn some_accepted<I, M: Matcher<I>>(m: M, items: Seq<I>) -> bool {
    exists|i: int| 0 <= i < items.len() && m.accepts(&items[i])
}

/// Whether some item of `items` satisfies `m`.
fn any_accepted<I, M: Matcher<I>>(m: &M, items: &[&I]) -> (b: bool)
    ensures
        b == some_accepted(*m, items@.unref()),
{
    let ghost all = items@.unref();
    let mut i: usize = 0;
    while i < items.len()
        invariant
            i <= items@.len(),
            all == items@.unref(),
            forall|j: int| 0 <= j < i ==> !m.accepts(&all[j]),
        decreases items.len() - i,
    {
        let item: &I = items[i];
        if m.check(item).matched {
            assert(m.accepts(&all[i as int]));
            return true;
        }
        i = i + 1;
    }
    false
}

/// The matcher behind [`contains`] and [`at_least_one`].
pub struct AnyItemMatcher<M> {
    pub inner: M,
    pub header: &'static str,
}

impl<C: Sequence + ?Sized, M: Matcher<C::Item>> Matcher<C> for AnyItemMatcher<M> where C::Item: Show {
    open spec fn expects(&self) -> Desc {
        Desc::Labeled(self.header@, Box::new(self.inner.expects()))
    }

    open spec fn accepts(&self, actual: &C) -> bool {
        some_accepted(self.inner, actual.items())
    }

    open spec fn rejection(&self, actual: &C) -> MismatchModel {
        plain_rejection(
            Desc::Labeled(self.header@, Box::new(self.inner.expects())),
            shown_list(actual.items()),
        )
    }

    fn check(&self, actual: &C) -> (r: MatchResult) {
        let items = actual.sequence_items();
        if any_accepted(&self.inner, items.as_slice()) {
            MatchResult::pass()
        } else {
            MatchResult::fail(
                Mismatch::new(
                    Description::labeled(self.header, self.inner.description()),
                    render_items(&items),
                ),
            )
        }
    }

    fn description(&self) -> (d: Description) {
        Description::labeled(self.header, self.inner.description())
    }
}

/// Matches a sequence with at least one item that satisfies `matcher`,
/// described as `a sequence containing an item that is`.
pub fn contains<M>(matcher: M) -> (m: AnyItemMatcher<M>)
    ensures
        m.inner == matcher,
        m.header@ == "a sequence containing an item that is"@,
{
    AnyItemMatcher { inner: matcher, header: "a sequence containing an item that is" }
}

/// Matches a sequence with at least one item that satisfies `matcher`,
/// described as `at least one item to satisfy`.
pub fn at_least_one<M>(matcher: M) -> (m: AnyItemMatcher<M>)
    ensures
        m.inner == matcher,
        m.header@ == "at least one item to satisfy"@,
{
    AnyItemMatcher { inner: matcher, header: "at least one item to satisfy" }
}

/// The position of the first item of `items` that `m` rejects.
pub open spec fn first_rejected<I, M: Matcher<I>>(m: M, items: Seq<I>) -> int {
    choose|k: int|
        0 <= k < items.len() && !m.accepts(&items[k]) && forall|j: int|
            0 <= j < k ==> m.accepts(&items[j])
}

/// `item at index k was <actual>`.
pub open spec fn index_report(k: nat, actual: Seq<char>) -> Seq<char> {
    "item at index "@ + decimal(k) + " was "@ + actual
}

/// The matcher behind [`every`].
pub struct EveryMatcher<M> {
    pub inner: M,
}

impl<C: Sequence + ?Sized, M: Matcher<C::Item>> Matcher<C> for EveryMatcher<M> where C::Item: Show {
    open spec fn expects(&self) -> Desc {
        Desc::Labeled("every item to satisfy"@, Box::new(self.inner.expects()))
    }

    open spec fn accepts(&self, actual: &C) -> bool {
        forall|i: int| 0 <= i < actual.items().len() ==> self.inner.accepts(&actual.items()[i])
    }

    open spec fn rejection(&self, actual: &C) -> MismatchModel {
        let k = first_rejected(self.inner, actual.items());
        plain_rejection(
            Desc::Labeled("every item to satisfy"@, Box::new(self.inner.expects())),
            index_report(k as nat, self.inner.rejection(&actual.items()[k]).actual),
        )
    }

    fn check(&self, actual: &C) -> (r: MatchResult) {
        let items = actual.sequence_items();
        let ghost all = actual.items();
        let mut i: usize = 0;
        while i < items.len()
            invariant
                i <= items@.len(),
                all == items@.unref(),
                all == actual.items(),
                forall|j: int| 0 <= j < i ==> self.inner.accepts(&all[j]),
            decreases items.len() - i,
        {
            let item: &C::Item = items[i];
            assert(*item == all[i as int]);
            match self.inner.check(item).failure {
                Some(failure) => {
                    let mut report = chars_of("item at index ");
                    push_decimal(&mut report, i as u64);
                    push_str(&mut report, " was ");
                    push_str(&mut report, failure.actual.as_str());
                    proof {
                        reveal_strlit("item at index ");
                        reveal_strlit(" was ");
                        assert(report@ =~= index_report(i as nat, failure.actual@));
                        let k = first_rejected(self.inner, all);
                        assert(0 <= i < all.len() && !self.inner.accepts(&all[i as int]));
                        if k != i {
                            if k < i {
                                assert(self.inner.accepts(&all[k]));
                            } else {
                                assert(self.inner.accepts(&all[i as int]));
                            }
                        }
                    }
                    return MatchResult::fail(
                        Mismatch::new(
                            Matcher::<C>::description(self),
                            string_of(&report),
                        ),
                    );
                },
                None => {},
            }
            i = i + 1;
        }
        MatchResult::pass()
    }

    fn description(&self) -> (d: Description) {
        Description::labeled("every item to satisfy", self.inner.description())
    }
}

/// Matches a sequence whose every item satisfies `matcher`. A failure names
/// the index of the first item that does not.
pub fn every<M>(matcher: M) -> (m: EveryMatcher<M>)
    ensures
        m.inner == matcher,
{
    EveryMatcher { inner: matcher }
}

/// How many of `ms`, in order, a single pass over `items` satisfies: each item
/// is tried against the next unsatisfied matcher only.
pub open spec fn in_order_count<I, M: Matcher<I>>(ms: Seq<M>, items: Seq<I>) -> nat
    decreases items.len(),
{
    if items.len() == 0 {
        0
    } else {
        let n = in_order_count(ms, items.drop_last());
        if n < ms.len() && ms[n as int].accepts(&items.last()) {
            n + 1
        } else {
            n
        }
    }
}

proof fn lemma_in_order_count_bound<I, M: Matcher<I>>(ms: Seq<M>, items: Seq<I>)
    ensures
        in_order_count(ms, items) <= ms.len(),
        in_order_count(ms, items) <= items.len(),
    decreases items.len(),
{
    if items.len() > 0 {
        lemma_in_order_count_bound(ms, items.drop_last());
    }
}

/// The rendered descriptions of `ms`.
pub open spec fn rendered_expectations<I, M: Matcher<I>>(ms: Seq<M>) -> Seq<Seq<char>> {
    ms.map_values(|m: M| render(m.expects()))
}

/// `a sequence containing, in order: a, then b, then c`.
pub open spec fn in_order_phrase<I, M: Matcher<I>>(ms: Seq<M>) -> Seq<char> {
    "a sequence containing, in order: "@ + join(rendered_expectations::<I, M>(ms), ", then "@)
}

/// The report of a failed in-order search.
pub open spec fn in_order_report(next: nat, n: nat, items: Seq<char>) -> Seq<char> {
    "a sequence matching "@ + decimal(next) + " of "@ + decimal(n)
        + " in order (no later item satisfied matcher at index "@ + decimal(next) + "): "@ + items
}

/// The matcher behind [`contains_in_order`].
pub struct InOrderMatcher<M, const N: usize> {
    pub matchers: [M; N],
}

impl<M, const N: usize> InOrderMatcher<M, N> {
    fn phrase_text<I>(&self) -> (s: Vec<char>)
        where M: Matcher<I>,
        ensures
            s@ == in_order_phrase::<I, M>(self.matchers@),
    {
        let ghost parts = rendered_expectations::<I, M>(self.matchers@);
        let mut out = chars_of("a sequence containing, in order: ");
        let ghost start = out@;
        let ms = self.matchers.as_slice();
        let mut i: usize = 0;
        proof {
            reveal_strlit("a sequence containing, in order: ");
            assert(parts.take(0) =~= Seq::<Seq<char>>::empty());
        }
        while i < ms.len()
            invariant
                i <= ms@.len(),
                ms@ == self.matchers@,
                parts == rendered_expectations::<I, M>(self.matchers@),
                out@ == start + join(parts.take(i as int), ", then "@),
            decreases ms.len() - i,
        {
            let ghost before = out@;
            proof {
                reveal_strlit(", then ");
            }
            if i > 0 {
                push_str(&mut out, ", then ");
            }
            let piece = ms[i].description().render_chars();
            push_all(&mut out, &piece);
            proof {
                let t = parts.take(i + 1);
                assert(t.drop_last() =~= parts.take(i as int));
                assert(t.last() == piece@);
                if i == 0 {
                    assert(out@ =~= before + t.last());
                } else {
                    assert(out@ =~= before + ", then "@ + t.last());
                }
            }
            i = i + 1;
        }
        assert(parts.take(ms@.len() as int) =~= parts);
        out
    }
}

impl<C: Sequence + ?Sized, M: Matcher<C::Item>, const N: usize> Matcher<C> for InOrderMatcher<M, N> where C::Item: Show {
    open spec fn expects(&self) -> Desc {
        Desc::Text(in_order_phrase::<C::Item, M>(self.matchers@))
    }

    open spec fn accepts(&self, actual: &C) -> bool {
        in_order_count(self.matchers@, actual.items()) == N
    }

    open spec fn rejection(&self, actual: &C) -> MismatchModel {
        plain_rejection(
            Desc::Text(in_order_phrase::<C::Item, M>(self.matchers@)),
            in_order_report(
                in_order_count(self.matchers@, actual.items()),
                N as nat,
                shown_list(actual.items()),
            ),
        )
    }

    fn check(&self, actual: &C) -> (r: MatchResult) {
        let items = actual.sequence_items();
        let ghost all = actual.items();
        let ms = self.matchers.as_slice();
        let mut next: usize = 0;
        let mut i: usize = 0;
        while i < items.len()
            invariant
                i <= items@.len(),
                all == items@.unref(),
                all == actual.items(),
                ms@ == self.matchers@,
                ms@.len() == N,
                next == in_order_count(self.matchers@, all.take(i as int)),
            decreases items.len() - i,
        {
            proof {
                lemma_in_order_count_bound(self.matchers@, all.take(i as int));
                let t = all.take(i + 1);
                assert(t.drop_last() =~= all.take(i as int));
                assert(t.last() == all[i as int]);
            }
            let item: &C::Item = items[i];
            if next < ms.len() && ms[next].check(item).matched {
                next = next + 1;
            }
            i = i + 1;
        }
        proof {
            assert(all.take(items@.len() as int) =~= all);
        }
        if next == ms.len() {
            MatchResult::pass()
        } else {
            let mut report = chars_of("a sequence matching ");
            push_decimal(&mut report, next as u64);
            push_str(&mut report, " of ");
            push_decimal(&mut report, ms.len() as u64);
            push_str(&mut report, " in order (no later item satisfied matcher at index ");
            push_decimal(&mut report, next as u64);
            push_str(&mut report, "): ");
            let shown = render_items(&items);
            push_str(&mut report, shown.as_str());
            proof {
                reveal_strlit("a sequence matching ");
                reveal_strlit(" of ");
                reveal_strlit(" in order (no later item satisfied matcher at index ");
                reveal_strlit("): ");
                assert(report@ =~= in_order_report(next as nat, N as nat, shown_list(all)));
            }
            MatchResult::fail(
                Mismatch::new(
                    Description::from_chars(&self.phrase_text::<C::Item>()),
                    string_of(&report),
                ),
            )
        }
    }

    fn description(&self) -> (d: Description) {
        Description::from_chars(&self.phrase_text::<C::Item>())
    }
}

/// Matches a sequence containing items that satisfy `matchers` in that order,
/// not necessarily adjacent. One pass over the items tries each item against
/// the next unsatisfied matcher.
pub fn contains_in_order<M, const N: usize>(matchers: [M; N]) -> (m: InOrderMatcher<M, N>)
    ensures
        m.matchers == matchers,
{
    InOrderMatcher { matchers }
}

/// A tuple of matchers for [`contains_all`].
pub trait ContainsAll<Item> {
    /// The expectation of the first matcher, in order, that no item satisfies.
    spec fn unsatisfied(&self, items: Seq<Item>) -> Option<Desc>;

    /// The matchers' descriptions joined by `and`.
    spec fn all_expects(&self) -> Desc;

    /// The description of the first matcher that no item in `items`
    /// satisfies, or `None` if every matcher is satisfied.
    fn first_unsatisfied(&self, items: &[&Item]) -> (r: Option<Description>)
        ensures
            match r {
                Some(d) => self.unsatisfied(items@.unref()) == Some(d@),
                None => self.unsatisfied(items@.unref()) is None,
            },
    ;

    /// The conjunction of the tuple's descriptions.
    fn describe(&self) -> (d: Description)
        ensures
            d@ == self.all_expects(),
    ;
}

impl<Item, M1: Matcher<Item>, M2: Matcher<Item>> ContainsAll<Item> for (M1, M2) {
    open spec fn unsatisfied(&self, items: Seq<Item>) -> Option<Desc> {
        if !some_accepted(self.0, items) {
            Some(self.0.expects())
        } else if !some_accepted(self.1, items) {
            Some(self.1.expects())
        } else {
            None
        }
    }

    open spec fn all_expects(&self) -> Desc {
        desc_and(self.0.expects(), self.1.expects())
    }

    fn first_unsatisfied(&self, items: &[&Item]) -> (r: Option<Description>) {
        if !any_accepted(&self.0, items) {
            return Some(self.0.description());
        }
        if !any_accepted(&self.1, items) {
            return Some(self.1.description());
        }
        None
    }

    fn describe(&self) -> (d: Description) {
        let d = self.0.description();
        let d = d.and(self.1.description());
        d
    }
}

impl<Item, M1: Matcher<Item>, M2: Matcher<Item>, M3: Matcher<Item>> ContainsAll<Item> for (M1, M2, M3) {
    open spec fn unsatisfied(&self, items: Seq<Item>) -> Option<Desc> {
        if !some_accepted(self.0, items) {
            Some(self.0.expects())
        } else if !some_accepted(self.1, items) {
            Some(self.1.expects())
        } else if !some_accepted(self.2, items) {
            Some(self.2.expects())
        } else {
            None
        }
    }

    open spec fn all_expects(&self) -> Desc {
        desc_and(desc_and(self.0.expects(), self.1.expects()), self.2.expects())
    }

    fn first_unsatisfied(&self, items: &[&Item]) -> (r: Option<Description>) {
        if !any_accepted(&self.0, items) {
            return Some(self.0.description());
        }
        if !any_accepted(&self.1, items) {
            return Some(self.1.description());
        }
        if !any_accepted(&self.2, items) {
            return Some(self.2.description());
        }
        None
    }

    fn describe(&self) -> (d: Description) {
        let d = self.0.description();
        let d = d.and(self.1.description());
        let d = d.and(self.2.description());
        d
    }
}

impl<Item, M1: Matcher<Item>, M2: Matcher<Item>, M3: Matcher<Item>, M4: Matcher<Item>> ContainsAll<Item> for (M1, M2, M3, M4) {
    open spec fn unsatisfied(&self, items: Seq<Item>) -> Option<Desc> {
        if !some_accepted(self.0, items) {
            Some(self.0.expects())
        } else if !some_accepted(self.1, items) {
            Some(self.1.expects())
        } else if !some_accepted(self.2, items) {
            Some(self.2.expects())
        } else if !some_accepted(self.3, items) {
            Some(self.3.expects())
        } else {
            None
        }
    }

    open spec fn all_expects(&self) -> Desc {
        desc_and(desc_and(desc_and(self.0.expects(), self.1.expects()), self.2.expects()), self.3.expects())
    }

    fn first_unsatisfied(&self, items: &[&Item]) -> (r: Option<Description>) {
        if !any_accepted(&self.0, items) {
            return Some(self.0.description());
        }
        if !any_accepted(&self.1, items) {
            return Some(self.1.description());
        }
        if !any_accepted(&self.2, items) {
            return Some(self.2.description());
        }
        if !any_accepted(&self.3, items) {
            return Some(self.3.description());
        }
        None
    }

    fn describe(&self) -> (d: Description) {
        let d = self.0.description();
        let d = d.and(self.1.description());
        let d = d.and(self.2.description());
        let d = d.and(self.3.description());
        d
    }
}

impl<Item, M1: Matcher<Item>, M2: Matcher<Item>, M3: Matcher<Item>, M4: Matcher<Item>, M5: Matcher<Item>> ContainsAll<Item> for (M1, M2, M3, M4, M5) {
    open spec fn unsatisfied(&self, items: Seq<Item>) -> Option<Desc> {
        if !some_accepted(self.0, items) {
            Some(self.0.expects())
        } else if !some_accepted(self.1, items) {
            Some(self.1.expects())
        } else if !some_accepted(self.2, items) {
            Some(self.2.expects())
        } else if !some_accepted(self.3, items) {
            Some(self.3.expects())
        } else if !some_accepted(self.4, items) {
            Some(self.4.expects())
        } else {
            None
        }
    }

    open spec fn all_expects(&self) -> Desc {
        desc_and(desc_and(desc_and(desc_and(self.0.expects(), self.1.expects()), self.2.expects()), self.3.expects()), self.4.expects())
    }

    fn first_unsatisfied(&self, items: &[&Item]) -> (r: Option<Description>) {
        if !any_accepted(&self.0, items) {
            return Some(self.0.description());
        }
        if !any_accepted(&self.1, items) {
            return Some(self.1.description());
        }
        if !any_accepted(&self.2, items) {
            return Some(self.2.description());
        }
        if !any_accepted(&self.3, items) {
            return Some(self.3.description());
        }
        if !any_accepted(&self.4, items) {
            return Some(self.4.description());
        }
        None
    }

    fn describe(&self) -> (d: Description) {
        let d = self.0.description();
        let d = d.and(self.1.description());
        let d = d.and(self.2.description());
        let d = d.and(self.3.description());
        let d = d.and(self.4.description());
        d
    }
}

impl<Item, M1: Matcher<Item>, M2: Matcher<Item>, M3: Matcher<Item>, M4: Matcher<Item>, M5: Matcher<Item>, M6: Matcher<Item>> ContainsAll<Item> for (M1, M2, M3, M4, M5, M6) {
    open spec fn unsatisfied(&self, items: Seq<Item>) -> Option<Desc> {
        if !some_accepted(self.0, items) {
            Some(self.0.expects())
        } else if !some_accepted(self.1, items) {
            Some(self.1.expects())
        } else if !some_accepted(self.2, items) {
            Some(self.2.expects())
        } else if !some_accepted(self.3, items) {
            Some(self.3.expects())
        } else if !some_accepted(self.4, items) {
            Some(self.4.expects())
        } else if !some_accepted(self.5, items) {
            Some(self.5.expects())
        } else {
            None
        }
    }

    open spec fn all_expects(&self) -> Desc {
        desc_and(desc_and(desc_and(desc_and(desc_and(self.0.expects(), self.1.expects()), self.2.expects()), self.3.expects()), self.4.expects()), self.5.expects())
    }

    fn first_unsatisfied(&self, items: &[&Item]) -> (r: Option<Description>) {
        if !any_accepted(&self.0, items) {
            return Some(self.0.description());
        }
        if !any_accepted(&self.1, items) {
            return Some(self.1.description());
        }
        if !any_accepted(&self.2, items) {
            return Some(self.2.description());
        }
        if !any_accepted(&self.3, items) {
            return Some(self.3.description());
        }
        if !any_accepted(&self.4, items) {
            return Some(self.4.description());
        }
        if !any_accepted(&self.5, items) {
            return Some(self.5.description());
        }
        None
    }

    fn describe(&self) -> (d: Description) {
        let d = self.0.description();
        let d = d.and(self.1.description());
        let d = d.and(self.2.description());
        let d = d.and(self.3.description());
        let d = d.and(self.4.description());
        let d = d.and(self.5.description());
        d
    }
}

impl<Item, M1: Matcher<Item>, M2: Matcher<Item>, M3: Matcher<Item>, M4: Matcher<Item>, M5: Matcher<Item>, M6: Matcher<Item>, M7: Matcher<Item>> ContainsAll<Item> for (M1, M2, M3, M4, M5, M6, M7) {
    open spec fn unsatisfied(&self, items: Seq<Item>) -> Option<Desc> {
        if !some_accepted(self.0, items) {
            Some(self.0.expects())
        } else if !some_accepted(self.1, items) {
            Some(self.1.expects())
        } else if !some_accepted(self.2, items) {
            Some(self.2.expects())
        } else if !some_accepted(self.3, items) {
            Some(self.3.expects())
        } else if !some_accepted(self.4, items) {
            Some(self.4.expects())
        } else if !some_accepted(self.5, items) {
            Some(self.5.expects())
        } else if !some_accepted(self.6, items) {
            Some(self.6.expects())
        } else {
            None
        }
    }

    open spec fn all_expects(&self) -> Desc {
        desc_and(desc_and(desc_and(desc_and(desc_and(desc_and(self.0.expects(), self.1.expects()), self.2.expects()), self.3.expects()), self.4.expects()), self.5.expects()), self.6.expects())
    }

    fn first_unsatisfied(&self, items: &[&Item]) -> (r: Option<Description>) {
        if !any_accepted(&self.0, items) {
            return Some(self.0.description());
        }
        if !any_accepted(&self.1, items) {
            return Some(self.1.description());
        }
        if !any_accepted(&self.2, items) {
            return Some(self.2.description());
        }
        if !any_accepted(&self.3, items) {
            return Some(self.3.description());
        }
        if !any_accepted(&self.4, items) {
            return Some(self.4.description());
        }
        if !any_accepted(&self.5, items) {
            return Some(self.5.description());
        }
        if !any_accepted(&self.6, items) {
            return Some(self.6.description());
        }
        None
    }

    fn describe(&self) -> (d: Description) {
        let d = self.0.description();
        let d = d.and(self.1.description());
        let d = d.and(self.2.description());
        let d = d.and(self.3.description());
        let d = d.and(self.4.description());
        let d = d.and(self.5.description());
        let d = d.and(self.6.description());
        d
    }
}

impl<Item, M1: Matcher<Item>, M2: Matcher<Item>, M3: Matcher<Item>, M4: Matcher<Item>, M5: Matcher<Item>, M6: Matcher<Item>, M7: Matcher<Item>, M8: Matcher<Item>> ContainsAll<Item> for (M1, M2, M3, M4, M5, M6, M7, M8) {
    open spec fn unsatisfied(&self, items: Seq<Item>) -> Option<Desc> {
        if !some_accepted(self.0, items) {
            Some(self.0.expects())
        } else if !some_accepted(self.1, items) {
            Some(self.1.expects())
        } else if !some_accepted(self.2, items) {
            Some(self.2.expects())
        } else if !some_accepted(self.3, items) {
            Some(self.3.expects())
        } else if !some_accepted(self.4, items) {
            Some(self.4.expects())
        } else if !some_accepted(self.5, items) {
            Some(self.5.expects())
        } else if !some_accepted(self.6, items) {
            Some(self.6.expects())
        } else if !some_accepted(self.7, items) {
            Some(self.7.expects())
        } else {
            None
        }
    }

    open spec fn all_expects(&self) -> Desc {
        desc_and(desc_and(desc_and(desc_and(desc_and(desc_and(desc_and(self.0.expects(), self.1.expects()), self.2.expects()), self.3.expects()), self.4.expects()), self.5.expects()), self.6.expects()), self.7.expects())
    }

    fn first_unsatisfied(&self, items: &[&Item]) -> (r: Option<Description>) {
        if !any_accepted(&self.0, items) {
            return Some(self.0.description());
        }
        if !any_accepted(&self.1, items) {
            return Some(self.1.description());
        }
        if !any_accepted(&self.2, items) {
            return Some(self.2.description());
        }
        if !any_accepted(&self.3, items) {
            return Some(self.3.description());
        }
        if !any_accepted(&self.4, items) {
            return Some(self.4.description());
        }
        if !any_accepted(&self.5, items) {
            return Some(self.5.description());
        }
        if !any_accepted(&self.6, items) {
            return Some(self.6.description());
        }
        if !any_accepted(&self.7, items) {
            return Some(self.7.description());
        }
        None
    }

    fn describe(&self) -> (d: Description) {
        let d = self.0.description();
        let d = d.and(self.1.description());
        let d = d.and(self.2.description());
        let d = d.and(self.3.description());
        let d = d.and(self.4.description());
        let d = d.and(self.5.description());
        let d = d.and(self.6.description());
        let d = d.and(self.7.description());
        d
    }
}

/// The matcher behind [`contains_all`].
pub struct ContainsAllMatcher<Tup> {
    pub matchers: Tup,
}

impl<C: Sequence + ?Sized, Tup: ContainsAll<C::Item>> Matcher<C> for ContainsAllMatcher<Tup> where C::Item: Show {
    open spec fn expects(&self) -> Desc {
        Desc::Labeled("a sequence containing all of"@, Box::new(self.matchers.all_expects()))
    }

    open spec fn accepts(&self, actual: &C) -> bool {
        self.matchers.unsatisfied(actual.items()) is None
    }

    open spec fn rejection(&self, actual: &C) -> MismatchModel {
        plain_rejection(
            Desc::Labeled(
                "a sequence containing an item that is"@,
                Box::new(self.matchers.unsatisfied(actual.items()).unwrap()),
            ),
            shown_list(actual.items()),
        )
    }

    fn check(&self, actual: &C) -> (r: MatchResult) {
        let items = actual.sequence_items();
        match self.matchers.first_unsatisfied(items.as_slice()) {
            None => MatchResult::pass(),
            Some(unsatisfied) => MatchResult::fail(
                Mismatch::new(
                    Description::labeled("a sequence containing an item that is", unsatisfied),
                    render_items(&items),
                ),
            ),
        }
    }

    fn description(&self) -> (d: Description) {
        Description::labeled("a sequence containing all of", self.matchers.describe())
    }
}

/// Matches a sequence in which every matcher in the tuple is satisfied by some
/// item (each matcher independently; one item may satisfy several). A failure
/// names the first matcher that no item satisfied.
pub fn contains_all<Tup>(matchers: Tup) -> (m: ContainsAllMatcher<Tup>)
    ensures
        m.matchers == matchers,
{
    ContainsAllMatcher { matchers }
}

/// `is_empty` and `is_not_empty` are opposites, and `is_empty` agrees with
/// `have_len(0)`.
pub proof fn lemma_empty_opposites<C: Sequence + ?Sized>(actual: &C)
    ensures
        (EmptyMatcher { want_empty: true }).accepts(actual) == !(EmptyMatcher { want_empty: false }).accepts(
            actual,
        ),
        (EmptyMatcher { want_empty: true }).accepts(actual) == (LenMatcher { expected: 0 }).accepts(actual),
{
}

/// `every` rejects exactly when `at_least_one` of the negation accepts.
pub proof fn lemma_every_vs_some<C: Sequence + ?Sized, M: Matcher<C::Item>>(m: M, header: &'static str, actual: &C)
    where C::Item: Show,
    ensures
        !(EveryMatcher { inner: m }).accepts(actual) == (AnyItemMatcher {
            inner: crate::combinators::NotMatcher { inner: m },
            header,
        }).accepts(actual),
{
    let items = actual.items();
    if !(EveryMatcher { inner: m }).accepts(actual) {
        let i = choose|i: int| 0 <= i < items.len() && !m.accepts(&items[i]);
        assert(crate::combinators::NotMatcher { inner: m }.accepts(&items[i]));
    }
}

} // verus!
