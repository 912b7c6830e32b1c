//! [`Equate`] and [`Order`]: the equality and ordering the primitive matchers
//! compare with, stated over the values themselves.

use vstd::prelude::*;

use crate::text::chars_of;

verus! {

/// Equality between two values of a type.
pub trait Equate {
    /// Whether `self` and `other` are equal.
    spec fn same(&self, other: &Self) -> bool;

    /// Compares `self` with `other`.
    fn equals(&self, other: &Self) -> (b: bool)
        ensures
            b == self.same(other),
    ;
}

/// A strict ordering between two values of a type.
pub trait Order: Equate {
    /// Whether `self` comes strictly before `other`.
    spec fn before(&self, other: &Self) -> bool;

    /// Whether `self` comes strictly before `other`.
    fn less_than(&self, other: &Self) -> (b: bool)
        ensures
            b == self.before(other),
    ;
}

impl Equate for u8 {
    open spec fn same(&self, other: &Self) -> bool {
        *self == *other
    }

    fn equals(&self, other: &Self) -> (b: bool) {
        *self == *other
    }
}

impl Order for u8 {
    open spec fn before(&self, other: &Self) -> bool {
        *self < *other
    }

    fn less_than(&self, other: &Self) -> (b: bool) {
        *self < *other
    }
}

impl Equate for u16 {
    open spec fn same(&self, other: &Self) -> bool {
        *self == *other
    }

    fn equals(&self, other: &Self) -> (b: bool) {
        *self == *other
    }
}

impl Order for u16 {
    open spec fn before(&self, other: &Self) -> bool {
        *self < *other
    }

    fn less_than(&self, other: &Self) -> (b: bool) {
        *self < *other
    }
}

impl Equate for u32 {
    open spec fn same(&self, other: &Self) -> bool {
        *self == *other
    }

    fn equals(&self, other: &Self) -> (b: bool) {
        *self == *other
    }
}

impl Order for u32 {
    open spec fn before(&self, other: &Self) -> bool {
        *self < *other
    }

    fn less_than(&self, other: &Self) -> (b: bool) {
        *self < *other
    }
}

impl Equate for u64 {
    open spec fn same(&self, other: &Self) -> bool {
        *self == *other
    }

    fn equals(&self, other: &Self) -> (b: bool) {
        *self == *other
    }
}

impl Order for u64 {
    open spec fn before(&self, other: &Self) -> bool {
        *self < *other
    }

    fn less_than(&self, other: &Self) -> (b: bool) {
        *self < *other
    }
}

impl Equate for usize {
    open spec fn same(&self, other: &Self) -> bool {
        *self == *other
    }

    fn equals(&self, other: &Self) -> (b: bool) {
        *self == *other
    }
}

impl Order for usize {
    open spec fn before(&self, other: &Self) -> bool {
        *self < *other
    }

    fn less_than(&self, other: &Self) -> (b: bool) {
        *self < *other
    }
}

impl Equate for i8 {
    open spec fn same(&self, other: &Self) -> bool {
        *self == *other
    }

    fn equals(&self, other: &Self) -> (b: bool) {
        *self == *other
    }
}

impl Order for i8 {
    open spec fn before(&self, other: &Self) -> bool {
        *self < *other
    }

    fn less_than(&self, other: &Self) -> (b: bool) {
        *self < *other
    }
}

impl Equate for i16 {
    open spec fn same(&self, other: &Self) -> bool {
        *self == *other
    }

    fn equals(&self, other: &Self) -> (b: bool) {
        *self == *other
    }
}

impl Order for i16 {
    open spec fn before(&self, other: &Self) -> bool {
        *self < *other
    }

    fn less_than(&self, other: &Self) -> (b: bool) {
        *self < *other
    }
}

impl Equate for i32 {
    open spec fn same(&self, other: &Self) -> bool {
        *self == *other
    }

    fn equals(&self, other: &Self) -> (b: bool) {
        *self == *other
    }
}

impl Order for i32 {
    open spec fn before(&self, other: &Self) -> bool {
        *self < *other
    }

    fn less_than(&self, other: &Self) -> (b: bool) {
        *self < *other
    }
}

impl Equate for i64 {
    open spec fn same(&self, other: &Self) -> bool {
        *self == *other
    }

    fn equals(&self, other: &Self) -> (b: bool) {
        *self == *other
    }
}

impl Order for i64 {
    open spec fn before(&self, other: &Self) -> bool {
        *self < *other
    }

    fn less_than(&self, other: &Self) -> (b: bool) {
        *self < *other
    }
}

impl Equate for isize {
    open spec fn same(&self, other: &Self) -> bool {
        *self == *other
    }

    fn equals(&self, other: &Self) -> (b: bool) {
        *self == *other
    }
}

impl Order for isize {
    open spec fn before(&self, other: &Self) -> bool {
        *self < *other
    }

    fn less_than(&self, other: &Self) -> (b: bool) {
        *self < *other
    }
}

impl Equate for bool {
    open spec fn same(&self, other: &Self) -> bool {
        *self == *other
    }

    fn equals(&self, other: &Self) -> (b: bool) {
        *self == *other
    }
}

impl Equate for char {
    open spec fn same(&self, other: &Self) -> bool {
        *self == *other
    }

    fn equals(&self, other: &Self) -> (b: bool) {
        *self == *other
    }
}

impl Equate for str {
    open spec fn same(&self, other: &Self) -> bool {
        self@ == other@
    }

    fn equals(&self, other: &Self) -> (b: bool) {
        let a = chars_of(self);
        let b = chars_of(other);
        same_chars(&a, &b)
    }
}

impl Equate for String {
    open spec fn same(&self, other: &Self) -> bool {
        self@ == other@
    }

    fn equals(&self, other: &Self) -> (b: bool) {
        *self == *other
    }
}

/// Whether two runs of characters are equal.
pub fn same_chars(a: &Vec<char>, b: &Vec<char>) -> (r: bool)
    ensures
        r == (a@ == b@),
{
    if a.len() != b.len() {
        return false;
    }
    let mut i: usize = 0;
    while i < a.len()
        invariant
            i <= a.len(),
            a.len() == b.len(),
            forall|j: int| 0 <= j < i ==> a@[j] == b@[j],
        decreases a.len() - i,
    {
        if a[i] != b[i] {
            return false;
        }
        i = i + 1;
    }
    assert(a@ =~= b@);
    true
}

impl<'a, T: Equate + ?Sized> Equate for &'a T {
    open spec fn same(&self, other: &Self) -> bool {
        (**self).same(&**other)
    }

    fn equals(&self, other: &Self) -> (b: bool) {
        (**self).equals(&**other)
    }
}

impl<'a, T: Order + ?Sized> Order for &'a T {
    open spec fn before(&self, other: &Self) -> bool {
        (**self).before(&**other)
    }

    fn less_than(&self, other: &Self) -> (b: bool) {
        (**self).less_than(&**other)
    }
}

impl<T: Equate> Equate for Option<T> {
    open spec fn same(&self, other: &Self) -> bool {
        match (self, other) {
            (None, None) => true,
            (Some(a), Some(b)) => a.same(b),
            _ => false,
        }
    }

    fn equals(&self, other: &Self) -> (b: bool) {
        match (self, other) {
            (None, None) => true,
            (Some(a), Some(b)) => a.equals(b),
            _ => false,
        }
    }
}

impl<T: Equate, E: Equate> Equate for Result<T, E> {
    open spec fn same(&self, other: &Self) -> bool {
        match (self, other) {
            (Ok(a), Ok(b)) => a.same(b),
            (Err(a), Err(b)) => a.same(b),
            _ => false,
        }
    }

    fn equals(&self, other: &Self) -> (b: bool) {
        match (self, other) {
            (Ok(a), Ok(b)) => a.equals(b),
            (Err(a), Err(b)) => a.equals(b),
            _ => false,
        }
    }
}

/// Whether two sequences are equal item by item.
pub open spec fn same_items<T: Equate>(a: Seq<T>, b: Seq<T>) -> bool {
    a.len() == b.len() && forall|i: int| 0 <= i < a.len() ==> #[trigger] a[i].same(&b[i])
}

/// Compares two slices item by item.
pub fn equal_items<T: Equate>(a: &[T], b: &[T]) -> (r: bool)
    ensures
        r == same_items(a@, b@),
{
    if a.len() != b.len() {
        return false;
    }
    let mut i: usize = 0;
    while i < a.len()
        invariant
            i <= a@.len(),
            a@.len() == b@.len(),
            forall|j: int| 0 <= j < i ==> #[trigger] a@[j].same(&b@[j]),
        decreases a.len() - i,
    {
        if !a[i].equals(&b[i]) {
            return false;
        }
        i = i + 1;
    }
    true
}

impl<T: Equate> Equate for [T] {
    open spec fn same(&self, other: &Self) -> bool {
        same_items(self@, other@)
    }

    fn equals(&self, other: &Self) -> (b: bool) {
        equal_items(self, other)
    }
}

impl<T: Equate> Equate for Vec<T> {
    open spec fn same(&self, other: &Self) -> bool {
        same_items(self@, other@)
    }

    fn equals(&self, other: &Self) -> (b: bool) {
        equal_items(self.as_slice(), other.as_slice())
    }
}

} // verus!
