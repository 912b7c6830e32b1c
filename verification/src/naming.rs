//! Names for generated test cases: a case label made into an identifier,
//! and one distinct name per case.

use vstd::prelude::*;

use crate::show::{decimal, push_decimal};
use crate::text::{chars_of, push_all, push_str, string_of};

verus! {

/// Whether `c` is an ASCII letter or digit.
pub open spec fn ascii_alnum(c: char) -> bool {
    ('a' <= c <= 'z') || ('A' <= c <= 'Z') || ('0' <= c <= '9')
}

/// `c` lowercased when it is an ASCII capital.
pub open spec fn ascii_lower(c: char) -> char {
    if 'A' <= c <= 'Z' {
        ((c as u32) + 32) as char
    } else {
        c
    }
}

/// A label made into an identifier: ASCII letters and digits kept
/// (lowercased), everything else `_`; an empty label becomes `case`; a
/// leading digit gets a `_` before it.
pub open spec fn ident_of(label: Seq<char>) -> Seq<char> {
    let mapped = label.map_values(|c: char| if ascii_alnum(c) { ascii_lower(c) } else { '_' });
    let named = if mapped.len() == 0 {
        "case"@
    } else {
        mapped
    };
    if '0' <= named[0] <= '9' {
        seq!['_'] + named
    } else {
        named
    }
}

/// A test case label made into a Rust identifier.
pub fn sanitize_ident(label: &str) -> (out: String)
    ensures
        out@ == ident_of(label@),
{
    let chars = chars_of(label);
    let mut mapped: Vec<char> = Vec::new();
    let mut i: usize = 0;
    while i < chars.len()
        invariant
            i <= chars@.len(),
            mapped@ == chars@.take(i as int).map_values(
                |c: char|
                    if ascii_alnum(c) {
                        ascii_lower(c)
                    } else {
                        '_'
                    },
            ),
        decreases chars.len() - i,
    {
        let c = chars[i];
        let d = if ('a' <= c && c <= 'z') || ('0' <= c && c <= '9') {
            c
        } else if 'A' <= c && c <= 'Z' {
            ((c as u32) + 32) as u8 as char
        } else {
            '_'
        };
        proof {
            if 'A' <= c <= 'Z' {
                assert(((c as u32) + 32) as u8 as char == ascii_lower(c));
            }
        }
        mapped.push(d);
        assert(mapped@ =~= chars@.take(i + 1).map_values(
            |c: char|
                if ascii_alnum(c) {
                    ascii_lower(c)
                } else {
                    '_'
                },
        ));
        i = i + 1;
    }
    assert(chars@.take(chars@.len() as int) =~= chars@);
    if mapped.len() == 0 {
        mapped = chars_of("case");
        proof {
            reveal_strlit("case");
        }
    }
    if '0' <= mapped[0] && mapped[0] <= '9' {
        let mut out: Vec<char> = Vec::new();
        out.push('_');
        push_all(&mut out, &mapped);
        return string_of(&out);
    }
    string_of(&mapped)
}

/// `base_index`.
pub open spec fn indexed(base: Seq<char>, index: nat) -> Seq<char> {
    base + "_"@ + decimal(index)
}

/// The names of the cases so far: a case takes its label's identifier, or
/// `case_<index>` when it has none; a name already taken gets `_<index>`
/// appended.
pub open spec fn case_names_of(labels: Seq<Option<Seq<char>>>) -> Seq<Seq<char>>
    decreases labels.len(),
{
    if labels.len() == 0 {
        Seq::empty()
    } else {
        let earlier = case_names_of(labels.drop_last());
        let index = (labels.len() - 1) as nat;
        let base = match labels.last() {
            Some(l) => ident_of(l),
            None => "case_"@ + decimal(index),
        };
        earlier.push(if earlier.contains(base) {
            indexed(base, index)
        } else {
            base
        })
    }
}

/// The plain view of optional labels.
pub open spec fn label_views(labels: Seq<Option<String>>) -> Seq<Option<Seq<char>>> {
    labels.map_values(|l: Option<String>| match l {
        Some(s) => Some(s@),
        None => None,
    })
}

/// Whether `names` already holds `name`.
fn taken(names: &Vec<String>, name: &String) -> (b: bool)
    ensures
        b == names@.map_values(|s: String| s@).contains(name@),
{
    let ghost views = names@.map_values(|s: String| s@);
    let mut i: usize = 0;
    while i < names.len()
        invariant
            i <= names@.len(),
            views == names@.map_values(|s: String| s@),
            forall|j: int| 0 <= j < i ==> views[j] != name@,
        decreases names.len() - i,
    {
        if names[i] == *name {
            assert(views[i as int] == name@);
            return true;
        }
        i = i + 1;
    }
    proof {
        if views.contains(name@) {
            let k = choose|k: int| 0 <= k < views.len() && views[k] == name@;
            assert(views[k] == name@);
        }
    }
    false
}

/// One distinct test name per case, in order.
pub fn case_names(labels: &[Option<String>]) -> (names: Vec<String>)
    ensures
        names@.map_values(|s: String| s@) == case_names_of(label_views(labels@)),
{
    let ghost ls = label_views(labels@);
    let mut names: Vec<String> = Vec::new();
    let mut i: usize = 0;
    proof {
        reveal_strlit("case_");
        reveal_strlit("_");
        assert(ls.take(0) =~= Seq::<Option<Seq<char>>>::empty());
        assert(names@.map_values(|s: String| s@) =~= Seq::<Seq<char>>::empty());
    }
    while i < labels.len()
        invariant
            i <= labels@.len(),
            ls == label_views(labels@),
            names@.len() == i,
            names@.map_values(|s: String| s@) == case_names_of(ls.take(i as int)),
        decreases labels.len() - i,
    {
        let base = match &labels[i] {
            Some(l) => sanitize_ident(l.as_str()),
            None => {
                let mut b = chars_of("case_");
                push_decimal(&mut b, i as u64);
                string_of(&b)
            },
        };
        let name = if taken(&names, &base) {
            let mut n = chars_of(base.as_str());
            push_str(&mut n, "_");
            push_decimal(&mut n, i as u64);
            string_of(&n)
        } else {
            base
        };
        let ghost before = names@.map_values(|s: String| s@);
        names.push(name);
        proof {
            reveal_strlit("case_");
            reveal_strlit("_");
            let t = ls.take(i + 1);
            assert(t.drop_last() =~= ls.take(i as int));
            assert(t.last() == ls[i as int]);
            assert(names@.map_values(|s: String| s@) =~= before.push(names@[i as int]@));
        }
        i = i + 1;
    }
    assert(ls.take(labels@.len() as int) =~= ls);
    names
}

} // verus!
