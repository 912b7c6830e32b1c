//! Redactions: rewriting the unstable parts of a value (ids, timestamps)
//! into stable placeholders before it is compared with a snapshot.
//!
//! A [`Redactions`] is an ordered list of rules; [`Redactions::apply`] runs
//! them in order, each on the previous one's output.

use vstd::prelude::*;

use crate::text::{chars_of, push_str, starts_with, string_of};

verus! {

/// A rewrite of a whole text, as a custom redaction rule performs it.
pub trait Rewrite {
    /// The text `s` is rewritten to.
    spec fn rewritten(&self, s: Seq<char>) -> Seq<char>;

    /// Rewrites `input`.
    fn rewrite(&self, input: &str) -> (out: String)
        ensures
            out@ == self.rewritten(input@),
    ;
}

/// A closure that can be called on every text and whose output depends on
/// the text alone.
pub open spec fn total_and_stable_text<F: Fn(&str) -> String>(f: F) -> bool {
    &&& forall|a: &str| #[trigger] call_requires(f, (a,))
    &&& forall|a1: &str, a2: &str, o1: String, o2: String|
        a1@ == a2@ && call_ensures(f, (a1,), o1) && call_ensures(f, (a2,), o2) ==> o1@ == o2@
}

/// The text the closure `f` turns `s` into.
pub open spec fn closure_text<F: Fn(&str) -> String>(f: F, s: Seq<char>) -> Seq<char> {
    (choose|a: &str, o: String| a@ == s && #[trigger] call_ensures(f, (a,), o)).1@
}

/// A custom rule made from a closure.
pub struct FnRule<F: Fn(&str) -> String> {
    f: F,
}

impl<F: Fn(&str) -> String> FnRule<F> {
    #[verifier::type_invariant]
    spec fn callable(self) -> bool {
        total_and_stable_text(self.f)
    }

    /// The closure behind the rule.
    pub closed spec fn closure(self) -> F {
        self.f
    }

    /// A rule from a closure.
    pub fn new(f: F) -> (r: FnRule<F>)
        requires
            total_and_stable_text(f),
        ensures
            r.closure() == f,
    {
        FnRule { f }
    }
}

impl<F: Fn(&str) -> String> Rewrite for FnRule<F> {
    open spec fn rewritten(&self, s: Seq<char>) -> Seq<char> {
        closure_text(self.closure(), s)
    }

    fn rewrite(&self, input: &str) -> (out: String) {
        proof {
            use_type_invariant(self);
        }
        let out = (self.f)(input);
        proof {
            assert(input@ == input@ && call_ensures(self.f, (input,), out));
            let (a, o) = choose|a: &str, o: String| a@ == input@ && #[trigger] call_ensures(self.f, (a,), o);
            assert(o@ == out@);
        }
        out
    }
}

/// One redaction rule.
pub enum Rule {
    /// Every occurrence of `needle` becomes `placeholder`; an empty needle
    /// changes nothing.
    Replace { needle: String, placeholder: String },
    /// Every canonical UUID becomes `[uuid]`.
    Uuids,
    /// Every RFC 3339 timestamp becomes `[timestamp]`.
    Timestamps,
    /// A custom rewrite.
    Custom(Box<dyn Rewrite>),
}

/// Whether `c` is an ASCII decimal digit.
pub open spec fn is_digit(c: char) -> bool {
    '0' <= c <= '9'
}

/// Whether `c` is an ASCII hexadecimal digit.
pub open spec fn is_hex(c: char) -> bool {
    is_digit(c) || ('a' <= c <= 'f') || ('A' <= c <= 'F')
}

/// Whether position `i` of a UUID is one of its dashes.
pub open spec fn uuid_dash(i: int) -> bool {
    i == 8 || i == 13 || i == 18 || i == 23
}

/// The length of the canonical UUID (`8-4-4-4-12` hex digits) at the start of
/// `s`, unless more hex follows it.
pub open spec fn uuid_len(s: Seq<char>) -> Option<nat> {
    if s.len() >= 36 && (forall|i: int|
        0 <= i < 36 ==> if uuid_dash(i) {
            s[i] == '-'
        } else {
            is_hex(#[trigger] s[i])
        }) && !(s.len() > 36 && is_hex(s[36])) {
        Some(36)
    } else {
        None
    }
}

/// The number of ASCII digits at the start of `s`.
pub open spec fn digit_run(s: Seq<char>) -> nat
    decreases s.len(),
{
    if s.len() > 0 && is_digit(s[0]) {
        1 + digit_run(s.skip(1))
    } else {
        0
    }
}

/// Whether `s` has `n` ASCII digits starting at `at`.
pub open spec fn digits_at(s: Seq<char>, at: int, n: int) -> bool {
    at + n <= s.len() && forall|i: int| at <= i < at + n ==> is_digit(#[trigger] s[i])
}

/// Whether `s` has `c` at `at`.
pub open spec fn char_at(s: Seq<char>, at: int, c: char) -> bool {
    0 <= at < s.len() && s[at] == c
}

/// Whether `s` starts with `yyyy-mm-ddThh:mm:ss` (the separator may also be
/// `t` or a space).
pub open spec fn date_time_prefix(s: Seq<char>) -> bool {
    &&& digits_at(s, 0, 4)
    &&& char_at(s, 4, '-')
    &&& digits_at(s, 5, 2)
    &&& char_at(s, 7, '-')
    &&& digits_at(s, 8, 2)
    &&& (char_at(s, 10, 'T') || char_at(s, 10, 't') || char_at(s, 10, ' '))
    &&& digits_at(s, 11, 2)
    &&& char_at(s, 13, ':')
    &&& digits_at(s, 14, 2)
    &&& char_at(s, 16, ':')
    &&& digits_at(s, 17, 2)
}

/// Where the offset of a timestamp starts, after the optional fraction, or
/// `None` when a `.` is followed by no digit.
pub open spec fn offset_start(s: Seq<char>) -> Option<int> {
    if char_at(s, 19, '.') {
        let n = digit_run(s.skip(20));
        if n == 0 {
            None
        } else {
            Some(20 + n as int)
        }
    } else {
        Some(19)
    }
}

/// The length of the RFC 3339 timestamp at the start of `s`, if there is one:
/// date, separator, time, optional fraction, and `Z` or a `±hh:mm` offset.
pub open spec fn timestamp_len(s: Seq<char>) -> Option<nat> {
    if !date_time_prefix(s) {
        None
    } else {
        match offset_start(s) {
            None => None,
            Some(p) => if char_at(s, p, 'Z') || char_at(s, p, 'z') {
                Some((p + 1) as nat)
            } else if (char_at(s, p, '+') || char_at(s, p, '-')) && digits_at(s, p + 1, 2)
                && char_at(s, p + 3, ':') && digits_at(s, p + 4, 2) {
                Some((p + 6) as nat)
            } else {
                None
            },
        }
    }
}

/// The patterns the built-in rules look for.
#[derive(PartialEq, Eq, Structural, Clone, Copy, Debug)]
pub enum Pattern {
    Uuid,
    Timestamp,
}

/// The length of the match of `pattern` at the start of `s`, if any.
pub open spec fn pattern_len(pattern: Pattern, s: Seq<char>) -> Option<nat> {
    match pattern {
        Pattern::Uuid => uuid_len(s),
        Pattern::Timestamp => timestamp_len(s),
    }
}

/// `s` with every match of `pattern`, found scanning left to right, replaced
/// by `placeholder`.
pub open spec fn scan(s: Seq<char>, placeholder: Seq<char>, pattern: Pattern) -> Seq<char>
    decreases s.len(),
{
    if s.len() == 0 {
        Seq::empty()
    } else {
        match pattern_len(pattern, s) {
            Some(n) => if 0 < n <= s.len() {
                placeholder + scan(s.skip(n as int), placeholder, pattern)
            } else {
                seq![s[0]] + scan(s.skip(1), placeholder, pattern)
            },
            None => seq![s[0]] + scan(s.skip(1), placeholder, pattern),
        }
    }
}

/// `s` with every occurrence of `needle`, found left to right without
/// overlap, replaced by `placeholder`.
pub open spec fn replace_all(s: Seq<char>, needle: Seq<char>, placeholder: Seq<char>) -> Seq<char>
    decreases s.len(),
{
    if s.len() == 0 || needle.len() == 0 {
        s
    } else if starts_with(s, needle) {
        placeholder + replace_all(s.skip(needle.len() as int), needle, placeholder)
    } else {
        seq![s[0]] + replace_all(s.skip(1), needle, placeholder)
    }
}

/// What one rule does to a text.
pub open spec fn rule_effect(rule: Rule, s: Seq<char>) -> Seq<char> {
    match rule {
        Rule::Replace { needle, placeholder } => replace_all(s, needle@, placeholder@),
        Rule::Uuids => scan(s, "[uuid]"@, Pattern::Uuid),
        Rule::Timestamps => scan(s, "[timestamp]"@, Pattern::Timestamp),
        Rule::Custom(r) => r.rewritten(s),
    }
}

/// The rules run in order on `s`, each on the previous one's output.
pub open spec fn apply_rules(rules: Seq<Rule>, s: Seq<char>) -> Seq<char>
    decreases rules.len(),
{
    if rules.len() == 0 {
        s
    } else {
        rule_effect(rules.last(), apply_rules(rules.drop_last(), s))
    }
}

/// Whether the digits run `n` long from `at`, as the timestamp scanner takes
/// them.
fn take_digits(s: &Vec<char>, pos: &mut usize, count: usize) -> (ok: bool)
    requires
        *old(pos) <= s@.len(),
        count <= 4,
    ensures
        ok == digits_at(s@, *old(pos) as int, count as int),
        ok ==> *final(pos) == *old(pos) + count,
        !ok ==> *final(pos) == *old(pos),
{
    let start = *pos;
    if count > s.len() - start {
        return false;
    }
    let mut k: usize = 0;
    while k < count
        invariant
            k <= count,
            start + count <= s.len(),
            *pos == start,
            forall|i: int| start <= i < start + k ==> is_digit(#[trigger] s@[i]),
        decreases count - k,
    {
        let c = s[start + k];
        if !('0' <= c && c <= '9') {
            return false;
        }
        k = k + 1;
    }
    *pos = start + count;
    true
}

/// Takes `expected` at `pos`, if it is there.
fn take_char(s: &Vec<char>, pos: &mut usize, expected: char) -> (ok: bool)
    requires
        *old(pos) <= s@.len(),
    ensures
        ok == char_at(s@, *old(pos) as int, expected),
        ok ==> *final(pos) == *old(pos) + 1,
        !ok ==> *final(pos) == *old(pos),
{
    if *pos < s.len() && s[*pos] == expected {
        *pos = *pos + 1;
        true
    } else {
        false
    }
}

fn is_hex_char(c: char) -> (b: bool)
    ensures
        b == is_hex(c),
{
    ('0' <= c && c <= '9') || ('a' <= c && c <= 'f') || ('A' <= c && c <= 'F')
}

/// The length of the canonical UUID starting at `at` in `s`, if any.
fn uuid_at(s: &Vec<char>, at: usize) -> (r: Option<usize>)
    requires
        at <= s@.len(),
    ensures
        r == match uuid_len(s@.skip(at as int)) {
            Some(n) => Some(n as usize),
            None => None::<usize>,
        },
{
    let ghost t = s@.skip(at as int);
    if s.len() - at < 36 {
        return None;
    }
    let mut i: usize = 0;
    while i < 36
        invariant
            i <= 36,
            at + 36 <= s.len(),
            t == s@.skip(at as int),
            forall|j: int|
                0 <= j < i ==> if uuid_dash(j) {
                    t[j] == '-'
                } else {
                    is_hex(#[trigger] t[j])
                },
        decreases 36 - i,
    {
        let c = s[at + i];
        let ok = if i == 8 || i == 13 || i == 18 || i == 23 {
            c == '-'
        } else {
            is_hex_char(c)
        };
        if !ok {
            assert(!(if uuid_dash(i as int) {
                t[i as int] == '-'
            } else {
                is_hex(t[i as int])
            }));
            return None;
        }
        i = i + 1;
    }
    if s.len() - at > 36 && is_hex_char(s[at + 36]) {
        return None;
    }
    Some(36)
}

proof fn lemma_shift(s: Seq<char>, at: int)
    requires
        0 <= at <= s.len(),
    ensures
        forall|k: int, n: int|
            0 <= k && 0 <= n ==> #[trigger] digits_at(s.skip(at), k, n) == digits_at(s, at + k, n),
        forall|k: int, c: char|
            0 <= k ==> #[trigger] char_at(s.skip(at), k, c) == char_at(s, at + k, c),
        forall|k: int| 0 <= k <= s.len() - at ==> #[trigger] s.skip(at).skip(k) == s.skip(at + k),
{
    assert forall|k: int, n: int| 0 <= k && 0 <= n implies #[trigger] digits_at(s.skip(at), k, n)
        == digits_at(s, at + k, n) by {
        if digits_at(s, at + k, n) {
            assert forall|i: int| k <= i < k + n implies is_digit(#[trigger] s.skip(at)[i]) by {
                assert(s.skip(at)[i] == s[at + i]);
            }
        }
        if digits_at(s.skip(at), k, n) {
            assert forall|i: int| at + k <= i < at + k + n implies is_digit(#[trigger] s[i]) by {
                assert(s.skip(at)[i - at] == s[i]);
            }
        }
    }
    assert forall|k: int| 0 <= k <= s.len() - at implies #[trigger] s.skip(at).skip(k) == s.skip(
        at + k,
    ) by {
        assert(s.skip(at).skip(k) =~= s.skip(at + k));
    }
}

/// The length of the RFC 3339 timestamp starting at `at` in `s`, if any.
fn timestamp_at(s: &Vec<char>, at: usize) -> (r: Option<usize>)
    requires
        at <= s@.len(),
    ensures
        r == match timestamp_len(s@.skip(at as int)) {
            Some(n) => Some(n as usize),
            None => None::<usize>,
        },
{
    let ghost t = s@.skip(at as int);
    proof {
        lemma_shift(s@, at as int);
    }
    let mut pos: usize = at;
    if !take_digits(s, &mut pos, 4) {
        assert(!digits_at(t, 0, 4));
        return None;
    }
    if !take_char(s, &mut pos, '-') {
        assert(!char_at(t, 4, '-'));
        return None;
    }
    if !take_digits(s, &mut pos, 2) {
        assert(!digits_at(t, 5, 2));
        return None;
    }
    if !take_char(s, &mut pos, '-') {
        assert(!char_at(t, 7, '-'));
        return None;
    }
    if !take_digits(s, &mut pos, 2) {
        assert(!digits_at(t, 8, 2));
        return None;
    }
    if !(take_char(s, &mut pos, 'T') || take_char(s, &mut pos, 't') || take_char(s, &mut pos, ' ')) {
        assert(!(char_at(t, 10, 'T') || char_at(t, 10, 't') || char_at(t, 10, ' ')));
        return None;
    }
    if !take_digits(s, &mut pos, 2) {
        assert(!digits_at(t, 11, 2));
        return None;
    }
    if !take_char(s, &mut pos, ':') {
        assert(!char_at(t, 13, ':'));
        return None;
    }
    if !take_digits(s, &mut pos, 2) {
        assert(!digits_at(t, 14, 2));
        return None;
    }
    if !take_char(s, &mut pos, ':') {
        assert(!char_at(t, 16, ':'));
        return None;
    }
    if !take_digits(s, &mut pos, 2) {
        assert(!digits_at(t, 17, 2));
        return None;
    }
    assert(digits_at(t, 0, 4) && char_at(t, 4, '-') && digits_at(t, 5, 2) && char_at(t, 7, '-')
        && digits_at(t, 8, 2) && digits_at(t, 11, 2) && char_at(t, 13, ':') && digits_at(t, 14, 2)
        && char_at(t, 16, ':') && digits_at(t, 17, 2));
    assert(char_at(t, 10, 'T') || char_at(t, 10, 't') || char_at(t, 10, ' '));
    assert(date_time_prefix(t));
    assert(pos == at + 19);
    if take_char(s, &mut pos, '.') {
        assert(char_at(t, 19, '.'));
        let frac_start = pos;
        while pos < s.len() && '0' <= s[pos] && s[pos] <= '9'
            invariant
                frac_start == at + 20,
                frac_start <= pos <= s@.len(),
                at <= s@.len(),
                t == s@.skip(at as int),
                digit_run(t.skip(20)) == (pos - frac_start) + digit_run(s@.skip(pos as int)),
            decreases s.len() - pos,
        {
            proof {
                assert(s@.skip(pos as int).skip(1) =~= s@.skip(pos + 1));
                assert(s@.skip(pos as int)[0] == s@[pos as int]);
            }
            pos = pos + 1;
        }
        proof {
            if pos < s@.len() {
                assert(s@.skip(pos as int)[0] == s@[pos as int]);
                assert(!is_digit(s@.skip(pos as int)[0]));
            }
        }
        if pos == frac_start {
            return None;
        }
        assert(offset_start(t) == Some(pos - at));
    } else {
        assert(!char_at(t, 19, '.'));
        assert(offset_start(t) == Some(19int));
    }
    let ghost p = pos - at;
    assert(offset_start(t) == Some(p));
    if take_char(s, &mut pos, 'Z') || take_char(s, &mut pos, 'z') {
        assert(char_at(t, p, 'Z') || char_at(t, p, 'z'));
        return Some(pos - at);
    }
    assert(!char_at(t, p, 'Z') && !char_at(t, p, 'z'));
    if take_char(s, &mut pos, '+') || take_char(s, &mut pos, '-') {
        assert(char_at(t, p, '+') || char_at(t, p, '-'));
        if !take_digits(s, &mut pos, 2) {
            assert(!digits_at(t, p + 1, 2));
            return None;
        }
        if !take_char(s, &mut pos, ':') {
            assert(!char_at(t, p + 3, ':'));
            return None;
        }
        if !take_digits(s, &mut pos, 2) {
            assert(!digits_at(t, p + 4, 2));
            return None;
        }
        assert(digits_at(t, p + 1, 2) && char_at(t, p + 3, ':') && digits_at(t, p + 4, 2));
        return Some(pos - at);
    }
    assert(!char_at(t, p, '+') && !char_at(t, p, '-'));
    None
}

/// The length of the match of `pattern` starting at `at` in `s`, if any.
fn pattern_at(pattern: Pattern, s: &Vec<char>, at: usize) -> (r: Option<usize>)
    requires
        at <= s@.len(),
    ensures
        r == match pattern_len(pattern, s@.skip(at as int)) {
            Some(n) => Some(n as usize),
            None => None::<usize>,
        },
{
    match pattern {
        Pattern::Uuid => uuid_at(s, at),
        Pattern::Timestamp => timestamp_at(s, at),
    }
}

proof fn lemma_pattern_len_bound(pattern: Pattern, s: Seq<char>)
    ensures
        pattern_len(pattern, s) matches Some(n) ==> 0 < n <= s.len(),
{
    if let Some(n) = pattern_len(pattern, s) {
        match pattern {
            Pattern::Uuid => {},
            Pattern::Timestamp => {
                let p = offset_start(s).unwrap();
                if char_at(s, 19, '.') {
                    assert(p > 19);
                }
            },
        }
    }
}

/// Replaces every match of `pattern` in `input`, scanning left to right, by
/// `placeholder`.
fn scan_replace(input: &Vec<char>, placeholder: &str, pattern: Pattern) -> (out: Vec<char>)
    ensures
        out@ == scan(input@, placeholder@, pattern),
{
    let mut out: Vec<char> = Vec::new();
    let mut i: usize = 0;
    assert(input@.skip(0) =~= input@);
    while i < input.len()
        invariant
            i <= input@.len(),
            out@ + scan(input@.skip(i as int), placeholder@, pattern) == scan(input@, placeholder@, pattern),
        decreases input.len() - i,
    {
        let ghost rest = input@.skip(i as int);
        proof {
            lemma_pattern_len_bound(pattern, rest);
        }
        match pattern_at(pattern, input, i) {
            Some(n) => {
                let ghost before = out@;
                push_str(&mut out, placeholder);
                proof {
                    assert(rest.skip(n as int) =~= input@.skip(i + n));
                    assert(out@ + scan(input@.skip(i + n), placeholder@, pattern) =~= before + (
                    placeholder@ + scan(rest.skip(n as int), placeholder@, pattern)));
                }
                i = i + n;
            },
            None => {
                let ghost before = out@;
                out.push(input[i]);
                proof {
                    assert(rest.skip(1) =~= input@.skip(i + 1));
                    assert(rest[0] == input@[i as int]);
                    assert(out@ + scan(input@.skip(i + 1), placeholder@, pattern) =~= before + (
                    seq![rest[0]] + scan(rest.skip(1), placeholder@, pattern)));
                }
                i = i + 1;
            },
        }
    }
    assert(input@.skip(input@.len() as int) =~= Seq::<char>::empty());
    out
}

/// Whether `needle` occurs in `s` at `at`.
fn occurs(s: &Vec<char>, needle: &Vec<char>, at: usize) -> (b: bool)
    requires
        at <= s@.len(),
    ensures
        b == starts_with(s@.skip(at as int), needle@),
{
    let b = crate::text::matches_at(s, needle, at);
    proof {
        let t = s@.skip(at as int);
        if needle@.len() <= t.len() {
            assert(t.take(needle@.len() as int) =~= s@.subrange(at as int, at + needle@.len()));
        }
    }
    b
}

/// Replaces every occurrence of `needle` in `input`, left to right without
/// overlap, by `placeholder`; an empty needle changes nothing.
fn replace_text(input: &Vec<char>, needle: &str, placeholder: &str) -> (out: Vec<char>)
    ensures
        out@ == replace_all(input@, needle@, placeholder@),
{
    let n = chars_of(needle);
    if n.len() == 0 {
        return input.clone();
    }
    let mut out: Vec<char> = Vec::new();
    let mut i: usize = 0;
    assert(input@.skip(0) =~= input@);
    while i < input.len()
        invariant
            i <= input@.len(),
            n@ == needle@,
            n@.len() > 0,
            out@ + replace_all(input@.skip(i as int), needle@, placeholder@) == replace_all(
                input@,
                needle@,
                placeholder@,
            ),
        decreases input.len() - i,
    {
        let ghost rest = input@.skip(i as int);
        let ghost before = out@;
        if occurs(input, &n, i) {
            push_str(&mut out, placeholder);
            proof {
                assert(rest.skip(n@.len() as int) =~= input@.skip(i + n@.len()));
                assert(out@ + replace_all(input@.skip(i + n@.len()), needle@, placeholder@) =~= before
                    + (placeholder@ + replace_all(rest.skip(n@.len() as int), needle@, placeholder@)));
            }
            i = i + n.len();
        } else {
            out.push(input[i]);
            proof {
                assert(rest.skip(1) =~= input@.skip(i + 1));
                assert(rest[0] == input@[i as int]);
                assert(out@ + replace_all(input@.skip(i + 1), needle@, placeholder@) =~= before + (
                seq![rest[0]] + replace_all(rest.skip(1), needle@, placeholder@)));
            }
            i = i + 1;
        }
    }
    assert(input@.skip(input@.len() as int) =~= Seq::<char>::empty());
    out
}

/// A custom rule from a closure.
fn custom_rule<F: Fn(&str) -> String + 'static>(rule: F) -> (r: Rule)
    requires
        total_and_stable_text(rule),
    ensures
        r matches Rule::Custom(c) && forall|s: Seq<char>| #[trigger] c.rewritten(s) == closure_text(rule, s),
{
    Rule::Custom(Box::new(FnRule::new(rule)))
}

/// An ordered list of redaction rules.
pub struct Redactions {
    rules: Vec<Rule>,
}

impl View for Redactions {
    type V = Seq<Rule>;

    closed spec fn view(&self) -> Seq<Rule> {
        self.rules@
    }
}

impl Redactions {
    /// No rules: `apply` returns its input unchanged.
    pub fn new() -> (r: Redactions)
        ensures
            r@ == Seq::<Rule>::empty(),
    {
        Redactions { rules: Vec::new() }
    }

    /// Adds a rule that replaces every occurrence of `needle` by
    /// `placeholder`. An empty needle is ignored rather than matching between
    /// every character.
    pub fn replace(self, needle: &str, placeholder: &str) -> (r: Redactions)
        ensures
            r@.len() == self@.len() + 1,
            r@.drop_last() == self@,
            r@.last() matches Rule::Replace { needle: n, placeholder: p } && n@ == needle@ && p@
                == placeholder@,
    {
        let mut rules = self.rules;
        rules.push(Rule::Replace { needle: String::from_str(needle), placeholder: String::from_str(placeholder) });
        let r = Redactions { rules };
        assert(r@.drop_last() =~= self@);
        r
    }

    /// Adds a rule that replaces every canonical UUID by `[uuid]`.
    pub fn redact_uuids(self) -> (r: Redactions)
        ensures
            r@ == self@.push(Rule::Uuids),
    {
        let mut rules = self.rules;
        rules.push(Rule::Uuids);
        Redactions { rules }
    }

    /// Adds a rule that replaces every RFC 3339 timestamp by `[timestamp]`.
    pub fn redact_rfc3339_timestamps(self) -> (r: Redactions)
        ensures
            r@ == self@.push(Rule::Timestamps),
    {
        let mut rules = self.rules;
        rules.push(Rule::Timestamps);
        Redactions { rules }
    }

    /// Adds a custom rule: `rule` turns the text so far into the next text.
    pub fn redact_with<F: Fn(&str) -> String + 'static>(self, rule: F) -> (r: Redactions)
        requires
            total_and_stable_text(rule),
        ensures
            r@.len() == self@.len() + 1,
            r@.drop_last() == self@,
            r@.last() matches Rule::Custom(c) && forall|s: Seq<char>| #[trigger] c.rewritten(s)
                == closure_text(rule, s),
    {
        let added = custom_rule(rule);
        let mut rules = self.rules;
        rules.push(added);
        let r = Redactions { rules };
        assert(r@.drop_last() =~= self@);
        r
    }

    /// Runs every rule in order on `input`, each on the previous one's
    /// output.
    pub fn apply(&self, input: &str) -> (out: String)
        ensures
            out@ == apply_rules(self@, input@),
    {
        let mut text = chars_of(input);
        let mut i: usize = 0;
        while i < self.rules.len()
            invariant
                i <= self.rules@.len(),
                text@ == apply_rules(self.rules@.take(i as int), input@),
            decreases self.rules.len() - i,
        {
            let next = match &self.rules[i] {
                Rule::Replace { needle, placeholder } => replace_text(&text, needle.as_str(), placeholder.as_str()),
                Rule::Uuids => scan_replace(&text, "[uuid]", Pattern::Uuid),
                Rule::Timestamps => scan_replace(&text, "[timestamp]", Pattern::Timestamp),
                Rule::Custom(r) => {
                    let s = string_of(&text);
                    let out = r.rewrite(s.as_str());
                    chars_of(out.as_str())
                },
            };
            proof {
                reveal_strlit("[uuid]");
                reveal_strlit("[timestamp]");
                let t = self.rules@.take(i + 1);
                assert(t.drop_last() =~= self.rules@.take(i as int));
                assert(t.last() == self.rules@[i as int]);
            }
            text = next;
            i = i + 1;
        }
        assert(self.rules@.take(self.rules@.len() as int) =~= self.rules@);
        string_of(&text)
    }

    /// Whether there are no rules.
    pub fn is_empty(&self) -> (b: bool)
        ensures
            b == (self@.len() == 0),
    {
        self.rules.len() == 0
    }

    /// How many rules there are.
    pub fn len(&self) -> (n: usize)
        ensures
            n == self@.len(),
    {
        self.rules.len()
    }

    /// `Redactions { rules: N }`, naming how many rules there are.
    pub fn debug_text(&self) -> (s: String)
        ensures
            s@ == "Redactions { rules: "@ + crate::show::decimal(self@.len()) + " }"@,
    {
        let mut out = chars_of("Redactions { rules: ");
        crate::show::push_decimal(&mut out, self.rules.len() as u64);
        push_str(&mut out, " }");
        proof {
            reveal_strlit("Redactions { rules: ");
            reveal_strlit(" }");
        }
        assert(out@ =~= "Redactions { rules: "@ + crate::show::decimal(self@.len()) + " }"@);
        string_of(&out)
    }
}

impl Default for Redactions {
    fn default() -> (r: Redactions)
        ensures
            r@ == Seq::<Rule>::empty(),
    {
        Redactions::new()
    }
}

/// A run of exactly `k` digits at the start of `t` is what `digit_run` counts.
proof fn lemma_digit_run_is(t: Seq<char>, k: int)
    requires
        0 <= k <= t.len(),
        forall|i: int| 0 <= i < k ==> is_digit(#[trigger] t[i]),
        k == t.len() || !is_digit(t[k]),
    ensures
        digit_run(t) == k,
    decreases k,
{
    if k > 0 {
        let u = t.skip(1);
        assert forall|i: int| 0 <= i < k - 1 implies is_digit(#[trigger] u[i]) by {
            assert(u[i] == t[i + 1]);
        }
        if k < t.len() {
            assert(u[k - 1] == t[k]);
        }
        lemma_digit_run_is(u, k - 1);
        assert(is_digit(t[0]));
    }
}

/// What `digit_run` counts is a run of digits ended by a non-digit or the end.
proof fn lemma_digit_run_bounds(t: Seq<char>)
    ensures
        digit_run(t) <= t.len(),
        forall|i: int| 0 <= i < digit_run(t) ==> is_digit(#[trigger] t[i]),
        digit_run(t) < t.len() ==> !is_digit(t[digit_run(t) as int]),
    decreases t.len(),
{
    if t.len() > 0 && is_digit(t[0]) {
        let u = t.skip(1);
        lemma_digit_run_bounds(u);
        assert forall|i: int| 0 <= i < digit_run(t) implies is_digit(#[trigger] t[i]) by {
            if i > 0 {
                assert(t[i] == u[i - 1]);
            }
        }
        if digit_run(t) < t.len() {
            assert(t[digit_run(t) as int] == u[digit_run(u) as int]);
        }
    }
}

/// Where the offset starts does not depend on the character found there, as
/// long as it is no digit and no `.`.
proof fn lemma_offset_start_kept(s: Seq<char>, p: int, c: char)
    requires
        offset_start(s) == Some(p),
        0 <= p < s.len(),
        !is_digit(s[p]) && s[p] != '.',
        !is_digit(c) && c != '.',
    ensures
        offset_start(s.update(p, c)) == Some(p),
{
    let t = s.update(p, c);
    if char_at(s, 19, '.') {
        let u = s.skip(20);
        lemma_digit_run_bounds(u);
        let n = digit_run(u);
        assert(p == 20 + n);
        assert(char_at(t, 19, '.'));
        let v = t.skip(20);
        assert forall|i: int| 0 <= i < n implies is_digit(#[trigger] v[i]) by {
            assert(v[i] == u[i]);
        }
        assert(v[n as int] == c);
        lemma_digit_run_is(v, n as int);
    } else {
        assert(p == 19);
        assert(!char_at(t, 19, '.'));
    }
}

/// The sign of a timestamp's offset does not decide whether it is one:
/// `+hh:mm` and `-hh:mm` are matched alike, to the same length.
pub proof fn lemma_offset_sign(s: Seq<char>, p: int)
    requires
        offset_start(s) == Some(p),
        0 <= p < s.len(),
        s[p] == '+' || s[p] == '-',
    ensures
        timestamp_len(s.update(p, '+')) == timestamp_len(s.update(p, '-')),
{
    let a = s.update(p, '+');
    let b = s.update(p, '-');
    lemma_offset_start_kept(s, p, '+');
    lemma_offset_start_kept(s, p, '-');
    assert(p >= 19);
    assert(date_time_prefix(a) == date_time_prefix(s)) by {
        assert(a.take(19) =~= s.take(19));
        assert forall|i: int| 0 <= i < 19 implies a[i] == s[i] by {}
    }
    assert(date_time_prefix(b) == date_time_prefix(s)) by {
        assert forall|i: int| 0 <= i < 19 implies b[i] == s[i] by {}
    }
    assert(char_at(a, p, '+') && char_at(b, p, '-'));
    assert(digits_at(a, p + 1, 2) == digits_at(b, p + 1, 2)) by {
        assert forall|i: int| p + 1 <= i < p + 3 && i < a.len() implies a[i] == b[i] by {}
    }
    assert(digits_at(a, p + 4, 2) == digits_at(b, p + 4, 2)) by {
        assert forall|i: int| p + 4 <= i < p + 6 && i < a.len() implies a[i] == b[i] by {}
    }
    assert(char_at(a, p + 3, ':') == char_at(b, p + 3, ':'));
}

/// When the replacement of `needle` starts with a prefix `q` of characters
/// the placeholder never holds, that prefix came unchanged from the text.
proof fn lemma_replaced_prefix_from_text(t: Seq<char>, needle: Seq<char>, placeholder: Seq<char>, q: Seq<char>)
    requires
        needle.len() > 0,
        placeholder.len() > 0,
        forall|i: int, j: int| 0 <= i < placeholder.len() && 0 <= j < q.len() ==> placeholder[i] != q[j],
        q.len() <= replace_all(t, needle, placeholder).len(),
        replace_all(t, needle, placeholder).take(q.len() as int) == q,
    ensures
        q.len() <= t.len(),
        t.take(q.len() as int) == q,
    decreases t.len(),
{
    let r = replace_all(t, needle, placeholder);
    if q.len() == 0 {
        assert(t.take(0) =~= q);
    } else if t.len() == 0 {
        assert(r.len() == 0);
    } else if starts_with(t, needle) {
        assert(r[0] == placeholder[0]);
        assert(r.take(q.len() as int)[0] == q[0]);
        assert(placeholder[0] != q[0]);
    } else {
        let u = t.skip(1);
        let r1 = replace_all(u, needle, placeholder);
        assert(r == seq![t[0]] + r1);
        let q1 = q.skip(1);
        assert(r1.take(q1.len() as int) =~= q1) by {
            assert forall|k: int| 0 <= k < q1.len() implies r1[k] == q1[k] by {
                assert(r1[k] == r[k + 1]);
                assert(r.take(q.len() as int)[k + 1] == q[k + 1]);
            }
        }
        assert forall|i: int, j: int| 0 <= i < placeholder.len() && 0 <= j < q1.len() implies placeholder[i]
            != q1[j] by {
            assert(q1[j] == q[j + 1]);
        }
        lemma_replaced_prefix_from_text(u, needle, placeholder, q1);
        assert(r.take(q.len() as int)[0] == q[0]);
        assert(t.take(q.len() as int) =~= q) by {
            assert forall|k: int| 0 <= k < q.len() implies t[k] == q[k] by {
                if k > 0 {
                    assert(t[k] == u[k - 1]);
                    assert(u.take(q1.len() as int)[k - 1] == q1[k - 1]);
                }
            }
        }
    }
}

/// Every occurrence is replaced: once a non-empty `needle` has been
/// replaced by a non-empty placeholder sharing no character with it, the
/// text holds no `needle` anywhere.
pub proof fn lemma_replace_leaves_no_needle(s: Seq<char>, needle: Seq<char>, placeholder: Seq<char>)
    requires
        needle.len() > 0,
        placeholder.len() > 0,
        forall|i: int, j: int| 0 <= i < placeholder.len() && 0 <= j < needle.len() ==> placeholder[i] != needle[j],
    ensures
        !crate::text::has_substring(replace_all(s, needle, placeholder), needle),
    decreases s.len(),
{
    let r = replace_all(s, needle, placeholder);
    if s.len() == 0 {
        if crate::text::has_substring(r, needle) {
            let i = choose|i: int| crate::text::occurs_at(r, needle, i);
        }
    } else if starts_with(s, needle) {
        let u = s.skip(needle.len() as int);
        lemma_replace_leaves_no_needle(u, needle, placeholder);
        let r1 = replace_all(u, needle, placeholder);
        assert(r == placeholder + r1);
        if crate::text::has_substring(r, needle) {
            let i = choose|i: int| crate::text::occurs_at(r, needle, i);
            if i < placeholder.len() {
                assert(r[i] == placeholder[i]);
                assert(r.subrange(i, i + needle.len())[0] == needle[0]);
            } else {
                let k = i - placeholder.len();
                assert(r1.subrange(k, k + needle.len()) =~= r.subrange(i, i + needle.len()));
                assert(crate::text::occurs_at(r1, needle, k));
            }
        }
    } else {
        let u = s.skip(1);
        lemma_replace_leaves_no_needle(u, needle, placeholder);
        let r1 = replace_all(u, needle, placeholder);
        assert(r == seq![s[0]] + r1);
        if crate::text::has_substring(r, needle) {
            let i = choose|i: int| crate::text::occurs_at(r, needle, i);
            if i == 0 {
                assert(r.take(needle.len() as int) =~= r.subrange(0, needle.len() as int));
                lemma_replaced_prefix_from_text(s, needle, placeholder, needle);
                assert(starts_with(s, needle));
            } else {
                let k = i - 1;
                assert(r1.subrange(k, k + needle.len()) =~= r.subrange(i, i + needle.len()));
                assert(crate::text::occurs_at(r1, needle, k));
            }
        }
    }
}

/// A text that opens with `needle` has it replaced, and the rest is
/// replaced in turn.
pub proof fn lemma_replace_leading_needle(t: Seq<char>, needle: Seq<char>, placeholder: Seq<char>)
    requires
        needle.len() > 0,
    ensures
        replace_all(needle + t, needle, placeholder) == placeholder + replace_all(t, needle, placeholder),
{
    let s = needle + t;
    assert(s.take(needle.len() as int) =~= needle);
    assert(s.skip(needle.len() as int) =~= t);
}

/// The shapes of a timestamp's end: after the date, time and optional
/// fraction, a `Z` or `z` ends it one character later, and a `+hh:mm` or
/// `-hh:mm` offset six characters later; anything else is no timestamp.
pub proof fn lemma_timestamp_ends(s: Seq<char>, p: int)
    requires
        date_time_prefix(s),
        offset_start(s) == Some(p),
    ensures
        p >= 19,
        char_at(s, p, 'Z') || char_at(s, p, 'z') ==> timestamp_len(s) == Some((p + 1) as nat),
        (char_at(s, p, '+') || char_at(s, p, '-')) && p + 6 <= s.len() && is_digit(s[p + 1]) && is_digit(
            s[p + 2],
        ) && s[p + 3] == ':' && is_digit(s[p + 4]) && is_digit(s[p + 5]) ==> timestamp_len(s) == Some(
            (p + 6) as nat,
        ),
        timestamp_len(s) matches Some(n) ==> 20 <= n <= s.len(),
{
}

/// With no rules, a text is left as it is.
pub proof fn lemma_no_rules(s: Seq<char>)
    ensures
        apply_rules(Seq::empty(), s) == s,
{
}

/// A rule added last runs on what the earlier rules produced.
pub proof fn lemma_rules_run_in_order(rules: Seq<Rule>, rule: Rule, s: Seq<char>)
    ensures
        apply_rules(rules.push(rule), s) == rule_effect(rule, apply_rules(rules, s)),
{
    assert(rules.push(rule).drop_last() =~= rules);
}

/// Replacing an empty needle changes nothing.
pub proof fn lemma_empty_needle(s: Seq<char>, placeholder: Seq<char>)
    ensures
        replace_all(s, Seq::empty(), placeholder) == s,
{
}

/// A text with no `needle` in it is left as it is by replacing `needle`.
pub proof fn lemma_replace_absent(s: Seq<char>, needle: Seq<char>, placeholder: Seq<char>)
    requires
        !crate::text::has_substring(s, needle),
    ensures
        replace_all(s, needle, placeholder) == s,
    decreases s.len(),
{
    if s.len() > 0 && needle.len() > 0 {
        if starts_with(s, needle) {
            assert(crate::text::occurs_at(s, needle, 0)) by {
                assert(s.subrange(0, needle.len() as int) =~= s.take(needle.len() as int));
            }
        }
        assert(!crate::text::has_substring(s.skip(1), needle)) by {
            if crate::text::has_substring(s.skip(1), needle) {
                let i = choose|i: int| crate::text::occurs_at(s.skip(1), needle, i);
                assert(s.subrange(i + 1, i + 1 + needle.len()) =~= s.skip(1).subrange(i, i + needle.len()));
                assert(crate::text::occurs_at(s, needle, i + 1));
            }
        }
        lemma_replace_absent(s.skip(1), needle, placeholder);
        assert(seq![s[0]] + s.skip(1) =~= s);
    }
}

} // verus!
