//! [`Show`]: the `{:?}`-style rendering of a value that failure messages
//! report, and [`Equate`]/[`Order`]: the comparisons the primitive matchers
//! make.
//!
//! Both renderings are stated exactly: numbers in decimal, `bool`s as
//! `true`/`false`, `Option`/`Result` as their variant around the payload, and
//! sequences as `[a, b, c]`. The pretty form (`{:#?}`) puts each element of a
//! compound value on its own line, indented by four spaces, with a trailing
//! comma.

use vstd::prelude::*;

use crate::text::{chars_of, push_all, push_str};

verus! {

/// The character for the decimal digit `d`.
pub open spec fn digit_char(d: nat) -> char {
    (d + 48) as char
}

/// The decimal digits of `n`.
pub open spec fn decimal(n: nat) -> Seq<char>
    decreases n,
{
    if n < 10 {
        seq![digit_char(n)]
    } else {
        decimal(n / 10).push(digit_char(n % 10))
    }
}

/// The decimal form of `n`, with a leading `-` when it is negative.
pub open spec fn signed_decimal(n: int) -> Seq<char> {
    if n < 0 {
        seq!['-'] + decimal((-n) as nat)
    } else {
        decimal(n as nat)
    }
}

/// `s` with four spaces inserted before every line, as a nested value in a
/// pretty rendering is indented. `at_line_start` says whether the first
/// character begins a line.
pub open spec fn pad_from(s: Seq<char>, at_line_start: bool) -> Seq<char>
    decreases s.len(),
{
    if s.len() == 0 {
        Seq::empty()
    } else {
        (if at_line_start {
            "    "@
        } else {
            Seq::empty()
        }) + seq![s[0]] + pad_from(s.skip(1), s[0] == '\n')
    }
}

/// `s` indented by four spaces on every line.
pub open spec fn pad(s: Seq<char>) -> Seq<char> {
    pad_from(s, true)
}

/// The pretty rendering of a one-field variant: `name(\n    field,\n)`.
pub open spec fn pretty_wrapped(name: Seq<char>, field: Seq<char>) -> Seq<char> {
    name + "(\n"@ + pad(field + ",\n"@) + ")"@
}

/// The plain rendering of a one-field variant: `name(field)`.
pub open spec fn plain_wrapped(name: Seq<char>, field: Seq<char>) -> Seq<char> {
    name + "("@ + field + ")"@
}

/// The `{:?}` rendering of a `str`: the text quoted, with the characters that
/// need it escaped.
pub uninterp spec fn str_debug(s: Seq<char>) -> Seq<char>;

/// `std`'s `Debug` for `str`: `s` in double quotes with quotes, backslashes and
/// control characters escaped. Its result is named by [`str_debug`]; no more
/// of it is stated.
#[verifier::external_body]
fn quote_str(s: &str) -> (r: String)
    ensures
        r@ == str_debug(s@),
{
    format!("{:?}", s)
}

/// Appends the decimal digits of `n`.
pub fn push_decimal(out: &mut Vec<char>, n: u64)
    ensures
        final(out)@ == old(out)@ + decimal(n as nat),
    decreases n,
{
    if n >= 10 {
        push_decimal(out, n / 10);
    }
    let d = (n % 10) as u32;
    let c = char_from_digit(d);
    out.push(c);
}

fn char_from_digit(d: u32) -> (c: char)
    requires
        d < 10,
    ensures
        c == digit_char(d as nat),
{
    match d {
        0 => '0',
        1 => '1',
        2 => '2',
        3 => '3',
        4 => '4',
        5 => '5',
        6 => '6',
        7 => '7',
        8 => '8',
        _ => '9',
    }
}

/// Appends the decimal form of `n`, signed.
pub fn push_signed(out: &mut Vec<char>, n: i64)
    ensures
        final(out)@ == old(out)@ + signed_decimal(n as int),
{
    if n < 0 {
        out.push('-');
        let m: u64 = if n == i64::MIN {
            9223372036854775808u64
        } else {
            (-n) as u64
        };
        push_decimal(out, m);
        assert(final(out)@ =~= old(out)@ + signed_decimal(n as int));
    } else {
        push_decimal(out, n as u64);
    }
}

/// Appends `s` indented by four spaces on every line; `at_line_start` says
/// whether the first character begins a line. Returns whether the next
/// character would begin a line.
pub fn push_padded(out: &mut Vec<char>, s: &Vec<char>, at_line_start: bool) -> (next: bool)
    ensures
        final(out)@ == old(out)@ + pad_from(s@, at_line_start),
        next == (if s@.len() == 0 {
            at_line_start
        } else {
            s@.last() == '\n'
        }),
{
    let mut i: usize = 0;
    let mut start = at_line_start;
    assert(s@.skip(0) =~= s@);
    while i < s.len()
        invariant
            i <= s.len(),
            old(out)@ + pad_from(s@, at_line_start) == out@ + pad_from(s@.skip(i as int), start),
            start == (if i == 0 {
                at_line_start
            } else {
                s@[i - 1] == '\n'
            }),
        decreases s.len() - i,
    {
        let ghost rest = s@.skip(i as int);
        let ghost before = out@;
        proof {
            reveal_strlit("    ");
            assert(rest.skip(1) =~= s@.skip(i + 1));
        }
        if start {
            out.push(' ');
            out.push(' ');
            out.push(' ');
            out.push(' ');
        }
        out.push(s[i]);
        proof {
            assert(pad_from(rest, start) == (if start {
                "    "@
            } else {
                Seq::empty()
            }) + seq![rest[0]] + pad_from(rest.skip(1), rest[0] == '\n'));
            assert(out@ =~= before + (if start {
                "    "@
            } else {
                Seq::<char>::empty()
            }) + seq![rest[0]]);
        }
        start = s[i] == '\n';
        i = i + 1;
    }
    assert(s@.skip(s@.len() as int) =~= Seq::<char>::empty());
    start
}

/// The `{:?}`-style rendering of a value, and its pretty (`{:#?}`) form.
pub trait Show {
    /// The plain rendering.
    spec fn shown(&self) -> Seq<char>;

    /// The pretty rendering.
    spec fn shown_pretty(&self) -> Seq<char>;

    /// Appends the plain rendering to `out`.
    fn write_plain(&self, out: &mut Vec<char>)
        ensures
            final(out)@ == old(out)@ + self.shown(),
    ;

    /// Appends the pretty rendering to `out`.
    fn write_pretty(&self, out: &mut Vec<char>)
        ensures
            final(out)@ == old(out)@ + self.shown_pretty(),
    ;

    /// The plain rendering.
    fn show(&self) -> (s: Vec<char>)
        ensures
            s@ == self.shown(),
    {
        let mut out: Vec<char> = Vec::new();
        self.write_plain(&mut out);
        assert(out@ =~= self.shown());
        out
    }

    /// The pretty rendering.
    fn show_pretty(&self) -> (s: Vec<char>)
        ensures
            s@ == self.shown_pretty(),
    {
        let mut out: Vec<char> = Vec::new();
        self.write_pretty(&mut out);
        assert(out@ =~= self.shown_pretty());
        out
    }
}

impl Show for u8 {
    open spec fn shown(&self) -> Seq<char> {
        decimal(*self as nat)
    }

    open spec fn shown_pretty(&self) -> Seq<char> {
        decimal(*self as nat)
    }

    fn write_plain(&self, out: &mut Vec<char>) {
        push_decimal(out, *self as u64);
    }

    fn write_pretty(&self, out: &mut Vec<char>) {
        push_decimal(out, *self as u64);
    }
}

impl Show for u16 {
    open spec fn shown(&self) -> Seq<char> {
        decimal(*self as nat)
    }

    open spec fn shown_pretty(&self) -> Seq<char> {
        decimal(*self as nat)
    }

    fn write_plain(&self, out: &mut Vec<char>) {
        push_decimal(out, *self as u64);
    }

    fn write_pretty(&self, out: &mut Vec<char>) {
        push_decimal(out, *self as u64);
    }
}

impl Show for u32 {
    open spec fn shown(&self) -> Seq<char> {
        decimal(*self as nat)
    }

    open spec fn shown_pretty(&self) -> Seq<char> {
        decimal(*self as nat)
    }

    fn write_plain(&self, out: &mut Vec<char>) {
        push_decimal(out, *self as u64);
    }

    fn write_pretty(&self, out: &mut Vec<char>) {
        push_decimal(out, *self as u64);
    }
}

impl Show for u64 {
    open spec fn shown(&self) -> Seq<char> {
        decimal(*self as nat)
    }

    open spec fn shown_pretty(&self) -> Seq<char> {
        decimal(*self as nat)
    }

    fn write_plain(&self, out: &mut Vec<char>) {
        push_decimal(out, *self);
    }

    fn write_pretty(&self, out: &mut Vec<char>) {
        push_decimal(out, *self);
    }
}

impl Show for usize {
    open spec fn shown(&self) -> Seq<char> {
        decimal(*self as nat)
    }

    open spec fn shown_pretty(&self) -> Seq<char> {
        decimal(*self as nat)
    }

    fn write_plain(&self, out: &mut Vec<char>) {
        push_decimal(out, *self as u64);
    }

    fn write_pretty(&self, out: &mut Vec<char>) {
        push_decimal(out, *self as u64);
    }
}

impl Show for i8 {
    open spec fn shown(&self) -> Seq<char> {
        signed_decimal(*self as int)
    }

    open spec fn shown_pretty(&self) -> Seq<char> {
        signed_decimal(*self as int)
    }

    fn write_plain(&self, out: &mut Vec<char>) {
        push_signed(out, *self as i64);
    }

    fn write_pretty(&self, out: &mut Vec<char>) {
        push_signed(out, *self as i64);
    }
}

impl Show for i16 {
    open spec fn shown(&self) -> Seq<char> {
        signed_decimal(*self as int)
    }

    open spec fn shown_pretty(&self) -> Seq<char> {
        signed_decimal(*self as int)
    }

    fn write_plain(&self, out: &mut Vec<char>) {
        push_signed(out, *self as i64);
    }

    fn write_pretty(&self, out: &mut Vec<char>) {
        push_signed(out, *self as i64);
    }
}

impl Show for i32 {
    open spec fn shown(&self) -> Seq<char> {
        signed_decimal(*self as int)
    }

    open spec fn shown_pretty(&self) -> Seq<char> {
        signed_decimal(*self as int)
    }

    fn write_plain(&self, out: &mut Vec<char>) {
        push_signed(out, *self as i64);
    }

    fn write_pretty(&self, out: &mut Vec<char>) {
        push_signed(out, *self as i64);
    }
}

impl Show for i64 {
    open spec fn shown(&self) -> Seq<char> {
        signed_decimal(*self as int)
    }

    open spec fn shown_pretty(&self) -> Seq<char> {
        signed_decimal(*self as int)
    }

    fn write_plain(&self, out: &mut Vec<char>) {
        push_signed(out, *self);
    }

    fn write_pretty(&self, out: &mut Vec<char>) {
        push_signed(out, *self);
    }
}

impl Show for isize {
    open spec fn shown(&self) -> Seq<char> {
        signed_decimal(*self as int)
    }

    open spec fn shown_pretty(&self) -> Seq<char> {
        signed_decimal(*self as int)
    }

    fn write_plain(&self, out: &mut Vec<char>) {
        push_signed(out, *self as i64);
    }

    fn write_pretty(&self, out: &mut Vec<char>) {
        push_signed(out, *self as i64);
    }
}

impl Show for bool {
    open spec fn shown(&self) -> Seq<char> {
        if *self {
            "true"@
        } else {
            "false"@
        }
    }

    open spec fn shown_pretty(&self) -> Seq<char> {
        self.shown()
    }

    fn write_plain(&self, out: &mut Vec<char>) {
        if *self {
            push_str(out, "true");
        } else {
            push_str(out, "false");
        }
    }

    fn write_pretty(&self, out: &mut Vec<char>) {
        self.write_plain(out);
    }
}

impl Show for str {
    open spec fn shown(&self) -> Seq<char> {
        str_debug(self@)
    }

    open spec fn shown_pretty(&self) -> Seq<char> {
        str_debug(self@)
    }

    fn write_plain(&self, out: &mut Vec<char>) {
        let quoted = quote_str(self);
        push_str(out, quoted.as_str());
    }

    fn write_pretty(&self, out: &mut Vec<char>) {
        self.write_plain(out);
    }
}

impl Show for String {
    open spec fn shown(&self) -> Seq<char> {
        str_debug(self@)
    }

    open spec fn shown_pretty(&self) -> Seq<char> {
        str_debug(self@)
    }

    fn write_plain(&self, out: &mut Vec<char>) {
        self.as_str().write_plain(out);
    }

    fn write_pretty(&self, out: &mut Vec<char>) {
        self.as_str().write_plain(out);
    }
}

impl<'a, T: Show + ?Sized> Show for &'a T {
    open spec fn shown(&self) -> Seq<char> {
        (**self).shown()
    }

    open spec fn shown_pretty(&self) -> Seq<char> {
        (**self).shown_pretty()
    }

    fn write_plain(&self, out: &mut Vec<char>) {
        (**self).write_plain(out);
    }

    fn write_pretty(&self, out: &mut Vec<char>) {
        (**self).write_pretty(out);
    }
}

/// Appends `name(\n` + the padded `field,\n` + `)`, the pretty rendering of a
/// one-field variant, where `field` is written by `inner`.
fn push_pretty_wrapped(out: &mut Vec<char>, name: &str, field: &Vec<char>)
    ensures
        final(out)@ == old(out)@ + pretty_wrapped(name@, field@),
{
    push_str(out, name);
    push_str(out, "(\n");
    let mut body = field.clone();
    body.push(',');
    body.push('\n');
    proof {
        reveal_strlit(",\n");
        assert(body@ =~= field@ + ",\n"@);
    }
    push_padded(out, &body, true);
    push_str(out, ")");
    assert(final(out)@ =~= old(out)@ + pretty_wrapped(name@, field@));
}

/// Appends `name(field)`.
fn push_plain_wrapped(out: &mut Vec<char>, name: &str, field: &Vec<char>)
    ensures
        final(out)@ == old(out)@ + plain_wrapped(name@, field@),
{
    push_str(out, name);
    push_str(out, "(");
    push_all(out, field);
    push_str(out, ")");
    assert(final(out)@ =~= old(out)@ + plain_wrapped(name@, field@));
}

impl<T: Show> Show for Option<T> {
    open spec fn shown(&self) -> Seq<char> {
        match self {
            None => "None"@,
            Some(v) => plain_wrapped("Some"@, v.shown()),
        }
    }

    open spec fn shown_pretty(&self) -> Seq<char> {
        match self {
            None => "None"@,
            Some(v) => pretty_wrapped("Some"@, v.shown_pretty()),
        }
    }

    fn write_plain(&self, out: &mut Vec<char>) {
        match self {
            None => push_str(out, "None"),
            Some(v) => {
                let inner = v.show();
                push_plain_wrapped(out, "Some", &inner);
            },
        }
    }

    fn write_pretty(&self, out: &mut Vec<char>) {
        match self {
            None => push_str(out, "None"),
            Some(v) => {
                let inner = v.show_pretty();
                push_pretty_wrapped(out, "Some", &inner);
            },
        }
    }
}

impl<T: Show, E: Show> Show for Result<T, E> {
    open spec fn shown(&self) -> Seq<char> {
        match self {
            Ok(v) => plain_wrapped("Ok"@, v.shown()),
            Err(e) => plain_wrapped("Err"@, e.shown()),
        }
    }

    open spec fn shown_pretty(&self) -> Seq<char> {
        match self {
            Ok(v) => pretty_wrapped("Ok"@, v.shown_pretty()),
            Err(e) => pretty_wrapped("Err"@, e.shown_pretty()),
        }
    }

    fn write_plain(&self, out: &mut Vec<char>) {
        match self {
            Ok(v) => {
                let inner = v.show();
                push_plain_wrapped(out, "Ok", &inner);
            },
            Err(e) => {
                let inner = e.show();
                push_plain_wrapped(out, "Err", &inner);
            },
        }
    }

    fn write_pretty(&self, out: &mut Vec<char>) {
        match self {
            Ok(v) => {
                let inner = v.show_pretty();
                push_pretty_wrapped(out, "Ok", &inner);
            },
            Err(e) => {
                let inner = e.show_pretty();
                push_pretty_wrapped(out, "Err", &inner);
            },
        }
    }
}

/// The items' plain renderings joined by `, `.
pub open spec fn list_body<T: Show>(items: Seq<T>) -> Seq<char>
    decreases items.len(),
{
    if items.len() == 0 {
        Seq::empty()
    } else if items.len() == 1 {
        items[0].shown()
    } else {
        list_body(items.drop_last()) + ", "@ + items.last().shown()
    }
}

/// Each item's pretty rendering followed by `,\n`, padded.
pub open spec fn pretty_list_body<T: Show>(items: Seq<T>) -> Seq<char>
    decreases items.len(),
{
    if items.len() == 0 {
        Seq::empty()
    } else {
        pretty_list_body(items.drop_last()) + pad(items.last().shown_pretty() + ",\n"@)
    }
}

/// `[a, b, c]`.
pub open spec fn shown_list<T: Show>(items: Seq<T>) -> Seq<char> {
    "["@ + list_body(items) + "]"@
}

/// `[` then, if there are items, a newline and one padded `item,` line per
/// item, then `]`.
pub open spec fn shown_list_pretty<T: Show>(items: Seq<T>) -> Seq<char> {
    if items.len() == 0 {
        "[]"@
    } else {
        "[\n"@ + pretty_list_body(items) + "]"@
    }
}

/// Appends the plain rendering of a list of items.
pub fn push_list<T: Show>(out: &mut Vec<char>, items: &[T])
    ensures
        final(out)@ == old(out)@ + shown_list(items@),
{
    proof {
        reveal_strlit("[");
        reveal_strlit("]");
        reveal_strlit(", ");
    }
    out.push('[');
    let mut i: usize = 0;
    while i < items.len()
        invariant
            i <= items@.len(),
            out@ == old(out)@ + "["@ + list_body(items@.take(i as int)),
        decreases items.len() - i,
    {
        let ghost before = out@;
        if i > 0 {
            push_str(out, ", ");
        }
        items[i].write_plain(out);
        proof {
            reveal_strlit(", ");
            let t = items@.take(i + 1);
            assert(t.drop_last() =~= items@.take(i as int));
            if i == 0 {
                assert(list_body(t) == t[0].shown());
            }
        }
        i = i + 1;
    }
    out.push(']');
    assert(items@.take(items@.len() as int) =~= items@);
    assert(final(out)@ =~= old(out)@ + shown_list(items@));
}

/// Appends the pretty rendering of a list of items.
pub fn push_list_pretty<T: Show>(out: &mut Vec<char>, items: &[T])
    ensures
        final(out)@ == old(out)@ + shown_list_pretty(items@),
{
    proof {
        reveal_strlit("[");
        reveal_strlit("]");
        reveal_strlit("[]");
        reveal_strlit("[\n");
        reveal_strlit(",\n");
    }
    if items.len() == 0 {
        push_str(out, "[]");
        return;
    }
    push_str(out, "[\n");
    let mut i: usize = 0;
    while i < items.len()
        invariant
            i <= items@.len(),
            out@ == old(out)@ + "[\n"@ + pretty_list_body(items@.take(i as int)),
        decreases items.len() - i,
    {
        let mut entry = items[i].show_pretty();
        entry.push(',');
        entry.push('\n');
        proof {
            reveal_strlit(",\n");
            assert(entry@ =~= items@[i as int].shown_pretty() + ",\n"@);
        }
        push_padded(out, &entry, true);
        proof {
            let t = items@.take(i + 1);
            assert(t.drop_last() =~= items@.take(i as int));
        }
        i = i + 1;
    }
    push_str(out, "]");
    assert(items@.take(items@.len() as int) =~= items@);
    assert(final(out)@ =~= old(out)@ + shown_list_pretty(items@));
}

impl<T: Show> Show for [T] {
    open spec fn shown(&self) -> Seq<char> {
        shown_list(self@)
    }

    open spec fn shown_pretty(&self) -> Seq<char> {
        shown_list_pretty(self@)
    }

    fn write_plain(&self, out: &mut Vec<char>) {
        push_list(out, self);
    }

    fn write_pretty(&self, out: &mut Vec<char>) {
        push_list_pretty(out, self);
    }
}

impl<T: Show> Show for Vec<T> {
    open spec fn shown(&self) -> Seq<char> {
        shown_list(self@)
    }

    open spec fn shown_pretty(&self) -> Seq<char> {
        shown_list_pretty(self@)
    }

    fn write_plain(&self, out: &mut Vec<char>) {
        push_list(out, self.as_slice());
    }

    fn write_pretty(&self, out: &mut Vec<char>) {
        push_list_pretty(out, self.as_slice());
    }
}

} // verus!
