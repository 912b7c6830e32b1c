//! Inline snapshots: a snapshot literal written in the test source itself.
//!
//! The literal is normalized before it is compared ([`normalize_inline_literal`]),
//! so it can be indented along with the code around it. In update mode a
//! mismatch is not a failure but a pending patch: a small text naming the
//! call's location and the new value ([`patch_body`]), which the accept step
//! later reads back ([`parse_pending_patch`]) and writes into the source.

use vstd::prelude::*;

use crate::show::{decimal, digit_char, push_decimal};
use crate::text::{chars_of, first_index, join, lemma_first_index, lemma_first_index_is, lemma_first_index_none, lines, push_all, push_str, split_lines, starts_with, string_of};

verus! {

/// Whether the value is compared with the stored snapshot, or written in
/// place of it.
#[derive(PartialEq, Eq, Structural, Clone, Copy, Debug)]
pub enum SnapshotMode {
    /// Compare, and fail on a difference.
    Compare,
    /// Record the value as the new snapshot.
    Update,
}

impl SnapshotMode {
    /// The mode the `UPDATE_SNAPSHOTS` variable selects, given its value:
    /// set and non-empty means update.
    pub fn from_env_value(value: Option<&str>) -> (m: SnapshotMode)
        ensures
            m == match value {
                Some(v) => if v@.len() > 0 {
                    SnapshotMode::Update
                } else {
                    SnapshotMode::Compare
                },
                None => SnapshotMode::Compare,
            },
    {
        match value {
            Some(v) => {
                if v.unicode_len() > 0 {
                    SnapshotMode::Update
                } else {
                    SnapshotMode::Compare
                }
            },
            None => SnapshotMode::Compare,
        }
    }
}

/// Where an inline snapshot call is: file, line and column.
#[derive(Debug)]
pub struct InlineLocation {
    pub file: String,
    pub line: u32,
    pub column: u32,
}

/// An inline snapshot that did not match, with both sides after
/// normalization.
#[derive(Debug)]
pub struct InlineSnapshotFailure {
    pub expected: String,
    pub actual: String,
}

impl InlineSnapshotFailure {
    /// `inline snapshot does not match`.
    pub fn to_string(&self) -> (s: String)
        ensures
            s@ == "inline snapshot does not match"@,
    {
        String::from_str("inline snapshot does not match")
    }
}

/// Whether `c` is whitespace, as `char::is_whitespace` defines it (the
/// Unicode `White_Space` property).
pub open spec fn is_ws(c: char) -> bool {
    ||| c == '\t'
    ||| c == '\n'
    ||| c == '\u{0B}'
    ||| c == '\u{0C}'
    ||| c == '\r'
    ||| c == ' '
    ||| c == '\u{85}'
    ||| c == '\u{A0}'
    ||| c == '\u{1680}'
    ||| ('\u{2000}' <= c <= '\u{200A}')
    ||| c == '\u{2028}'
    ||| c == '\u{2029}'
    ||| c == '\u{202F}'
    ||| c == '\u{205F}'
    ||| c == '\u{3000}'
}

/// Whether `c` is whitespace.
pub fn is_ws_char(c: char) -> (b: bool)
    ensures
        b == is_ws(c),
{
    c == '\t' || c == '\n' || c == '\u{0B}' || c == '\u{0C}' || c == '\r' || c == ' ' || c
        == '\u{85}' || c == '\u{A0}' || c == '\u{1680}' || ('\u{2000}' <= c && c <= '\u{200A}')
        || c == '\u{2028}' || c == '\u{2029}' || c == '\u{202F}' || c == '\u{205F}' || c
        == '\u{3000}'
}

/// The number of whitespace characters that start `l`.
pub open spec fn lead(l: Seq<char>) -> nat
    decreases l.len(),
{
    if l.len() > 0 && is_ws(l[0]) {
        1 + lead(l.skip(1))
    } else {
        0
    }
}

proof fn lemma_lead_bound(l: Seq<char>)
    ensures
        lead(l) <= l.len(),
    decreases l.len(),
{
    if l.len() > 0 && is_ws(l[0]) {
        lemma_lead_bound(l.skip(1));
    }
}

/// Whether `l` is all whitespace.
pub open spec fn blank(l: Seq<char>) -> bool {
    lead(l) == l.len()
}

/// The least indentation over the lines that are not blank, if any is not.
pub open spec fn min_indent(ls: Seq<Seq<char>>) -> Option<nat>
    decreases ls.len(),
{
    if ls.len() == 0 {
        None
    } else {
        let rest = min_indent(ls.drop_last());
        let l = ls.last();
        if blank(l) {
            rest
        } else {
            match rest {
                None => Some(lead(l)),
                Some(m) => Some(if m <= lead(l) {
                    m
                } else {
                    lead(l)
                }),
            }
        }
    }
}

/// `s` without its trailing whitespace.
pub open spec fn trim_end(s: Seq<char>) -> Seq<char>
    decreases s.len(),
{
    if s.len() > 0 && is_ws(s.last()) {
        trim_end(s.drop_last())
    } else {
        s
    }
}

/// `raw` without one leading line break (`\r\n` or `\n`).
pub open spec fn drop_leading_newline(raw: Seq<char>) -> Seq<char> {
    if starts_with(raw, "\r\n"@) {
        raw.skip(2)
    } else if starts_with(raw, "\n"@) {
        raw.skip(1)
    } else {
        raw
    }
}

/// A line with `indent` characters removed from its front; a line shorter
/// than that becomes empty.
pub open spec fn dedent(l: Seq<char>, indent: nat) -> Seq<char> {
    if l.len() >= indent {
        l.skip(indent as int)
    } else {
        Seq::empty()
    }
}

/// Whether `raw` opens with a line break (`\r\n` or `\n`).
pub open spec fn has_leading_newline(raw: Seq<char>) -> bool {
    starts_with(raw, "\r\n"@) || starts_with(raw, "\n"@)
}

/// The value an inline snapshot literal stands for. A single-line literal
/// with no leading line break is only trimmed of trailing whitespace.
/// Otherwise one leading line break is dropped, the indentation common to the
/// non-blank lines removed, the lines joined by `\n`, and trailing whitespace
/// trimmed.
pub open spec fn normalized(raw: Seq<char>) -> Seq<char> {
    if !has_leading_newline(raw) && lines(raw).len() <= 1 {
        trim_end(raw)
    } else {
        dedented_block(raw)
    }
}

/// A literal's value with its leading line break dropped, its common
/// indentation removed, and its trailing whitespace trimmed.
pub open spec fn dedented_block(raw: Seq<char>) -> Seq<char> {
    let ls = lines(drop_leading_newline(raw));
    let indent: nat = match min_indent(ls) {
        Some(m) => m,
        None => 0,
    };
    trim_end(join(ls.map_values(|l: Seq<char>| dedent(l, indent)), "\n"@))
}

/// The number of whitespace characters that start `l`.
pub fn lead_of(l: &Vec<char>) -> (n: usize)
    ensures
        n == lead(l@),
{
    let mut k: usize = 0;
    assert(l@.skip(0) =~= l@);
    while k < l.len() && is_ws_char(l[k])
        invariant
            k <= l@.len(),
            lead(l@) == k + lead(l@.skip(k as int)),
        decreases l.len() - k,
    {
        proof {
            assert(l@.skip(k as int).skip(1) =~= l@.skip(k + 1));
            assert(l@.skip(k as int)[0] == l@[k as int]);
        }
        k = k + 1;
    }
    proof {
        if k < l@.len() {
            assert(l@.skip(k as int)[0] == l@[k as int]);
        }
    }
    k
}

/// The characters of `l` from `from` on.
pub fn tail_from(l: &Vec<char>, from: usize) -> (out: Vec<char>)
    requires
        from <= l@.len(),
    ensures
        out@ == l@.skip(from as int),
{
    let mut out: Vec<char> = Vec::new();
    let mut i: usize = from;
    while i < l.len()
        invariant
            from <= i <= l@.len(),
            out@ == l@.subrange(from as int, i as int),
        decreases l.len() - i,
    {
        out.push(l[i]);
        assert(out@ =~= l@.subrange(from as int, i + 1));
        i = i + 1;
    }
    assert(out@ =~= l@.skip(from as int));
    out
}

/// Normalizes an inline snapshot literal the way the comparison sees it.
pub fn normalize_inline_literal(raw: &str) -> (out: String)
    ensures
        out@ == normalized(raw@),
{
    let all = chars_of(raw);
    proof {
        reveal_strlit("\r\n");
        reveal_strlit("\n");
    }
    let leading = (all.len() >= 2 && all[0] == '\r' && all[1] == '\n') || (all.len() >= 1 && all[0] == '\n');
    let body = if all.len() >= 2 && all[0] == '\r' && all[1] == '\n' {
        tail_from(&all, 2)
    } else if all.len() >= 1 && all[0] == '\n' {
        tail_from(&all, 1)
    } else {
        all.clone()
    };
    proof {
        if all@.len() >= 2 && all@[0] == '\r' && all@[1] == '\n' {
            assert(all@.take(2) =~= "\r\n"@);
        } else {
            if all@.len() >= 2 {
                assert(all@.take(2)[0] == all@[0]);
                assert(all@.take(2)[1] == all@[1]);
            }
            if all@.len() >= 1 && all@[0] == '\n' {
                assert(all@.take(1) =~= "\n"@);
            } else if all@.len() >= 1 {
                assert(all@.take(1)[0] == all@[0]);
            }
        }
    }
    assert(body@ == drop_leading_newline(raw@));
    assert(leading == has_leading_newline(raw@));
    let ls = split_lines(&body);
    let ghost lv = lines(body@);
    if !leading && ls.len() <= 1 {
        // A bare single line keeps its leading whitespace.
        assert(body@ == raw@);
        let mut end: usize = all.len();
        assert(all@.take(end as int) =~= all@);
        while end > 0 && is_ws_char(all[end - 1])
            invariant
                end <= all@.len(),
                trim_end(all@) == trim_end(all@.take(end as int)),
            decreases end,
        {
            proof {
                assert(all@.take(end as int).drop_last() =~= all@.take(end - 1));
            }
            end = end - 1;
        }
        let ghost kept = all@.take(end as int);
        proof {
            if end > 0 {
                assert(kept.last() == all@[end - 1]);
            }
            assert(trim_end(kept) == kept);
        }
        let mut out: Vec<char> = Vec::new();
        let mut m: usize = 0;
        while m < end
            invariant
                m <= end <= all@.len(),
                out@ == all@.take(m as int),
            decreases end - m,
        {
            out.push(all[m]);
            assert(out@ =~= all@.take(m + 1));
            m = m + 1;
        }
        assert(out@ =~= kept);
        return string_of(&out);
    }
    assert(Seq::new(ls@.len(), |i: int| ls@[i]@) =~= lv);
    // The common indentation.
    let mut found = false;
    let mut indent: usize = 0;
    let mut i: usize = 0;
    while i < ls.len()
        invariant
            i <= ls@.len(),
            ls@.len() == lv.len(),
            forall|j: int| 0 <= j < ls@.len() ==> #[trigger] ls@[j]@ == lv[j],
            match min_indent(lv.take(i as int)) {
                Some(m) => found && indent == m,
                None => !found,
            },
            !found ==> indent == 0,
        decreases ls.len() - i,
    {
        let n = lead_of(&ls[i]);
        proof {
            lemma_lead_bound(ls@[i as int]@);
            let t = lv.take(i + 1);
            assert(t.drop_last() =~= lv.take(i as int));
            assert(t.last() == ls@[i as int]@);
        }
        if n < ls[i].len() {
            if !found || n < indent {
                indent = n;
            }
            found = true;
        }
        i = i + 1;
    }
    assert(lv.take(ls@.len() as int) =~= lv);
    let ghost ind: nat = match min_indent(lv) {
        Some(m) => m,
        None => 0,
    };
    assert(indent == ind);
    // The dedented lines, joined.
    let ghost parts = lv.map_values(|l: Seq<char>| dedent(l, ind));
    let mut joined: Vec<char> = Vec::new();
    let mut k: usize = 0;
    proof {
        reveal_strlit("\n");
        assert(parts.take(0) =~= Seq::<Seq<char>>::empty());
    }
    while k < ls.len()
        invariant
            k <= ls@.len(),
            ls@.len() == lv.len(),
            forall|j: int| 0 <= j < ls@.len() ==> #[trigger] ls@[j]@ == lv[j],
            indent == ind,
            parts == lv.map_values(|l: Seq<char>| dedent(l, ind)),
            joined@ == join(parts.take(k as int), "\n"@),
        decreases ls.len() - k,
    {
        let ghost before = joined@;
        if k > 0 {
            joined.push('\n');
        }
        let line = &ls[k];
        if line.len() >= indent {
            let rest = tail_from(line, indent);
            push_all(&mut joined, &rest);
        }
        proof {
            reveal_strlit("\n");
            let t = parts.take(k + 1);
            assert(t.drop_last() =~= parts.take(k as int));
            assert(t.last() == dedent(lv[k as int], ind));
            if k == 0 {
                assert(joined@ =~= before + t.last());
            } else {
                assert(joined@ =~= before + "\n"@ + t.last());
            }
        }
        k = k + 1;
    }
    assert(parts.take(ls@.len() as int) =~= parts);
    // Trailing whitespace trimmed.
    let mut end: usize = joined.len();
    assert(joined@.take(end as int) =~= joined@);
    while end > 0 && is_ws_char(joined[end - 1])
        invariant
            end <= joined@.len(),
            trim_end(joined@) == trim_end(joined@.take(end as int)),
        decreases end,
    {
        proof {
            assert(joined@.take(end as int).drop_last() =~= joined@.take(end - 1));
        }
        end = end - 1;
    }
    let mut out: Vec<char> = Vec::new();
    let mut m: usize = 0;
    while m < end
        invariant
            m <= end <= joined@.len(),
            out@ == joined@.take(m as int),
        decreases end - m,
    {
        out.push(joined[m]);
        assert(out@ =~= joined@.take(m + 1));
        m = m + 1;
    }
    proof {
        let t = joined@.take(end as int);
        assert(out@ =~= t);
        if end > 0 {
            assert(t.last() == joined@[end - 1]);
        }
        assert(trim_end(t) == t);
    }
    string_of(&out)
}

/// `actual` without one trailing line break (`\r\n` or `\n`).
pub open spec fn drop_trailing_newline(actual: Seq<char>) -> Seq<char> {
    if crate::text::ends_with(actual, "\r\n"@) {
        actual.drop_last().drop_last()
    } else if crate::text::ends_with(actual, "\n"@) {
        actual.drop_last()
    } else {
        actual
    }
}

/// The text of a pending patch: the file on the first line, `line:column`
/// on the second, and the new value after them.
pub open spec fn patch_text(file: Seq<char>, line: u32, column: u32, value: Seq<char>) -> Seq<char> {
    file + "\n"@ + decimal(line as nat) + ":"@ + decimal(column as nat) + "\n"@ + value
}

/// The pending patch that records `value` for the call at `location`.
pub fn patch_body(location: &InlineLocation, value: &str) -> (body: String)
    ensures
        body@ == patch_text(location.file@, location.line, location.column, value@),
{
    let mut out = chars_of(location.file.as_str());
    out.push('\n');
    push_decimal(&mut out, location.line as u64);
    out.push(':');
    push_decimal(&mut out, location.column as u64);
    out.push('\n');
    push_str(&mut out, value);
    proof {
        reveal_strlit("\n");
        reveal_strlit(":");
    }
    assert(out@ =~= patch_text(location.file@, location.line, location.column, value@));
    string_of(&out)
}

/// Compares a rendered value with an inline snapshot literal.
///
/// The literal is normalized, and one trailing line break is dropped from
/// `actual` (normalization never leaves one). Equal: `Ok(None)`. Different in
/// compare mode: the failure, with both sides. Different in update mode:
/// `Ok(Some(body))`, the pending patch to record for the call at `location`.
pub fn assert_inline_snapshot(actual: &str, raw: &str, location: &InlineLocation, mode: SnapshotMode) -> (r: Result<Option<String>, InlineSnapshotFailure>)
    ensures
        ({
            let a = drop_trailing_newline(actual@);
            let e = normalized(raw@);
            if a == e {
                r matches Ok(None)
            } else {
                match mode {
                    SnapshotMode::Compare => r matches Err(f) && f.expected@ == e && f.actual@ == a,
                    SnapshotMode::Update => r matches Ok(Some(body)) && body@ == patch_text(
                        location.file@,
                        location.line,
                        location.column,
                        a,
                    ),
                }
            }
        }),
{
    let expected = normalize_inline_literal(raw);
    let all = chars_of(actual);
    let n = all.len();
    proof {
        reveal_strlit("\r\n");
        reveal_strlit("\n");
    }
    let cut: usize = if n >= 2 && all[n - 2] == '\r' && all[n - 1] == '\n' {
        2
    } else if n >= 1 && all[n - 1] == '\n' {
        1
    } else {
        0
    };
    let mut trimmed: Vec<char> = Vec::new();
    let mut i: usize = 0;
    while i < n - cut
        invariant
            i <= n - cut,
            n == all@.len(),
            cut <= n,
            trimmed@ == all@.take(i as int),
        decreases n - cut - i,
    {
        trimmed.push(all[i]);
        assert(trimmed@ =~= all@.take(i + 1));
        i = i + 1;
    }
    proof {
        let s = all@;
        if n >= 2 && s[n - 2] == '\r' && s[n - 1] == '\n' {
            assert(s.skip(n - 2) =~= "\r\n"@);
            assert(s.take(n - 2) =~= s.drop_last().drop_last());
        } else {
            if n >= 2 {
                assert(s.skip(n - 2)[0] == s[n - 2]);
                assert(s.skip(n - 2)[1] == s[n - 1]);
            }
            if n >= 1 && s[n - 1] == '\n' {
                assert(s.skip(n - 1) =~= "\n"@);
                assert(s.take(n - 1) =~= s.drop_last());
            } else {
                if n >= 1 {
                    assert(s.skip(n - 1)[0] == s[n - 1]);
                }
                assert(s.take(n as int) =~= s);
            }
        }
    }
    assert(trimmed@ == drop_trailing_newline(actual@));
    let actual_text = string_of(&trimmed);
    if actual_text == expected {
        return Ok(None);
    }
    match mode {
        SnapshotMode::Compare => Err(InlineSnapshotFailure { expected, actual: actual_text }),
        SnapshotMode::Update => Ok(Some(patch_body(location, actual_text.as_str()))),
    }
}

/// Why a pending patch could not be read.
#[derive(PartialEq, Eq, Structural, Clone, Copy, Debug)]
pub enum PatchError {
    /// There is no second line.
    MissingPosition,
    /// The second line is not `<line>:<column>`.
    BadPosition,
    /// The line number is not a `u32`.
    BadLine,
    /// The column number is not a `u32`.
    BadColumn,
}

impl PatchError {
    /// The message that explains the error.
    pub fn message(self) -> (s: &'static str)
        ensures
            s@ == patch_error_message(self),
    {
        match self {
            PatchError::MissingPosition => "patch file is missing its position line",
            PatchError::BadPosition => "position line is not `<line>:<column>`",
            PatchError::BadLine => "patch line number is not an integer",
            PatchError::BadColumn => "patch column number is not an integer",
        }
    }
}

/// The message of a patch error.
pub open spec fn patch_error_message(e: PatchError) -> Seq<char> {
    match e {
        PatchError::MissingPosition => "patch file is missing its position line"@,
        PatchError::BadPosition => "position line is not `<line>:<column>`"@,
        PatchError::BadLine => "patch line number is not an integer"@,
        PatchError::BadColumn => "patch column number is not an integer"@,
    }
}

/// The value of a run of decimal digits.
pub open spec fn digits_value(d: Seq<char>) -> nat
    decreases d.len(),
{
    if d.len() == 0 {
        0
    } else {
        10 * digits_value(d.drop_last()) + ((d.last() as int - '0' as int) as nat)
    }
}

/// Whether every character of `d` is a decimal digit.
pub open spec fn all_digits(d: Seq<char>) -> bool {
    forall|i: int| 0 <= i < d.len() ==> '0' <= #[trigger] d[i] <= '9'
}

/// What `u32::from_str` reads from `s`: an optional `+`, then one or more
/// decimal digits whose value fits in a `u32`.
pub open spec fn u32_of(s: Seq<char>) -> Option<u32> {
    let d = if s.len() > 0 && s[0] == '+' {
        s.skip(1)
    } else {
        s
    };
    if d.len() > 0 && all_digits(d) && digits_value(d) <= u32::MAX {
        Some(digits_value(d) as u32)
    } else {
        None
    }
}

/// Reads a `u32` the way `u32::from_str` does.
pub fn parse_u32(s: &Vec<char>) -> (r: Option<u32>)
    ensures
        r == u32_of(s@),
{
    let start: usize = if s.len() > 0 && s[0] == '+' {
        1
    } else {
        0
    };
    let ghost d = s@.skip(start as int);
    assert(d == if s@.len() > 0 && s@[0] == '+' {
        s@.skip(1)
    } else {
        s@
    }) by {
        if start == 0 {
            assert(s@.skip(0) =~= s@);
        }
    }
    if start == s.len() {
        return None;
    }
    let mut value: u64 = 0;
    let mut i: usize = start;
    while i < s.len()
        invariant
            start <= i <= s@.len(),
            start < s@.len(),
            d == s@.skip(start as int),
            d == (if s@.len() > 0 && s@[0] == '+' {
                s@.skip(1)
            } else {
                s@
            }),
            all_digits(d.take(i - start)),
            value == digits_value(d.take(i - start)),
            value <= u32::MAX,
        decreases s.len() - i,
    {
        let c = s[i];
        if !('0' <= c && c <= '9') {
            assert(d[i - start] == c);
            return None;
        }
        let digit: u64 = (c as u32 - '0' as u32) as u64;
        let next = value * 10 + digit;
        proof {
            let t = d.take(i - start + 1);
            assert(t.drop_last() =~= d.take(i - start));
            assert(t.last() == c);
        }
        if next > 4294967295 {
            proof {
                lemma_digits_value_grows(d, i - start + 1);
            }
            return None;
        }
        value = next;
        i = i + 1;
    }
    assert(d.take(s@.len() - start) =~= d);
    Some(value as u32)
}

proof fn lemma_digits_value_grows(d: Seq<char>, k: int)
    requires
        0 <= k <= d.len(),
        all_digits(d.take(k)),
    ensures
        all_digits(d) ==> digits_value(d.take(k)) <= digits_value(d),
    decreases d.len() - k,
{
    if k < d.len() && all_digits(d) {
        lemma_digits_value_grows(d, k + 1);
        let t = d.take(k + 1);
        assert(t.drop_last() =~= d.take(k));
    }
    if k == d.len() {
        assert(d.take(k) =~= d);
    }
}

/// What a pending patch body reads as.
pub open spec fn patch_parse(body: Seq<char>) -> Result<(Seq<char>, u32, u32, Seq<char>), PatchError> {
    let i = first_index(body, '\n');
    if i < 0 {
        Err(PatchError::MissingPosition)
    } else {
        let file = body.take(i);
        let rest = body.skip(i + 1);
        let j = first_index(rest, '\n');
        let position = if j < 0 {
            rest
        } else {
            rest.take(j)
        };
        let value = if j < 0 {
            Seq::empty()
        } else {
            rest.skip(j + 1)
        };
        let k = first_index(position, ':');
        if k < 0 {
            Err(PatchError::BadPosition)
        } else {
            match (u32_of(position.take(k)), u32_of(position.skip(k + 1))) {
                (None, _) => Err(PatchError::BadLine),
                (Some(_), None) => Err(PatchError::BadColumn),
                (Some(line), Some(column)) => Ok((file, line, column, value)),
            }
        }
    }
}

/// The first position of `c` in `s`, or `None`.
fn find_char(s: &Vec<char>, c: char) -> (r: Option<usize>)
    ensures
        match r {
            Some(i) => first_index(s@, c) == i && i < s.len(),
            None => first_index(s@, c) < 0,
        },
{
    proof {
        lemma_first_index(s@, c);
    }
    let mut i: usize = 0;
    while i < s.len()
        invariant
            i <= s@.len(),
            forall|j: int| 0 <= j < i ==> s@[j] != c,
        decreases s.len() - i,
    {
        if s[i] == c {
            proof {
                lemma_first_index_is(s@, c, i as int);
            }
            return Some(i);
        }
        i = i + 1;
    }
    proof {
        lemma_first_index_none(s@, c);
    }
    None
}

/// The characters of `s` from `from` up to `to`.
fn slice_of(s: &Vec<char>, from: usize, to: usize) -> (out: Vec<char>)
    requires
        from <= to <= s@.len(),
    ensures
        out@ == s@.subrange(from as int, to as int),
{
    let mut out: Vec<char> = Vec::new();
    let mut i: usize = from;
    while i < to
        invariant
            from <= i <= to <= s@.len(),
            out@ == s@.subrange(from as int, i as int),
        decreases to - i,
    {
        out.push(s[i]);
        assert(out@ =~= s@.subrange(from as int, i + 1));
        i = i + 1;
    }
    out
}

/// Reads a pending patch body back into the call's location and the new
/// value: the file is the first line, `line:column` the second, and the
/// value everything after the second line break.
pub fn parse_pending_patch(body: &str) -> (r: Result<(InlineLocation, String), PatchError>)
    ensures
        match (r, patch_parse(body@)) {
            (Ok((loc, value)), Ok((file, line, column, v))) => loc.file@ == file && loc.line == line
                && loc.column == column && value@ == v,
            (Err(e), Err(f)) => e == f,
            _ => false,
        },
{
    let b = chars_of(body);
    let i = match find_char(&b, '\n') {
        None => {
            return Err(PatchError::MissingPosition);
        },
        Some(i) => i,
    };
    let file = slice_of(&b, 0, i);
    let rest = slice_of(&b, i + 1, b.len());
    assert(file@ =~= b@.take(i as int));
    assert(rest@ =~= b@.skip(i + 1));
    let (position, value) = match find_char(&rest, '\n') {
        None => (rest.clone(), Vec::new()),
        Some(j) => {
            let p = slice_of(&rest, 0, j);
            let v = slice_of(&rest, j + 1, rest.len());
            assert(p@ =~= rest@.take(j as int));
            assert(v@ =~= rest@.skip(j + 1));
            (p, v)
        },
    };
    let k = match find_char(&position, ':') {
        None => {
            return Err(PatchError::BadPosition);
        },
        Some(k) => k,
    };
    let line_text = slice_of(&position, 0, k);
    let column_text = slice_of(&position, k + 1, position.len());
    assert(line_text@ =~= position@.take(k as int));
    assert(column_text@ =~= position@.skip(k + 1));
    let line = match parse_u32(&line_text) {
        None => {
            return Err(PatchError::BadLine);
        },
        Some(v) => v,
    };
    let column = match parse_u32(&column_text) {
        None => {
            return Err(PatchError::BadColumn);
        },
        Some(v) => v,
    };
    Ok((InlineLocation { file: string_of(&file), line, column }, string_of(&value)))
}

proof fn lemma_decimal_reads_back(n: nat)
    ensures
        decimal(n).len() > 0,
        all_digits(decimal(n)),
        digits_value(decimal(n)) == n,
    decreases n,
{
    if n < 10 {
        let d = decimal(n);
        assert(d.drop_last() =~= Seq::<char>::empty());
        assert(digit_char(n) as int == n + 48);
        assert('0' as int == 48);
        assert(digits_value(d) == 10 * digits_value(d.drop_last()) + ((d.last() as int - '0' as int) as nat));
    } else {
        lemma_decimal_reads_back(n / 10);
        let d = decimal(n);
        assert(d.drop_last() =~= decimal(n / 10));
        assert(d.last() == digit_char(n % 10));
        assert(digit_char(n % 10) as int == n % 10 + 48);
        assert(10 * (n / 10) + n % 10 == n) by (nonlinear_arith);
        assert('0' as int == 48);
        assert(digits_value(d) == 10 * digits_value(d.drop_last()) + ((d.last() as int - '0' as int) as nat));
    }
}

/// A patch body reads back as the location and value it was written from,
/// whenever the file name has no line break in it.
#[verifier::rlimit(40)]
pub proof fn lemma_patch_round_trip(file: Seq<char>, line: u32, column: u32, value: Seq<char>)
    requires
        forall|i: int| 0 <= i < file.len() ==> file[i] != '\n',
    ensures
        patch_parse(patch_text(file, line, column, value)) == Ok::<
            (Seq<char>, u32, u32, Seq<char>),
            PatchError,
        >((file, line, column, value)),
{
    reveal_strlit("\n");
    reveal_strlit(":");
    let dl = decimal(line as nat);
    let dc = decimal(column as nat);
    lemma_decimal_reads_back(line as nat);
    lemma_decimal_reads_back(column as nat);
    let body = patch_text(file, line, column, value);
    assert(body =~= file + seq!['\n'] + (dl + seq![':'] + dc + seq!['\n'] + value));
    let i = file.len() as int;
    assert(body[i] == '\n');
    lemma_first_index_is(body, '\n', i);
    assert(body.take(i) =~= file);
    let rest = body.skip(i + 1);
    assert(rest =~= dl + seq![':'] + dc + seq!['\n'] + value);
    let j = (dl.len() + 1 + dc.len()) as int;
    assert(rest[j] == '\n');
    assert forall|k: int| 0 <= k < j implies rest[k] != '\n' by {
        if k < dl.len() {
            assert(rest[k] == dl[k]);
        } else if k > dl.len() {
            assert(rest[k] == dc[k - dl.len() - 1]);
        }
    }
    lemma_first_index_is(rest, '\n', j);
    let position = rest.take(j);
    assert(position =~= dl + seq![':'] + dc);
    assert(rest.skip(j + 1) =~= value);
    let k = dl.len() as int;
    assert(position[k] == ':');
    assert forall|m: int| 0 <= m < k implies position[m] != ':' by {
        assert(position[m] == dl[m]);
    }
    lemma_first_index_is(position, ':', k);
    assert(position.take(k) =~= dl);
    assert(position.skip(k + 1) =~= dc);
    assert(dl[0] != '+');
    assert(dc[0] != '+');
}

} // verus!
