//! The accept step: writing recorded inline snapshot values back into the
//! test source.
//!
//! Each pending patch names a call (file, line, column) and the value it
//! should now hold. The call's string literal is located among the
//! `matches_inline_snapshot` calls of the file, and replaced by a raw string
//! literal holding the new value, formatted so that normalization gives the
//! value back.

use vstd::prelude::*;

use crate::inline::{
    blank, dedent, drop_leading_newline, drop_trailing_newline, has_leading_newline, is_ws, lead, lemma_patch_round_trip, min_indent, normalized,
    patch_parse, patch_text, trim_end, PatchError,
};
use crate::text::{
    chars_of, first_index, join, lemma_first_index, lemma_first_index_is, lemma_first_index_none, lines,
    push_all, push_str, starts_with, string_of, strip_cr,
};

verus! {

/// The number of `#`s that follow position `at` in `s`.
pub open spec fn hash_run(s: Seq<char>, at: int) -> nat
    decreases s.len() - at,
{
    if 0 <= at < s.len() && s[at] == '#' {
        1 + hash_run(s, at + 1)
    } else {
        0
    }
}

/// The longest run of `#`s right after a `"` among the first `n`
/// characters' quotes.
pub open spec fn longest_quote_run(s: Seq<char>, n: int) -> nat
    decreases n,
{
    if n <= 0 {
        0
    } else {
        let m = longest_quote_run(s, n - 1);
        if s[n - 1] == '"' && hash_run(s, n) > m {
            hash_run(s, n)
        } else {
            m
        }
    }
}

/// The number of `#`s a raw string around `s` needs: one more than the
/// longest run of `#`s right after a `"` in `s`.
pub open spec fn hashes_needed(s: Seq<char>) -> nat {
    longest_quote_run(s, s.len() as int) + 1
}

/// The number of `#`s a raw string literal around `value` needs.
pub fn hash_count(value: &str) -> (n: usize)
    ensures
        n == hashes_needed(value@),
{
    let s = chars_of(value);
    let mut longest: usize = 0;
    let mut index: usize = 0;
    while index < s.len()
        invariant
            index <= s@.len(),
            longest == longest_quote_run(s@, index as int),
            longest == 0 || longest < s@.len(),
            s@.len() == s.len(),
        decreases s.len() - index,
    {
        if s[index] == '"' {
            let mut run: usize = 0;
            let mut after: usize = index + 1;
            while after < s.len() && s[after] == '#'
                invariant
                    index < after <= s@.len(),
                    run == after - index - 1,
                    hash_run(s@, index + 1) == run + hash_run(s@, after as int),
                decreases s.len() - after,
            {
                run = run + 1;
                after = after + 1;
            }
            if run > longest {
                longest = run;
            }
        }
        index = index + 1;
    }
    longest + 1
}

/// The pieces of `s` between `\n`s, as `str::split('\n')` yields them.
pub open spec fn split_pieces(s: Seq<char>) -> Seq<Seq<char>>
    decreases s.len(),
{
    let i = first_index(s, '\n');
    if i < 0 {
        seq![s]
    } else {
        proof {
            lemma_first_index(s, '\n');
        }
        seq![s.take(i)] + split_pieces(s.skip(i + 1))
    }
}

/// `n` copies of `#`.
pub open spec fn hashes(n: nat) -> Seq<char> {
    Seq::new(n, |i: int| '#')
}

/// The lines of a multi-line literal body: an empty piece stays empty, any
/// other is indented past `indent` by four spaces; each ends with `\n`.
pub open spec fn body_lines(pieces: Seq<Seq<char>>, indent: Seq<char>) -> Seq<char>
    decreases pieces.len(),
{
    if pieces.len() == 0 {
        Seq::empty()
    } else {
        let p = pieces.last();
        body_lines(pieces.drop_last(), indent) + if p.len() == 0 {
            "\n"@
        } else {
            indent + "    "@ + p + "\n"@
        }
    }
}

/// `value` as a raw string literal: inline when it is one line; otherwise
/// opened on its own line, each line indented past `indent`, and closed on a
/// line at `indent`.
pub open spec fn literal_text(value: Seq<char>, indent: Seq<char>) -> Seq<char> {
    let h = hashes(hashes_needed(value));
    if first_index(value, '\n') >= 0 {
        "r"@ + h + "\"\n"@ + body_lines(split_pieces(value), indent) + indent + "\""@ + h
    } else {
        "r"@ + h + "\""@ + value + "\""@ + h
    }
}

/// Splits `s` at each `\n`, as `str::split('\n')` does.
fn split_at_newlines(s: &Vec<char>) -> (out: Vec<Vec<char>>)
    ensures
        out@.len() == split_pieces(s@).len(),
        forall|i: int| 0 <= i < out@.len() ==> #[trigger] out@[i]@ == split_pieces(s@)[i],
{
    let mut out: Vec<Vec<char>> = Vec::new();
    let mut cur: Vec<char> = Vec::new();
    let mut start: usize = 0;
    let mut i: usize = 0;
    assert(s@.skip(0) =~= s@);
    assert(Seq::new(0 as nat, |k: int| out@[k]@) + split_pieces(s@) =~= split_pieces(s@));
    while i < s.len()
        invariant
            start <= i <= s@.len(),
            cur@ == s@.subrange(start as int, i as int),
            forall|j: int| start <= j < i ==> s@[j] != '\n',
            split_pieces(s@) =~= Seq::new(out@.len() as nat, |k: int| out@[k]@) + split_pieces(s@.skip(start as int)),
        decreases s.len() - i,
    {
        if s[i] == '\n' {
            proof {
                let t = s@.skip(start as int);
                assert forall|j: int| 0 <= j < i - start implies t[j] != '\n' by {
                    assert(t[j] == s@[start + j]);
                }
                lemma_first_index_is(t, '\n', i - start);
                assert(t.take(i - start) =~= cur@);
                assert(t.skip(i - start + 1) =~= s@.skip(i + 1));
            }
            let ghost before = out@;
            out.push(cur);
            cur = Vec::new();
            start = i + 1;
            proof {
                assert(Seq::new(out@.len() as nat, |k: int| out@[k]@) =~= Seq::new(before.len() as nat, |k: int| before[k]@).push(out@[out@.len() - 1]@));
            }
        } else {
            cur.push(s[i]);
            assert(cur@ =~= s@.subrange(start as int, i + 1));
        }
        i = i + 1;
    }
    proof {
        let t = s@.skip(start as int);
        assert forall|j: int| 0 <= j < t.len() implies t[j] != '\n' by {
            assert(t[j] == s@[start + j]);
        }
        lemma_first_index_none(t, '\n');
        assert(t =~= cur@);
    }
    let ghost before = out@;
    out.push(cur);
    proof {
        assert(Seq::new(out@.len() as nat, |k: int| out@[k]@) =~= Seq::new(before.len() as nat, |k: int| before[k]@).push(out@[out@.len() - 1]@));
        assert(split_pieces(s@) =~= Seq::new(out@.len() as nat, |k: int| out@[k]@));
        assert forall|i: int| 0 <= i < out@.len() implies #[trigger] out@[i]@ == split_pieces(s@)[i] by {
            assert(Seq::new(out@.len() as nat, |k: int| out@[k]@)[i] == out@[i]@);
        }
    }
    out
}

/// Formats `value` as a raw string literal. A single-line value is written
/// inline; a multi-line value is written with a leading newline and each line
/// indented past `indent`, which normalization undoes on the next run.
pub fn format_inline_literal(value: &str, indent: &str) -> (out: String)
    ensures
        out@ == literal_text(value@, indent@),
{
    let v = chars_of(value);
    let h = hash_count(value);
    let mut hs: Vec<char> = Vec::new();
    let mut k: usize = 0;
    while k < h
        invariant
            k <= h,
            hs@ == hashes(k as nat),
        decreases h - k,
    {
        hs.push('#');
        assert(hs@ =~= hashes((k + 1) as nat));
        k = k + 1;
    }
    proof {
        reveal_strlit("r");
        reveal_strlit("\"\n");
        reveal_strlit("\"");
        reveal_strlit("\n");
        reveal_strlit("    ");
    }
    let multi = crate::text::contains_char(&v, '\n');
    proof {
        lemma_first_index(v@, '\n');
        if crate::text::has_char(v@, '\n') {
            let w = choose|w: int| 0 <= w < v@.len() && v@[w] == '\n';
            assert(v@[w] == '\n');
        }
    }
    let mut out: Vec<char> = Vec::new();
    out.push('r');
    push_all(&mut out, &hs);
    if multi {
        push_str(&mut out, "\"\n");
        let pieces = split_at_newlines(&v);
        let ghost ps = split_pieces(v@);
        let ghost head = out@;
        let mut i: usize = 0;
        assert(ps.take(0) =~= Seq::<Seq<char>>::empty());
        while i < pieces.len()
            invariant
                i <= pieces@.len(),
                pieces@.len() == ps.len(),
                forall|j: int| 0 <= j < pieces@.len() ==> #[trigger] pieces@[j]@ == ps[j],
                out@ == head + body_lines(ps.take(i as int), indent@),
            decreases pieces.len() - i,
        {
            let ghost before = out@;
            if pieces[i].len() == 0 {
                out.push('\n');
            } else {
                push_str(&mut out, indent);
                push_str(&mut out, "    ");
                push_all(&mut out, &pieces[i]);
                out.push('\n');
            }
            proof {
                reveal_strlit("\n");
                reveal_strlit("    ");
                let t = ps.take(i + 1);
                assert(t.drop_last() =~= ps.take(i as int));
                assert(t.last() == pieces@[i as int]@);
            }
            i = i + 1;
        }
        assert(ps.take(pieces@.len() as int) =~= ps);
        push_str(&mut out, indent);
        out.push('"');
        push_all(&mut out, &hs);
    } else {
        out.push('"');
        push_all(&mut out, &v);
        out.push('"');
        push_all(&mut out, &hs);
    }
    assert(out@ =~= literal_text(value@, indent@));
    string_of(&out)
}

/// The lines of `s` with their line breaks kept, as
/// `str::split_inclusive('\n')` yields them: no pieces for an empty text.
pub open spec fn inclusive_lines(s: Seq<char>) -> Seq<Seq<char>>
    decreases s.len(),
{
    if s.len() == 0 {
        Seq::empty()
    } else {
        let i = first_index(s, '\n');
        if i < 0 {
            seq![s]
        } else {
            proof {
                lemma_first_index(s, '\n');
            }
            seq![s.take(i + 1)] + inclusive_lines(s.skip(i + 1))
        }
    }
}

/// Splits `s` after each `\n`.
fn split_inclusive(s: &Vec<char>) -> (out: Vec<Vec<char>>)
    ensures
        out@.len() == inclusive_lines(s@).len(),
        forall|i: int| 0 <= i < out@.len() ==> #[trigger] out@[i]@ == inclusive_lines(s@)[i],
{
    let mut out: Vec<Vec<char>> = Vec::new();
    let mut cur: Vec<char> = Vec::new();
    let mut start: usize = 0;
    let mut i: usize = 0;
    assert(s@.skip(0) =~= s@);
    assert(Seq::new(0 as nat, |k: int| out@[k]@) + inclusive_lines(s@) =~= inclusive_lines(s@));
    while i < s.len()
        invariant
            start <= i <= s@.len(),
            cur@ == s@.subrange(start as int, i as int),
            forall|j: int| start <= j < i ==> s@[j] != '\n',
            inclusive_lines(s@) =~= Seq::new(out@.len() as nat, |k: int| out@[k]@) + inclusive_lines(s@.skip(start as int)),
        decreases s.len() - i,
    {
        cur.push(s[i]);
        if s[i] == '\n' {
            proof {
                let t = s@.skip(start as int);
                assert forall|j: int| 0 <= j < i - start implies t[j] != '\n' by {
                    assert(t[j] == s@[start + j]);
                }
                lemma_first_index_is(t, '\n', i - start);
                assert(t.take(i - start + 1) =~= cur@);
                assert(t.skip(i - start + 1) =~= s@.skip(i + 1));
            }
            let ghost before = out@;
            out.push(cur);
            cur = Vec::new();
            start = i + 1;
            proof {
                assert(Seq::new(out@.len() as nat, |k: int| out@[k]@) =~= Seq::new(before.len() as nat, |k: int| before[k]@).push(out@[out@.len() - 1]@));
            }
        } else {
            assert(cur@ =~= s@.subrange(start as int, i + 1));
        }
        i = i + 1;
    }
    proof {
        let t = s@.skip(start as int);
        assert(t =~= cur@);
        if t.len() > 0 {
            assert forall|j: int| 0 <= j < t.len() implies t[j] != '\n' by {
                assert(t[j] == s@[start + j]);
            }
            lemma_first_index_none(t, '\n');
        }
    }
    if cur.len() > 0 {
        let ghost before = out@;
        out.push(cur);
        proof {
            assert(Seq::new(out@.len() as nat, |k: int| out@[k]@) =~= Seq::new(before.len() as nat, |k: int| before[k]@).push(out@[out@.len() - 1]@));
        }
    }
    proof {
        assert(inclusive_lines(s@) =~= Seq::new(out@.len() as nat, |k: int| out@[k]@));
        assert forall|i: int| 0 <= i < out@.len() implies #[trigger] out@[i]@ == inclusive_lines(s@)[i] by {
            assert(Seq::new(out@.len() as nat, |k: int| out@[k]@)[i] == out@[i]@);
        }
    }
    out
}

/// The spaces and tabs that start `l`.
pub open spec fn leading_blanks(l: Seq<char>) -> Seq<char>
    decreases l.len(),
{
    if l.len() > 0 && (l[0] == ' ' || l[0] == '\t') {
        seq![l[0]] + leading_blanks(l.skip(1))
    } else {
        Seq::empty()
    }
}

/// The indentation (spaces and tabs) of line `line` of `source`, counting
/// from 1 (line 0 reads as line 1); empty past the last line.
pub open spec fn indent_of(source: Seq<char>, line: nat) -> Seq<char> {
    let k = if line == 0 {
        0
    } else {
        line - 1
    };
    let ls = inclusive_lines(source);
    if k < ls.len() {
        leading_blanks(ls[k])
    } else {
        Seq::empty()
    }
}

/// The indentation of line `line` of `source`.
pub fn line_indent(source: &Vec<char>, line: usize) -> (out: Vec<char>)
    ensures
        out@ == indent_of(source@, line as nat),
{
    let ls = split_inclusive(source);
    let k: usize = if line == 0 {
        0
    } else {
        line - 1
    };
    let mut out: Vec<char> = Vec::new();
    if k < ls.len() {
        let l = &ls[k];
        let mut i: usize = 0;
        assert(l@.skip(0) =~= l@);
        while i < l.len() && (l[i] == ' ' || l[i] == '\t')
            invariant
                i <= l@.len(),
                leading_blanks(l@) == out@ + leading_blanks(l@.skip(i as int)),
            decreases l.len() - i,
        {
            proof {
                assert(l@.skip(i as int).skip(1) =~= l@.skip(i + 1));
                assert(l@.skip(i as int)[0] == l@[i as int]);
            }
            out.push(l[i]);
            proof {
                assert(leading_blanks(l@.skip(i as int)) =~= seq![l@[i as int]] + leading_blanks(l@.skip(i + 1)));
            }
            i = i + 1;
        }
        proof {
            if i < l@.len() {
                assert(l@.skip(i as int)[0] == l@[i as int]);
            }
            assert(out@ =~= out@ + leading_blanks(l@.skip(i as int)));
        }
    }
    out
}

/// The total length of the first `k` pieces.
pub open spec fn pieces_len(ls: Seq<Seq<char>>, k: int) -> nat
    decreases k,
{
    if k <= 0 {
        0
    } else {
        pieces_len(ls, k - 1) + ls[k - 1].len()
    }
}

/// A line without its `\n` and then without a `\r`.
pub open spec fn line_content(l: Seq<char>) -> Seq<char> {
    let a = if l.len() > 0 && l.last() == '\n' {
        l.drop_last()
    } else {
        l
    };
    if a.len() > 0 && a.last() == '\r' {
        a.drop_last()
    } else {
        a
    }
}

/// The position in `source` of column `column` (counted in characters from
/// 0) of line `line` (counted from 1): a column past the line's content
/// stops at its end; one line past the last, column 0, is the end of the
/// text; any other line is `None`.
pub open spec fn position_of(source: Seq<char>, line: nat, column: nat) -> Option<nat> {
    let ls = inclusive_lines(source);
    if 1 <= line <= ls.len() {
        let c = line_content(ls[line - 1]);
        Some(pieces_len(ls, line - 1) + if column < c.len() {
            column
        } else {
            c.len()
        })
    } else if line == ls.len() + 1 && column == 0 {
        Some(pieces_len(ls, ls.len() as int))
    } else {
        None
    }
}

proof fn lemma_pieces_cover(s: Seq<char>)
    ensures
        pieces_len(inclusive_lines(s), inclusive_lines(s).len() as int) == s.len(),
        forall|k: int| 0 <= k <= inclusive_lines(s).len() ==> #[trigger] pieces_len(inclusive_lines(s), k) <= s.len(),
    decreases s.len(),
{
    if s.len() > 0 {
        let i = first_index(s, '\n');
        lemma_first_index(s, '\n');
        if i >= 0 {
            let rest = s.skip(i + 1);
            lemma_pieces_cover(rest);
            let ls = inclusive_lines(s);
            let rs = inclusive_lines(rest);
            assert(ls =~= seq![s.take(i + 1)] + rs);
            assert forall|k: int| 0 <= k <= rs.len() implies #[trigger] pieces_len(ls, k + 1) == i + 1 + pieces_len(rs, k) by {
                lemma_pieces_shift(ls, rs, s.take(i + 1), k);
            }
            assert forall|k: int| 0 <= k <= ls.len() implies #[trigger] pieces_len(ls, k) <= s.len() by {
                if k > 0 {
                    assert(pieces_len(ls, (k - 1) + 1) == i + 1 + pieces_len(rs, k - 1));
                }
            }
            assert(pieces_len(ls, rs.len() + 1 as int) == i + 1 + pieces_len(rs, rs.len() as int));
        } else {
            let ls = inclusive_lines(s);
            assert(ls =~= seq![s]);
            assert(pieces_len(ls, 0) == 0);
            assert(pieces_len(ls, 1) == s.len());
        }
    }
}

proof fn lemma_pieces_shift(ls: Seq<Seq<char>>, rs: Seq<Seq<char>>, first: Seq<char>, k: int)
    requires
        ls == seq![first] + rs,
        0 <= k <= rs.len(),
    ensures
        pieces_len(ls, k + 1) == first.len() + pieces_len(rs, k),
    decreases k,
{
    if k > 0 {
        lemma_pieces_shift(ls, rs, first, k - 1);
        assert(ls[k] == rs[k - 1]);
    } else {
        assert(pieces_len(ls, 1) == pieces_len(ls, 0) + ls[0].len());
    }
}

/// The position in `source` of `column` on `line`.
pub fn line_col_to_index(source: &Vec<char>, line: usize, column: usize) -> (r: Option<usize>)
    ensures
        match position_of(source@, line as nat, column as nat) {
            Some(p) => r == Some(p as usize) && p <= source@.len(),
            None => r is None,
        },
{
    let ls = split_inclusive(source);
    let ghost lv = inclusive_lines(source@);
    proof {
        lemma_pieces_cover(source@);
    }
    let mut offset: usize = 0;
    let mut k: usize = 0;
    while k < ls.len()
        invariant
            k <= ls@.len(),
            ls@.len() == lv.len(),
            lv == inclusive_lines(source@),
            forall|j: int| 0 <= j < ls@.len() ==> #[trigger] ls@[j]@ == lv[j],
            offset == pieces_len(lv, k as int),
            offset <= source@.len(),
            forall|q: int| 0 <= q <= lv.len() ==> #[trigger] pieces_len(lv, q) <= source@.len(),
            source@.len() == source.len(),
            line == 0 || line > k,
        decreases ls.len() - k,
    {
        let l = &ls[k];
        if k + 1 == line {
            let mut n = l.len();
            if n > 0 && l[n - 1] == '\n' {
                n = n - 1;
            }
            if n > 0 && l[n - 1] == '\r' {
                n = n - 1;
            }
            assert(line_content(l@).len() == n);
            let within = if column < n {
                column
            } else {
                n
            };
            proof {
                assert(pieces_len(lv, k + 1) == offset + l@.len());
                assert(pieces_len(lv, k + 1) <= source@.len());
            }
            return Some(offset + within);
        }
        proof {
            assert(pieces_len(lv, k + 1) == offset + l@.len());
        }
        offset = offset + l.len();
        k = k + 1;
    }
    if line > 0 && line - 1 == k && column == 0 {
        Some(offset)
    } else {
        None
    }
}

/// Where a string literal argument starts and ends in the source, lines
/// from 1 and columns in characters from 0.
#[derive(PartialEq, Eq, Structural, Clone, Copy, Debug)]
pub struct LiteralSpan {
    pub start_line: usize,
    pub start_column: usize,
    pub end_line: usize,
    pub end_column: usize,
}

/// A `matches_inline_snapshot` call found in a source file: where the call
/// starts and ends, and its first argument's span when that argument is a
/// string literal.
#[derive(PartialEq, Eq, Structural, Clone, Copy, Debug)]
pub struct CallSite {
    pub start_line: usize,
    pub start_column: usize,
    pub end_line: usize,
    pub literal: Option<LiteralSpan>,
}

/// Whether the call spans line `line`.
pub open spec fn covers(c: CallSite, line: nat) -> bool {
    c.start_line <= line <= c.end_line
}

/// How far the call's start column is from `column`.
pub open spec fn distance(c: CallSite, column: nat) -> nat {
    if c.start_column >= column {
        (c.start_column - column) as nat
    } else {
        (column - c.start_column) as nat
    }
}

/// Among the first `n` calls, in order, the one spanning `line` whose start
/// column is closest to `column`; the earliest among equally close ones.
pub open spec fn best_call(calls: Seq<CallSite>, line: nat, column: nat, n: int) -> Option<int>
    decreases n,
{
    if n <= 0 {
        None
    } else {
        let b = best_call(calls, line, column, n - 1);
        let c = calls[n - 1];
        if covers(c, line) && (b is None || distance(c, column) < distance(calls[b.unwrap()], column)) {
            Some(n - 1)
        } else {
            b
        }
    }
}

proof fn lemma_best_call_range(calls: Seq<CallSite>, line: nat, column: nat, n: int)
    ensures
        best_call(calls, line, column, n) matches Some(b) ==> 0 <= b < n,
    decreases n,
{
    if n > 0 {
        lemma_best_call_range(calls, line, column, n - 1);
    }
}

/// The call chosen for `line` and `column` among the first `n` calls is one
/// whose lines run from at or before `line` to at or after it; whenever any
/// of them does, one is chosen; no other such call starts closer to
/// `column`; and every such call before it starts farther away.
pub proof fn lemma_chosen_call_spans_line(calls: Seq<CallSite>, line: nat, column: nat, n: int)
    requires
        0 <= n <= calls.len(),
    ensures
        best_call(calls, line, column, n) matches Some(b) ==> 0 <= b < n && calls[b].start_line <= line
            <= calls[b].end_line,
        (exists|k: int| 0 <= k < n && #[trigger] calls[k].start_line <= line <= calls[k].end_line)
            ==> best_call(calls, line, column, n) is Some,
        best_call(calls, line, column, n) matches Some(b) ==> forall|k: int|
            0 <= k < n && #[trigger] calls[k].start_line <= line <= calls[k].end_line ==> distance(
                calls[b],
                column,
            ) <= distance(calls[k], column),
        best_call(calls, line, column, n) matches Some(b) ==> forall|k: int|
            0 <= k < b && #[trigger] calls[k].start_line <= line <= calls[k].end_line ==> distance(
                calls[b],
                column,
            ) < distance(calls[k], column),
    decreases n,
{
    if n > 0 {
        lemma_chosen_call_spans_line(calls, line, column, n - 1);
        let c = calls[n - 1];
        if c.start_line <= line <= c.end_line {
            assert(best_call(calls, line, column, n) is Some);
        } else {
            assert(best_call(calls, line, column, n) == best_call(calls, line, column, n - 1));
            if exists|k: int| 0 <= k < n && #[trigger] calls[k].start_line <= line <= calls[k].end_line {
                let k = choose|k: int| 0 <= k < n && #[trigger] calls[k].start_line <= line <= calls[k].end_line;
                assert(k < n - 1);
            }
        }
    }
}

/// The call a pending patch for `line` and `column` targets.
pub fn choose_call(calls: &[CallSite], line: u32, column: u32) -> (r: Option<usize>)
    ensures
        match best_call(calls@, line as nat, column as nat, calls@.len() as int) {
            Some(b) => r == Some(b as usize),
            None => r is None,
        },
{
    let mut best: Option<usize> = None;
    let mut best_distance: usize = 0;
    let mut i: usize = 0;
    while i < calls.len()
        invariant
            i <= calls@.len(),
            match best_call(calls@, line as nat, column as nat, i as int) {
                Some(b) => best == Some(b as usize) && best_distance == distance(calls@[b], column as nat),
                None => best is None,
            },
        decreases calls.len() - i,
    {
        proof {
            lemma_best_call_range(calls@, line as nat, column as nat, i as int);
        }
        let c = calls[i];
        let covers_line = c.start_line <= line as usize && line as usize <= c.end_line;
        if covers_line {
            let d = if c.start_column >= column as usize {
                c.start_column - column as usize
            } else {
                column as usize - c.start_column
            };
            let better = match best {
                None => true,
                Some(_) => d < best_distance,
            };
            if better {
                best = Some(i);
                best_distance = d;
            }
        }
        i = i + 1;
    }
    best
}

/// Why a patch could not be placed in the source.
#[derive(PartialEq, Eq, Structural, Clone, Copy, Debug)]
pub enum Misplaced {
    /// No call spans the patch's line, or its literal's position is outside
    /// the source.
    NoCall,
    /// The call's first argument is not a string literal.
    NotAStringLiteral,
}

/// What placing `new_value` at the call targeted by `line` and `column`
/// makes of `source`: the literal's text replaced by the formatted literal,
/// indented like the line the literal starts on.
pub open spec fn patched(source: Seq<char>, line: nat, column: nat, new_value: Seq<char>, calls: Seq<CallSite>) -> Result<Seq<char>, Misplaced> {
    match best_call(calls, line, column, calls.len() as int) {
        None => Err(Misplaced::NoCall),
        Some(b) => match calls[b].literal {
            None => Err(Misplaced::NotAStringLiteral),
            Some(lit) => match (
                position_of(source, lit.start_line as nat, lit.start_column as nat),
                position_of(source, lit.end_line as nat, lit.end_column as nat),
            ) {
                (Some(start), Some(end)) => Ok(
                    source.take(start as int) + literal_text(
                        new_value,
                        indent_of(source, lit.start_line as nat),
                    ) + source.skip(end as int),
                ),
                _ => Err(Misplaced::NoCall),
            },
        },
    }
}

/// Why the accept step failed.
#[derive(Debug)]
pub enum AcceptError {
    /// Reading or writing `path` failed.
    Io { path: String, source: String },
    /// The pending patch at `path` could not be read.
    MalformedPatch { path: String, message: String },
    /// The source at `path` could not be parsed.
    Parse { path: String, message: String },
    /// No `matches_inline_snapshot` call was found at `path`, `line`.
    NoCall { path: String, line: u32 },
    /// The call at `path`, `line` has a non-literal argument.
    NotAStringLiteral { path: String, line: u32 },
}

/// The message an accept error reads as.
pub open spec fn accept_error_text(e: AcceptError) -> Seq<char> {
    match e {
        AcceptError::Io { path, source } => "I/O error at "@ + path@ + ": "@ + source@,
        AcceptError::MalformedPatch { path, message } => "malformed pending patch "@ + path@ + ": "@
            + message@,
        AcceptError::Parse { path, message } => "could not parse "@ + path@ + ": "@ + message@,
        AcceptError::NoCall { path, line } => "no `matches_inline_snapshot` call at "@ + path@ + ":"@
            + crate::show::decimal(line as nat),
        AcceptError::NotAStringLiteral { path, line } => "the `matches_inline_snapshot` call at "@
            + path@ + ":"@ + crate::show::decimal(line as nat) + " has a non-literal argument"@,
    }
}

impl AcceptError {
    /// The message this error reads as.
    pub fn to_string(&self) -> (s: String)
        ensures
            s@ == accept_error_text(*self),
    {
        let mut out: Vec<char> = Vec::new();
        match self {
            AcceptError::Io { path, source } => {
                push_str(&mut out, "I/O error at ");
                push_str(&mut out, path.as_str());
                push_str(&mut out, ": ");
                push_str(&mut out, source.as_str());
            },
            AcceptError::MalformedPatch { path, message } => {
                push_str(&mut out, "malformed pending patch ");
                push_str(&mut out, path.as_str());
                push_str(&mut out, ": ");
                push_str(&mut out, message.as_str());
            },
            AcceptError::Parse { path, message } => {
                push_str(&mut out, "could not parse ");
                push_str(&mut out, path.as_str());
                push_str(&mut out, ": ");
                push_str(&mut out, message.as_str());
            },
            AcceptError::NoCall { path, line } => {
                push_str(&mut out, "no `matches_inline_snapshot` call at ");
                push_str(&mut out, path.as_str());
                push_str(&mut out, ":");
                crate::show::push_decimal(&mut out, *line as u64);
            },
            AcceptError::NotAStringLiteral { path, line } => {
                push_str(&mut out, "the `matches_inline_snapshot` call at ");
                push_str(&mut out, path.as_str());
                push_str(&mut out, ":");
                crate::show::push_decimal(&mut out, *line as u64);
                push_str(&mut out, " has a non-literal argument");
            },
        }
        assert(out@ =~= accept_error_text(*self));
        string_of(&out)
    }
}

/// The characters of `s` from `from` up to `to`.
fn part_of(s: &Vec<char>, from: usize, to: usize) -> (out: Vec<char>)
    requires
        from <= to <= s@.len(),
    ensures
        out@ == s@.subrange(from as int, to as int),
{
    let mut out: Vec<char> = Vec::new();
    let mut i: usize = from;
    while i < to
        invariant
            from <= i <= to <= s@.len(),
            out@ == s@.subrange(from as int, i as int),
        decreases to - i,
    {
        out.push(s[i]);
        assert(out@ =~= s@.subrange(from as int, i + 1));
        i = i + 1;
    }
    out
}

/// Rewrites `source` so that the literal of the `matches_inline_snapshot`
/// call at `line` and `column` holds `new_value`.
///
/// `parsed` is what parsing the source gave: the file's calls, in the order a
/// syntax walk meets them, or the parser's message.
pub fn apply_inline_patch(
    path: &str,
    source: &str,
    line: u32,
    column: u32,
    new_value: &str,
    parsed: Result<Vec<CallSite>, String>,
) -> (r: Result<String, AcceptError>)
    ensures
        match parsed {
            Err(m) => r matches Err(AcceptError::Parse { path: p, message }) && p@ == path@
                && message@ == m@,
            Ok(calls) => match patched(source@, line as nat, column as nat, new_value@, calls@) {
                Ok(text) => r matches Ok(out) && out@ == text,
                Err(Misplaced::NoCall) => r matches Err(AcceptError::NoCall { path: p, line: l })
                    && p@ == path@ && l == line,
                Err(Misplaced::NotAStringLiteral) => r matches Err(
                    AcceptError::NotAStringLiteral { path: p, line: l },
                ) && p@ == path@ && l == line,
            },
        },
{
    let calls = match parsed {
        Err(message) => {
            return Err(AcceptError::Parse { path: String::from_str(path), message });
        },
        Ok(calls) => calls,
    };
    proof {
        lemma_best_call_range(calls@, line as nat, column as nat, calls@.len() as int);
    }
    let found = match choose_call(calls.as_slice(), line, column) {
        None => {
            return Err(AcceptError::NoCall { path: String::from_str(path), line });
        },
        Some(b) => calls[b],
    };
    let literal = match found.literal {
        None => {
            return Err(AcceptError::NotAStringLiteral { path: String::from_str(path), line });
        },
        Some(l) => l,
    };
    let src = chars_of(source);
    let start = match line_col_to_index(&src, literal.start_line, literal.start_column) {
        None => {
            return Err(AcceptError::NoCall { path: String::from_str(path), line });
        },
        Some(p) => p,
    };
    let end = match line_col_to_index(&src, literal.end_line, literal.end_column) {
        None => {
            return Err(AcceptError::NoCall { path: String::from_str(path), line });
        },
        Some(p) => p,
    };
    let indent = line_indent(&src, literal.start_line);
    let replacement = format_inline_literal(new_value, string_of(&indent).as_str());
    let mut out = part_of(&src, 0, start);
    push_str(&mut out, replacement.as_str());
    let tail = part_of(&src, end, src.len());
    push_all(&mut out, &tail);
    proof {
        assert(src@.subrange(0, start as int) =~= src@.take(start as int));
        assert(src@.subrange(end as int, src@.len() as int) =~= src@.skip(end as int));
    }
    Ok(string_of(&out))
}

/// A pending patch read from disk and waiting to be applied.
#[derive(Debug)]
pub struct StagedPatch {
    pub patch_file: String,
    pub line: u32,
    pub column: u32,
    pub value: String,
}

/// The patches that target one source file, in the order they were read.
#[derive(Debug)]
pub struct FileGroup {
    pub file: String,
    pub patches: Vec<StagedPatch>,
}

/// What was written back to one source file: the file and how many patches
/// it took.
#[derive(Debug)]
pub struct Applied {
    pub file: String,
    pub patches: usize,
}

/// The position of the group for `file` among `groups`, if there is one.
pub open spec fn group_index(groups: Seq<(Seq<char>, Seq<StagedPatch>)>, file: Seq<char>) -> Option<int>
    decreases groups.len(),
{
    if groups.len() == 0 {
        None
    } else {
        match group_index(groups.drop_last(), file) {
            Some(i) => Some(i),
            None => if groups.last().0 == file {
                Some(groups.len() - 1)
            } else {
                None
            },
        }
    }
}

/// The patches grouped by target file: one group per file, in the order the
/// files first appear, each holding that file's patches in their order.
pub open spec fn grouped(items: Seq<(Seq<char>, StagedPatch)>) -> Seq<(Seq<char>, Seq<StagedPatch>)>
    decreases items.len(),
{
    if items.len() == 0 {
        Seq::empty()
    } else {
        let g = grouped(items.drop_last());
        let (file, patch) = items.last();
        match group_index(g, file) {
            Some(i) => g.update(i, (g[i].0, g[i].1.push(patch))),
            None => g.push((file, seq![patch])),
        }
    }
}

/// The plain view of groups.
pub open spec fn groups_view(groups: Seq<FileGroup>) -> Seq<(Seq<char>, Seq<StagedPatch>)> {
    groups.map_values(|g: FileGroup| (g.file@, g.patches@))
}

proof fn lemma_group_index_range(groups: Seq<(Seq<char>, Seq<StagedPatch>)>, file: Seq<char>)
    ensures
        group_index(groups, file) matches Some(i) ==> 0 <= i < groups.len() && groups[i].0 == file,
        group_index(groups, file) is None ==> forall|j: int| 0 <= j < groups.len() ==> groups[j].0 != file,
        group_index(groups, file) matches Some(i) ==> forall|j: int| 0 <= j < i ==> groups[j].0 != file,
    decreases groups.len(),
{
    if groups.len() > 0 {
        let d = groups.drop_last();
        lemma_group_index_range(d, file);
        assert forall|j: int| 0 <= j < d.len() implies d[j] == groups[j] by {}
    }
}

/// The patches of `items` that target `file`, in order.
pub open spec fn for_file(items: Seq<(Seq<char>, StagedPatch)>, file: Seq<char>) -> Seq<StagedPatch>
    decreases items.len(),
{
    if items.len() == 0 {
        Seq::empty()
    } else {
        let earlier = for_file(items.drop_last(), file);
        if items.last().0 == file {
            earlier.push(items.last().1)
        } else {
            earlier
        }
    }
}

proof fn lemma_for_file_push(d: Seq<(Seq<char>, StagedPatch)>, x: (Seq<char>, StagedPatch), file: Seq<char>)
    ensures
        for_file(d.push(x), file) == if x.0 == file {
            for_file(d, file).push(x.1)
        } else {
            for_file(d, file)
        },
{
    assert(d.push(x).drop_last() =~= d);
}

proof fn lemma_for_file_none(items: Seq<(Seq<char>, StagedPatch)>, file: Seq<char>)
    requires
        forall|k: int| 0 <= k < items.len() ==> (#[trigger] items[k]).0 != file,
    ensures
        for_file(items, file) == Seq::<StagedPatch>::empty(),
    decreases items.len(),
{
    if items.len() > 0 {
        let d = items.drop_last();
        assert forall|k: int| 0 <= k < d.len() implies (#[trigger] d[k]).0 != file by {
            assert(d[k] == items[k]);
        }
        lemma_for_file_none(d, file);
    }
}

/// Grouping staged patches by file applies every patch exactly once and keeps
/// the order they were read in: each group holds exactly the patches for its
/// file, in order; no two groups name the same file; and every patch's file
/// has a group.
pub proof fn lemma_patch_grouping_partitions(items: Seq<(Seq<char>, StagedPatch)>)
    ensures
        forall|i: int| 0 <= i < grouped(items).len() ==> (#[trigger] grouped(items)[i]).1 == for_file(
            items,
            grouped(items)[i].0,
        ),
        forall|i: int, j: int| 0 <= i < j < grouped(items).len() ==> (#[trigger] grouped(items)[i]).0
            != (#[trigger] grouped(items)[j]).0,
        forall|k: int| 0 <= k < items.len() ==> group_index(grouped(items), (#[trigger] items[k]).0) is Some,
    decreases items.len(),
{
    if items.len() == 0 {
        return;
    }
    let d = items.drop_last();
    let x = items.last();
    let file = x.0;
    assert(items =~= d.push(x));
    lemma_patch_grouping_partitions(d);
    let g0 = grouped(d);
    let g = grouped(items);
    lemma_group_index_range(g0, file);
    assert forall|k: Seq<char>| #[trigger] for_file(items, k) == if file == k {
        for_file(d, k).push(x.1)
    } else {
        for_file(d, k)
    } by {
        lemma_for_file_push(d, x, k);
    }
    match group_index(g0, file) {
        Some(i) => {
            assert(g == g0.update(i, (g0[i].0, g0[i].1.push(x.1))));
            assert forall|j: int| 0 <= j < g.len() implies (#[trigger] g[j]).1 == for_file(items, g[j].0) by {
                if j != i {
                    assert(g[j] == g0[j]);
                    assert(g0[j].0 != file);
                }
            }
            assert forall|k: int| 0 <= k < items.len() implies group_index(g, (#[trigger] items[k]).0) is Some by {
                let kk = items[k].0;
                lemma_group_index_range(g, kk);
                if k < d.len() {
                    assert(items[k] == d[k]);
                    lemma_group_index_range(g0, kk);
                    let m = group_index(g0, kk).unwrap();
                    assert(g[m].0 == g0[m].0);
                } else {
                    assert(items[k] == x);
                    assert(g[i].0 == file);
                }
            }
        },
        None => {
            assert(g == g0.push((file, seq![x.1])));
            assert forall|k: int| 0 <= k < d.len() implies (#[trigger] d[k]).0 != file by {
                if d[k].0 == file {
                    assert(group_index(g0, d[k].0) is Some);
                }
            }
            lemma_for_file_none(d, file);
            assert(for_file(d, file) =~= Seq::<StagedPatch>::empty());
            assert(for_file(d, file).push(x.1) =~= seq![x.1]);
            assert forall|j: int| 0 <= j < g.len() implies (#[trigger] g[j]).1 == for_file(items, g[j].0) by {
                if j < g0.len() {
                    assert(g[j] == g0[j]);
                    assert(g0[j].0 != file);
                }
            }
            assert forall|k: int| 0 <= k < items.len() implies group_index(g, (#[trigger] items[k]).0) is Some by {
                let kk = items[k].0;
                lemma_group_index_range(g, kk);
                if k < d.len() {
                    assert(items[k] == d[k]);
                    lemma_group_index_range(g0, kk);
                    let m = group_index(g0, kk).unwrap();
                    assert(g[m].0 == g0[m].0);
                } else {
                    assert(items[k] == x);
                    assert(g[g.len() - 1].0 == file);
                }
            }
        },
    }
}

impl StagedPatch {
    /// A copy of this patch.
    pub fn duplicate(&self) -> (p: StagedPatch)
        ensures
            p == *self,
    {
        StagedPatch {
            patch_file: self.patch_file.clone(),
            line: self.line,
            column: self.column,
            value: self.value.clone(),
        }
    }
}

/// The position of the group for `file`, if there is one.
fn find_group(groups: &Vec<FileGroup>, file: &String) -> (r: Option<usize>)
    ensures
        match group_index(groups_view(groups@), file@) {
            Some(i) => r == Some(i as usize),
            None => r is None,
        },
{
    let ghost gv = groups_view(groups@);
    proof {
        lemma_group_index_range(gv, file@);
    }
    let mut i: usize = 0;
    while i < groups.len()
        invariant
            i <= groups@.len(),
            gv == groups_view(groups@),
            forall|j: int| 0 <= j < i ==> gv[j].0 != file@,
            group_index(gv, file@) matches Some(k) ==> 0 <= k < gv.len() && gv[k].0 == file@ && forall|j: int| 0 <= j < k ==> gv[j].0 != file@,
            group_index(gv, file@) is None ==> forall|j: int| 0 <= j < gv.len() ==> gv[j].0 != file@,
        decreases groups.len() - i,
    {
        if groups[i].file == *file {
            assert(gv[i as int].0 == file@);
            return Some(i);
        }
        i = i + 1;
    }
    None
}

/// Groups staged patches by the source file each targets, in the order the
/// files first appear; each group keeps its patches' order.
pub fn group_by_file(staged: &[(String, StagedPatch)]) -> (groups: Vec<FileGroup>)
    ensures
        groups_view(groups@) == grouped(staged@.map_values(|e: (String, StagedPatch)| (e.0@, e.1))),
{
    let ghost items = staged@.map_values(|e: (String, StagedPatch)| (e.0@, e.1));
    let mut groups: Vec<FileGroup> = Vec::new();
    let mut i: usize = 0;
    assert(groups_view(groups@) =~= grouped(items.take(0)));
    while i < staged.len()
        invariant
            i <= staged@.len(),
            items == staged@.map_values(|e: (String, StagedPatch)| (e.0@, e.1)),
            groups_view(groups@) == grouped(items.take(i as int)),
        decreases staged.len() - i,
    {
        let file = &staged[i].0;
        let patch = staged[i].1.duplicate();
        let ghost g = groups_view(groups@);
        proof {
            let t = items.take(i + 1);
            assert(t.drop_last() =~= items.take(i as int));
            assert(t.last() == (file@, patch));
            lemma_group_index_range(g, file@);
        }
        match find_group(&groups, file) {
            Some(j) => {
                proof {
                    let k = group_index(g, file@).unwrap();
                    assert(0 <= k < g.len());
                    assert(g.len() == groups@.len());
                    assert(groups@.len() == groups.len());
                    assert(k < usize::MAX);
                    assert(j == k as usize);
                    assert(j as int == k);
                }
                let mut entry = groups.remove(j);
                entry.patches.push(patch);
                groups.insert(j, entry);
                proof {
                    assert(groups_view(groups@) =~= g.update(j as int, (g[j as int].0, g[j as int].1.push(patch))));
                    let t = items.take(i + 1);
                    assert(group_index(g, file@) == Some(j as int));
                    assert(grouped(t.drop_last()) == g);
                    assert(t.last().0 == file@);
                    assert(t.last().1 == patch);
                    assert(grouped(t) == g.update(j as int, (g[j as int].0, g[j as int].1.push(patch))));
                }
            },
            None => {
                let mut patches: Vec<StagedPatch> = Vec::new();
                patches.push(patch);
                groups.push(FileGroup { file: file.clone(), patches });
                proof {
                    assert(groups_view(groups@) =~= g.push((file@, seq![patch])));
                    let t = items.take(i + 1);
                    assert(grouped(t) == g.push((file@, seq![patch])));
                }
            },
        }
        i = i + 1;
    }
    assert(items.take(staged@.len() as int) =~= items);
    groups
}

impl FileGroup {
    /// The record of writing this group's patches back.
    pub fn applied(&self) -> (a: Applied)
        ensures
            a.file@ == self.file@,
            a.patches == self.patches@.len(),
    {
        Applied { file: self.file.clone(), patches: self.patches.len() }
    }
}

} // verus!

verus! {

/// What a raw string literal written by [`format_inline_literal`] holds
/// between its quotes.
pub open spec fn literal_value(value: Seq<char>, indent: Seq<char>) -> Seq<char> {
    if first_index(value, '\n') >= 0 {
        "\n"@ + body_lines(split_pieces(value), indent) + indent
    } else {
        value
    }
}

/// A piece of a multi-line value as its literal line holds it (without the
/// line break): an empty piece stays empty, any other is indented past
/// `indent` by four spaces.
pub open spec fn indented(p: Seq<char>, indent: Seq<char>) -> Seq<char> {
    if p.len() == 0 {
        Seq::empty()
    } else {
        indent + "    "@ + p
    }
}

/// Whether `w` is made of spaces and tabs only.
pub open spec fn spaces_and_tabs(w: Seq<char>) -> bool {
    forall|i: int| 0 <= i < w.len() ==> w[i] == ' ' || w[i] == '\t'
}

/// Whether `s` has no `\n`.
pub open spec fn one_line(s: Seq<char>) -> bool {
    forall|i: int| 0 <= i < s.len() ==> s[i] != '\n'
}

proof fn lemma_body_lines_front(ps: Seq<Seq<char>>, indent: Seq<char>)
    requires
        ps.len() > 0,
    ensures
        body_lines(ps, indent) == indented(ps[0], indent) + "\n"@ + body_lines(ps.skip(1), indent),
    decreases ps.len(),
{
    reveal_strlit("\n");
    reveal_strlit("    ");
    if ps.len() == 1 {
        assert(ps.drop_last() =~= Seq::<Seq<char>>::empty());
        assert(ps.skip(1) =~= Seq::<Seq<char>>::empty());
        let p = ps[0];
        assert(body_lines(ps.drop_last(), indent) =~= Seq::<char>::empty());
        assert(body_lines(ps.skip(1), indent) =~= Seq::<char>::empty());
        assert(ps.last() == p);
        if p.len() == 0 {
            assert(body_lines(ps, indent) =~= "\n"@);
        } else {
            assert(body_lines(ps, indent) =~= indent + "    "@ + p + "\n"@);
        }
    } else {
        let d = ps.drop_last();
        lemma_body_lines_front(d, indent);
        assert(d[0] == ps[0]);
        assert(ps.skip(1).drop_last() =~= d.skip(1));
        assert(ps.skip(1).last() == ps.last());
        let g = if ps.last().len() == 0 {
            "\n"@
        } else {
            indent + "    "@ + ps.last() + "\n"@
        };
        assert(body_lines(ps, indent) == body_lines(d, indent) + g);
        assert(body_lines(ps.skip(1), indent) == body_lines(d.skip(1), indent) + g);
        assert(body_lines(ps, indent) =~= indented(ps[0], indent) + "\n"@ + body_lines(ps.skip(1), indent));
    }
}

proof fn lemma_lines_cons(x: Seq<char>, rest: Seq<char>)
    requires
        one_line(x),
    ensures
        lines(x + "\n"@ + rest) == seq![strip_cr(x)] + lines(rest),
{
    reveal_strlit("\n");
    let s = x + "\n"@ + rest;
    assert forall|j: int| 0 <= j < x.len() implies s[j] != '\n' by {
        assert(s[j] == x[j]);
    }
    assert(s[x.len() as int] == '\n');
    lemma_first_index_is(s, '\n', x.len() as int);
    assert(s.take(x.len() as int) =~= x);
    assert(s.skip(x.len() as int + 1) =~= rest);
}

proof fn lemma_lines_of_body(ps: Seq<Seq<char>>, indent: Seq<char>)
    requires
        spaces_and_tabs(indent),
        forall|j: int| 0 <= j < ps.len() ==> one_line(#[trigger] ps[j]),
        forall|j: int| 0 <= j < ps.len() ==> (#[trigger] ps[j]).len() == 0 || ps[j].last() != '\r',
    ensures
        lines(body_lines(ps, indent) + indent) == ps.map_values(|p: Seq<char>| indented(p, indent)) + if indent.len()
            > 0 {
            seq![indent]
        } else {
            Seq::<Seq<char>>::empty()
        },
    decreases ps.len(),
{
    reveal_strlit("    ");
    if ps.len() == 0 {
        assert(body_lines(ps, indent) + indent =~= indent);
        if indent.len() > 0 {
            lemma_first_index_none(indent, '\n');
        }
        assert(ps.map_values(|p: Seq<char>| indented(p, indent)) =~= Seq::<Seq<char>>::empty());
    } else {
        lemma_body_lines_front(ps, indent);
        let rest = ps.skip(1);
        assert forall|j: int| 0 <= j < rest.len() implies one_line(#[trigger] rest[j]) by {
            assert(rest[j] == ps[j + 1]);
        }
        assert forall|j: int| 0 <= j < rest.len() implies (#[trigger] rest[j]).len() == 0 || rest[j].last() != '\r' by {
            assert(rest[j] == ps[j + 1]);
        }
        lemma_lines_of_body(rest, indent);
        let x = indented(ps[0], indent);
        assert(one_line(ps[0]));
        assert(one_line(x)) by {
            if ps[0].len() > 0 {
                assert forall|i: int| 0 <= i < x.len() implies x[i] != '\n' by {
                    if i < indent.len() {
                        assert(x[i] == indent[i]);
                    } else if i < indent.len() + 4 {
                        assert(x[i] == ' ');
                    } else {
                        assert(x[i] == ps[0][i - indent.len() - 4]);
                    }
                }
            }
        }
        assert(strip_cr(x) == x) by {
            if ps[0].len() > 0 {
                assert(x.last() == ps[0].last());
            }
        }
        assert(body_lines(ps, indent) + indent =~= x + "\n"@ + (body_lines(rest, indent) + indent));
        lemma_lines_cons(x, body_lines(rest, indent) + indent);
        assert(ps.map_values(|p: Seq<char>| indented(p, indent)) =~= seq![x] + rest.map_values(
            |p: Seq<char>| indented(p, indent),
        ));
    }
}

proof fn lemma_lead_after_ws(w: Seq<char>, p: Seq<char>)
    requires
        forall|i: int| 0 <= i < w.len() ==> is_ws(w[i]),
    ensures
        lead(w + p) == w.len() + lead(p),
    decreases w.len(),
{
    if w.len() > 0 {
        assert((w + p)[0] == w[0]);
        assert((w + p).skip(1) =~= w.skip(1) + p);
        lemma_lead_after_ws(w.skip(1), p);
    } else {
        assert(w + p =~= p);
    }
}

proof fn lemma_lead_indented(p: Seq<char>, indent: Seq<char>)
    requires
        spaces_and_tabs(indent),
        p.len() > 0,
    ensures
        lead(indented(p, indent)) == indent.len() + 4 + lead(p),
        blank(indented(p, indent)) == blank(p),
{
    reveal_strlit("    ");
    let w = indent + "    "@;
    assert forall|i: int| 0 <= i < w.len() implies is_ws(w[i]) by {
        if i < indent.len() {
            assert(w[i] == indent[i]);
        } else {
            assert(w[i] == ' ');
        }
    }
    lemma_lead_after_ws(w, p);
}

/// The least indentation of the non-blank lines, moved by `k`.
pub open spec fn shifted(m: Option<nat>, k: nat) -> Option<nat> {
    match m {
        Some(v) => Some(v + k),
        None => None,
    }
}

proof fn lemma_min_indent_indented(ps: Seq<Seq<char>>, indent: Seq<char>)
    requires
        spaces_and_tabs(indent),
    ensures
        min_indent(ps.map_values(|p: Seq<char>| indented(p, indent))) == shifted(min_indent(ps), indent.len() + 4),
    decreases ps.len(),
{
    let f = |p: Seq<char>| indented(p, indent);
    let ms = ps.map_values(f);
    if ps.len() > 0 {
        assert(ms.drop_last() =~= ps.drop_last().map_values(f));
        lemma_min_indent_indented(ps.drop_last(), indent);
        let l = ps.last();
        assert(ms.last() == indented(l, indent));
        if l.len() > 0 {
            lemma_lead_indented(l, indent);
        } else {
            assert(indented(l, indent) =~= Seq::<char>::empty());
            assert(blank(l));
        }
    }
}

proof fn lemma_min_indent_at_most(ls: Seq<Seq<char>>, j: int)
    requires
        0 <= j < ls.len(),
        !blank(ls[j]),
    ensures
        min_indent(ls) matches Some(m) && m <= lead(ls[j]),
    decreases ls.len(),
{
    if j < ls.len() - 1 {
        assert(ls.drop_last()[j] == ls[j]);
        lemma_min_indent_at_most(ls.drop_last(), j);
    }
}

proof fn lemma_blank_spaces(w: Seq<char>)
    requires
        spaces_and_tabs(w),
    ensures
        blank(w),
        lead(w) == w.len(),
{
    lemma_lead_after_ws(w, Seq::<char>::empty());
    assert(w + Seq::<char>::empty() =~= w);
}

proof fn lemma_join_cons(a: Seq<char>, rest: Seq<Seq<char>>, sep: Seq<char>)
    requires
        rest.len() > 0,
    ensures
        join(seq![a] + rest, sep) == a + sep + join(rest, sep),
    decreases rest.len(),
{
    let all = seq![a] + rest;
    assert(join(all, sep) == join(all.drop_last(), sep) + sep + all.last());
    assert(all.last() == rest.last());
    if rest.len() == 1 {
        assert(all.drop_last() =~= seq![a]);
        assert(join(seq![a], sep) == a);
        assert(join(rest, sep) == rest[0]);
    } else {
        lemma_join_cons(a, rest.drop_last(), sep);
        assert(all.drop_last() =~= seq![a] + rest.drop_last());
        assert(join(rest, sep) == join(rest.drop_last(), sep) + sep + rest.last());
        assert(join(all, sep) =~= a + sep + join(rest, sep));
    }
}

proof fn lemma_split_pieces_facts(s: Seq<char>)
    ensures
        split_pieces(s).len() > 0,
        join(split_pieces(s), "\n"@) == s,
        forall|j: int| 0 <= j < split_pieces(s).len() ==> one_line(#[trigger] split_pieces(s)[j]),
    decreases s.len(),
{
    reveal_strlit("\n");
    let i = first_index(s, '\n');
    lemma_first_index(s, '\n');
    if i >= 0 {
        let rest = s.skip(i + 1);
        lemma_split_pieces_facts(rest);
        let a = s.take(i);
        assert(split_pieces(s) == seq![a] + split_pieces(rest));
        lemma_join_cons(a, split_pieces(rest), "\n"@);
        assert(a + "\n"@ + rest =~= s);
        assert forall|j: int| 0 <= j < split_pieces(s).len() implies one_line(#[trigger] split_pieces(s)[j]) by {
            if j == 0 {
                assert(split_pieces(s)[0] == a);
            } else {
                assert(split_pieces(s)[j] == split_pieces(rest)[j - 1]);
            }
        }
    } else {
        assert(split_pieces(s) == seq![s]);
    }
}

proof fn lemma_trim_end_newline(s: Seq<char>)
    requires
        s.len() == 0 || !is_ws(s.last()),
    ensures
        trim_end(s + "\n"@) == s,
        trim_end(s) == s,
{
    reveal_strlit("\n");
    let t = s + "\n"@;
    assert(t.last() == '\n');
    assert(is_ws('\n'));
    assert(t.drop_last() =~= s);
    assert(trim_end(t) == trim_end(t.drop_last()));
}

/// What the accept step writes, the next run reads back: the literal that
/// [`format_inline_literal`] writes for `value` holds a text that
/// normalization turns back into `value` exactly. This holds for every value
/// normalization cannot change: one with no trailing whitespace, no
/// `\r\n` line break, and, if it spans several lines, a line that starts
/// with something other than whitespace; the indent is spaces and tabs.
pub proof fn lemma_literal_round_trip(value: Seq<char>, indent: Seq<char>)
    requires
        spaces_and_tabs(indent),
        value.len() == 0 || !is_ws(value.last()),
        forall|j: int| 0 <= j < split_pieces(value).len() ==> (#[trigger] split_pieces(value)[j]).len() == 0
            || split_pieces(value)[j].last() != '\r',
        first_index(value, '\n') >= 0 ==> exists|j: int| 0 <= j < split_pieces(value).len() && (#[trigger] split_pieces(
            value,
        )[j]).len() > 0 && !is_ws(split_pieces(value)[j][0]),
    ensures
        literal_text(value, indent) == "r"@ + hashes(hashes_needed(value)) + "\""@ + literal_value(
            value,
            indent,
        ) + "\""@ + hashes(hashes_needed(value)),
        normalized(literal_value(value, indent)) == value,
{
    reveal_strlit("\n");
    reveal_strlit("\r\n");
    reveal_strlit("\"\n");
    reveal_strlit("\"");
    let h = hashes(hashes_needed(value));
    let ps = split_pieces(value);
    lemma_split_pieces_facts(value);
    lemma_first_index(value, '\n');
    if first_index(value, '\n') >= 0 {
        assert(literal_text(value, indent) =~= "r"@ + h + "\""@ + literal_value(value, indent) + "\""@ + h);
        let raw = literal_value(value, indent);
        let body = body_lines(ps, indent) + indent;
        assert(raw[0] == '\n');
        if starts_with(raw, "\r\n"@) {
            assert(raw.take(2)[0] == raw[0]);
            assert(("\r\n"@)[0] == '\r');
        }
        assert(raw.take(1) =~= "\n"@);
        assert(raw.skip(1) =~= body);
        assert(drop_leading_newline(raw) == body);
        lemma_lines_of_body(ps, indent);
        let f = |p: Seq<char>| indented(p, indent);
        let tail = if indent.len() > 0 {
            seq![indent]
        } else {
            Seq::<Seq<char>>::empty()
        };
        let ls = ps.map_values(f) + tail;
        assert(lines(body) == ls);
        let k: nat = indent.len() + 4;
        // The least indentation is the added indent: some line of the value
        // starts with a non-space.
        let j = choose|j: int| 0 <= j < ps.len() && (#[trigger] ps[j]).len() > 0 && !is_ws(ps[j][0]);
        assert(lead(ps[j]) == 0);
        assert(!blank(ps[j]));
        lemma_min_indent_at_most(ps, j);
        lemma_min_indent_indented(ps, indent);
        assert(min_indent(ps.map_values(f)) == Some(k));
        if indent.len() > 0 {
            lemma_blank_spaces(indent);
            assert(ls.drop_last() =~= ps.map_values(f));
            assert(ls.last() == indent);
        } else {
            assert(ls =~= ps.map_values(f));
        }
        assert(min_indent(ls) == Some(k));
        let d = |l: Seq<char>| dedent(l, k);
        assert(ps.map_values(f).map_values(d) =~= ps) by {
            reveal_strlit("    ");
            assert forall|i: int| 0 <= i < ps.len() implies ps.map_values(f).map_values(d)[i] == ps[i] by {
                let p = ps[i];
                if p.len() > 0 {
                    assert(indented(p, indent).skip(k as int) =~= p);
                } else {
                    assert(dedent(Seq::<char>::empty(), k) =~= p);
                }
            }
        }
        if indent.len() > 0 {
            assert(ls.map_values(d) =~= ps + seq![Seq::<char>::empty()]);
            assert(join(ps + seq![Seq::<char>::empty()], "\n"@) =~= join(ps, "\n"@) + "\n"@) by {
                let all = ps + seq![Seq::<char>::empty()];
                assert(all.drop_last() =~= ps);
            }
        } else {
            assert(ls.map_values(d) =~= ps);
        }
        lemma_trim_end_newline(value);
    } else {
        assert(literal_text(value, indent) =~= "r"@ + h + "\""@ + literal_value(value, indent) + "\""@ + h);
        lemma_trim_end_newline(value);
        // One line, and no line break to open it: only trailing whitespace
        // goes, and there is none.
        if value.len() > 0 {
            lemma_first_index_none(value, '\n');
            assert(value[0] != '\n');
            if starts_with(value, "\r\n"@) {
                assert(value.take(2)[1] == value[1]);
                assert(("\r\n"@)[1] == '\n');
            }
            if starts_with(value, "\n"@) {
                assert(value.take(1)[0] == value[0]);
                assert(("\n"@)[0] == '\n');
            }
            assert(lines(value) == seq![value]);
        } else {
            assert(lines(value) =~= Seq::<Seq<char>>::empty());
        }
        assert(!has_leading_newline(value));
    }
}

} // verus!

verus! {

/// The update-then-accept cycle converges: a run in update mode that finds
/// `actual` differing from a call's literal records a patch; reading that
/// patch back gives the call and the value as it was compared; and the
/// literal the accept step writes for that value normalizes to it, so the
/// next comparison of the same `actual` passes. This holds for every value
/// normalization cannot change (see [`lemma_literal_round_trip`]).
pub proof fn lemma_accepted_snapshot_passes(
    file: Seq<char>,
    line: u32,
    column: u32,
    actual: Seq<char>,
    indent: Seq<char>,
)
    requires
        forall|i: int| 0 <= i < file.len() ==> file[i] != '\n',
        spaces_and_tabs(indent),
        drop_trailing_newline(actual).len() == 0 || !is_ws(drop_trailing_newline(actual).last()),
        forall|j: int| 0 <= j < split_pieces(drop_trailing_newline(actual)).len() ==> (#[trigger] split_pieces(
            drop_trailing_newline(actual),
        )[j]).len() == 0 || split_pieces(drop_trailing_newline(actual))[j].last() != '\r',
        first_index(drop_trailing_newline(actual), '\n') >= 0 ==> exists|j: int| 0 <= j < split_pieces(
            drop_trailing_newline(actual),
        ).len() && (#[trigger] split_pieces(drop_trailing_newline(actual))[j]).len() > 0 && !is_ws(
            split_pieces(drop_trailing_newline(actual))[j][0],
        ),
    ensures
        patch_parse(patch_text(file, line, column, drop_trailing_newline(actual))) == Ok::<
            (Seq<char>, u32, u32, Seq<char>),
            PatchError,
        >((file, line, column, drop_trailing_newline(actual))),
        normalized(literal_value(drop_trailing_newline(actual), indent)) == drop_trailing_newline(actual),
{
    lemma_patch_round_trip(file, line, column, drop_trailing_newline(actual));
    lemma_literal_round_trip(drop_trailing_newline(actual), indent);
}

} // verus!
