//! Reading a `cargo test` run: the progress and result lines it prints, the
//! structured failure markers a failing test leaves, and the report they
//! make when grouped by context.

use vstd::prelude::*;
use vstd::wrapping::usize_specs::wrapping_add;

use crate::inline::{is_ws, is_ws_char, lead, lead_of, tail_from, trim_end, digits_value, all_digits};
use crate::equality::Equate;
use crate::show::{decimal, digit_char};
use crate::structured::StructuredError;
use crate::text::{chars_of, ends_with, first_index, has_prefix, has_substring, has_suffix, find_substring, lemma_first_index, lemma_first_index_is, lemma_first_index_none, starts_with, string_of};

verus! {

/// The environment variable that tells a test binary a runner is reading its
/// output.
pub const RUNNER_ENV: &'static str = "TEST_BETTER_RUNNER";

/// The text that opens and closes a structured failure marker line.
pub const STRUCTURED_MARKER: &'static str = "@@test-better-structured-error-v1@@";

/// `s` without its leading whitespace.
pub open spec fn trim_start(s: Seq<char>) -> Seq<char> {
    s.skip(lead(s) as int)
}

/// `s` without leading or trailing whitespace.
pub open spec fn trim(s: Seq<char>) -> Seq<char> {
    trim_end(trim_start(s))
}

/// `s` without its trailing whitespace.
pub fn trim_end_chars(s: &Vec<char>) -> (out: Vec<char>)
    ensures
        out@ == trim_end(s@),
{
    let mut end: usize = s.len();
    assert(s@.take(end as int) =~= s@);
    while end > 0 && is_ws_char(s[end - 1])
        invariant
            end <= s@.len(),
            trim_end(s@) == trim_end(s@.take(end as int)),
        decreases end,
    {
        proof {
            assert(s@.take(end as int).drop_last() =~= s@.take(end - 1));
        }
        end = end - 1;
    }
    let mut out: Vec<char> = Vec::new();
    let mut m: usize = 0;
    while m < end
        invariant
            m <= end <= s@.len(),
            out@ == s@.take(m as int),
        decreases end - m,
    {
        out.push(s[m]);
        assert(out@ =~= s@.take(m + 1));
        m = m + 1;
    }
    proof {
        let t = s@.take(end as int);
        assert(out@ =~= t);
        if end > 0 {
            assert(t.last() == s@[end - 1]);
        }
    }
    out
}

/// `s` without leading or trailing whitespace.
pub fn trim_chars(s: &Vec<char>) -> (out: Vec<char>)
    ensures
        out@ == trim(s@),
{
    let n = lead_of(s);
    proof {
        lemma_lead_le(s@);
    }
    let rest = tail_from(s, n);
    trim_end_chars(&rest)
}

proof fn lemma_lead_le(s: Seq<char>)
    ensures
        lead(s) <= s.len(),
    decreases s.len(),
{
    if s.len() > 0 && is_ws(s[0]) {
        lemma_lead_le(s.skip(1));
    }
}

/// The value of an optional `+` and one or more decimal digits, as
/// `str::parse` reads an unsigned number.
pub open spec fn number_of(s: Seq<char>) -> Option<nat> {
    let d = if s.len() > 0 && s[0] == '+' {
        s.skip(1)
    } else {
        s
    };
    if d.len() > 0 && all_digits(d) {
        Some(digits_value(d))
    } else {
        None
    }
}

/// What `usize::from_str` reads from `s`.
pub open spec fn usize_of(s: Seq<char>) -> Option<usize> {
    match number_of(s) {
        Some(v) => if v <= usize::MAX {
            Some(v as usize)
        } else {
            None
        },
        None => None,
    }
}

proof fn lemma_digits_prefix_le(d: Seq<char>, k: int)
    requires
        0 <= k <= d.len(),
        all_digits(d),
    ensures
        digits_value(d.take(k)) <= digits_value(d),
    decreases d.len() - k,
{
    if k < d.len() {
        lemma_digits_prefix_le(d, k + 1);
        assert(d.take(k + 1).drop_last() =~= d.take(k));
    } else {
        assert(d.take(k) =~= d);
    }
}

/// The decimal digits of `n` read back as `n`.
proof fn lemma_decimal_digits(n: nat)
    ensures
        decimal(n).len() > 0,
        all_digits(decimal(n)),
        digits_value(decimal(n)) == n,
    decreases n,
{
    let d = decimal(n);
    let k = if n < 10 { n } else { n % 10 };
    assert(digit_char(k) as int == k + 48);
    if n < 10 {
        assert(d.drop_last() =~= Seq::<char>::empty());
        assert(digits_value(d) == 10 * digits_value(d.drop_last()) + ((d.last() as int - '0' as int) as nat));
    } else {
        lemma_decimal_digits(n / 10);
        assert(d.drop_last() =~= decimal(n / 10));
        assert(d.last() == digit_char(n % 10));
        assert forall|i: int| 0 <= i < d.len() implies '0' <= #[trigger] d[i] <= '9' by {
            if i < d.len() - 1 {
                assert(d[i] == decimal(n / 10)[i]);
            }
        }
    }
}

/// A count reads back as the number it was written from: the decimal digits
/// of `n`, with or without a leading `+` or leading zeros, give `n`, and a
/// count that fits in a `usize` gives that `usize`.
pub proof fn lemma_count_round_trip(n: nat, zeros: nat)
    ensures
        number_of(decimal(n)) == Some(n),
        number_of(seq!['+'] + decimal(n)) == Some(n),
        number_of(Seq::new(zeros, |i: int| '0') + decimal(n)) == Some(n),
        n <= usize::MAX ==> usize_of(decimal(n)) == Some(n as usize),
    decreases zeros,
{
    lemma_decimal_digits(n);
    assert((seq!['+'] + decimal(n)).skip(1) =~= decimal(n));
    let z = Seq::new(zeros, |i: int| '0');
    let d = z + decimal(n);
    if zeros > 0 {
        lemma_count_round_trip(n, (zeros - 1) as nat);
        let d1 = Seq::new((zeros - 1) as nat, |i: int| '0') + decimal(n);
        assert(d =~= seq!['0'] + d1);
        lemma_leading_zero(d1);
    } else {
        assert(d =~= decimal(n));
    }
}

/// Only a run of decimal digits, after an optional `+`, is read as a count:
/// any other character anywhere makes it no count at all.
pub proof fn lemma_count_only_digits(s: Seq<char>, i: int)
    requires
        0 <= i < s.len(),
        !('0' <= s[i] <= '9'),
        !(i == 0 && s[0] == '+'),
    ensures
        number_of(s) is None,
{
    if s.len() > 0 && s[0] == '+' {
        assert(s.skip(1)[i - 1] == s[i]);
    }
}

/// A leading zero does not change the value of a run of digits.
proof fn lemma_leading_zero(d: Seq<char>)
    requires
        all_digits(d),
    ensures
        digits_value(seq!['0'] + d) == digits_value(d),
    decreases d.len(),
{
    let e = seq!['0'] + d;
    if d.len() == 0 {
        assert(e.drop_last() =~= Seq::<char>::empty());
        assert(e.last() == '0');
        assert(digits_value(e) == 10 * digits_value(e.drop_last()) + ((e.last() as int - '0' as int) as nat));
    } else {
        assert(e.drop_last() =~= seq!['0'] + d.drop_last());
        assert(e.last() == d.last());
        lemma_leading_zero(d.drop_last());
        assert(digits_value(e) == 10 * digits_value(e.drop_last()) + ((e.last() as int - '0' as int) as nat));
    }
}

/// Reads a `usize` the way `usize::from_str` does.
pub fn parse_usize(s: &Vec<char>) -> (r: Option<usize>)
    ensures
        r == usize_of(s@),
{
    let start: usize = if s.len() > 0 && s[0] == '+' {
        1
    } else {
        0
    };
    let ghost d = if s@.len() > 0 && s@[0] == '+' {
        s@.skip(1)
    } else {
        s@
    };
    assert(d == s@.skip(start as int)) by {
        if start == 0 {
            assert(s@.skip(0) =~= s@);
        }
    }
    if start == s.len() {
        return None;
    }
    let mut value: usize = 0;
    let mut i: usize = start;
    while i < s.len()
        invariant
            start <= i <= s@.len(),
            start < s@.len(),
            d == s@.skip(start as int),
            d == (if s@.len() > 0 && s@[0] == '+' {
                s@.skip(1)
            } else {
                s@
            }),
            all_digits(d.take(i - start)),
            value == digits_value(d.take(i - start)),
        decreases s.len() - i,
    {
        let c = s[i];
        if !('0' <= c && c <= '9') {
            assert(d[i - start] == c);
            return None;
        }
        let digit: usize = (c as u32 - '0' as u32) as usize;
        proof {
            let t = d.take(i - start + 1);
            assert(t.drop_last() =~= d.take(i - start));
            assert(t.last() == c);
        }
        let next = match value.checked_mul(10) {
            Some(v) => v.checked_add(digit),
            None => None,
        };
        match next {
            None => {
                proof {
                    if all_digits(d) {
                        lemma_digits_prefix_le(d, i - start + 1);
                    }
                }
                return None;
            },
            Some(v) => {
                value = v;
            },
        }
        i = i + 1;
    }
    assert(d.take(s@.len() - start) =~= d);
    Some(value)
}

/// The first piece of `s` before `c`, as `split(c).next()` gives it.
pub open spec fn first_piece(s: Seq<char>, c: char) -> Seq<char> {
    let i = first_index(s, c);
    if i < 0 {
        s
    } else {
        s.take(i)
    }
}

/// The position of the last `c` in `s`, or `-1`.
pub open spec fn last_index(s: Seq<char>, c: char) -> int
    decreases s.len(),
{
    if s.len() == 0 {
        -1
    } else if s.last() == c {
        s.len() - 1
    } else {
        last_index(s.drop_last(), c)
    }
}

/// The last piece of `s` after `c`, as `rsplit(c).next()` gives it.
pub open spec fn last_piece(s: Seq<char>, c: char) -> Seq<char> {
    let i = last_index(s, c);
    if i < 0 {
        s
    } else {
        s.skip(i + 1)
    }
}

/// The piece of `s` before the first `c`.
fn first_piece_of(s: &Vec<char>, c: char) -> (out: Vec<char>)
    ensures
        out@ == first_piece(s@, c),
{
    proof {
        lemma_first_index(s@, c);
    }
    let mut out: Vec<char> = Vec::new();
    let mut i: usize = 0;
    while i < s.len() && s[i] != c
        invariant
            i <= s@.len(),
            out@ == s@.take(i as int),
            forall|j: int| 0 <= j < i ==> s@[j] != c,
        decreases s.len() - i,
    {
        out.push(s[i]);
        assert(out@ =~= s@.take(i + 1));
        i = i + 1;
    }
    proof {
        if i < s@.len() {
            lemma_first_index_is(s@, c, i as int);
        } else {
            lemma_first_index_none(s@, c);
            assert(out@ =~= s@);
        }
    }
    out
}

/// The piece of `s` after the last `c`.
fn last_piece_of(s: &Vec<char>, c: char) -> (out: Vec<char>)
    ensures
        out@ == last_piece(s@, c),
{
    let mut i: usize = s.len();
    assert(s@.take(i as int) =~= s@);
    while i > 0 && s[i - 1] != c
        invariant
            i <= s@.len(),
            last_index(s@, c) == last_index(s@.take(i as int), c),
        decreases i,
    {
        proof {
            assert(s@.take(i as int).drop_last() =~= s@.take(i - 1));
            assert(s@.take(i as int).last() == s@[i - 1]);
        }
        i = i - 1;
    }
    proof {
        if i > 0 {
            assert(s@.take(i as int).last() == s@[i - 1]);
            assert(last_index(s@.take(i as int), c) == i - 1);
        } else {
            assert(s@.take(0) =~= Seq::<char>::empty());
        }
    }
    tail_from(s, i)
}

/// The argument cargo passes first to an external subcommand.
pub const SUBCOMMAND: &'static str = "test-better";

/// The arguments of the wrapped `cargo test`: `test`, then the runner's own
/// arguments without a leading `test-better`.
pub open spec fn test_args_of(args: Seq<Seq<char>>) -> Seq<Seq<char>> {
    seq!["test"@] + if args.len() > 0 && args[0] == SUBCOMMAND@ {
        args.skip(1)
    } else {
        args
    }
}

/// The arguments to run `cargo` with.
pub fn test_args(args: Vec<String>) -> (out: Vec<String>)
    ensures
        texts(out@) == test_args_of(texts(args@)),
{
    let ghost given = texts(args@);
    let mut rest = args;
    if rest.len() > 0 && rest[0].as_str().equals(SUBCOMMAND) {
        rest.remove(0);
        assert(texts(rest@) =~= given.skip(1));
    }
    let mut out: Vec<String> = Vec::new();
    out.push(String::from_str("test"));
    out.append(&mut rest);
    proof {
        reveal_strlit("test");
    }
    assert(texts(out@) =~= test_args_of(given));
    out
}

/// What a progress line reports.
#[derive(PartialEq, Eq, Structural, Clone, Copy, Debug)]
pub enum ProgressEvent {
    /// A test binary announced how many tests it will run.
    Discovered(usize),
    /// One test finished.
    Completed,
}

/// The progress event a line of `cargo test` output reports, if any:
/// `running N tests` announces `N`, and `test <name> ... <outcome>` (but not
/// the `test result:` line) is one finished test.
pub open spec fn progress_of(line: Seq<char>) -> Option<ProgressEvent> {
    let t = trim(line);
    if starts_with(t, "running "@) {
        match usize_of(first_piece(t.skip(8), ' ')) {
            Some(n) => Some(ProgressEvent::Discovered(n)),
            None => None,
        }
    } else if starts_with(t, "test "@) && !starts_with(t, "test result:"@) && has_substring(
        t,
        " ... "@,
    ) {
        Some(ProgressEvent::Completed)
    } else {
        None
    }
}

/// The progress event a line reports, if any.
pub fn progress_event(line: &str) -> (r: Option<ProgressEvent>)
    ensures
        r == progress_of(line@),
{
    let t = trim_chars(&chars_of(line));
    proof {
        reveal_strlit("running ");
        reveal_strlit("test ");
        reveal_strlit("test result:");
        reveal_strlit(" ... ");
    }
    if has_prefix(&t, &chars_of("running ")) {
        let rest = tail_from(&t, 8);
        let count = parse_usize(&first_piece_of(&rest, ' '));
        return match count {
            Some(n) => Some(ProgressEvent::Discovered(n)),
            None => None,
        };
    }
    if has_prefix(&t, &chars_of("test ")) && !has_prefix(&t, &chars_of("test result:"))
        && find_substring(&t, &chars_of(" ... ")) {
        return Some(ProgressEvent::Completed);
    }
    None
}

/// The text between `prefix` and `suffix` when `s` is wrapped in them.
pub open spec fn unwrap_between(s: Seq<char>, prefix: Seq<char>, suffix: Seq<char>) -> Option<Seq<char>> {
    if starts_with(s, prefix) && ends_with(s.skip(prefix.len() as int), suffix) {
        let rest = s.skip(prefix.len() as int);
        Some(rest.take(rest.len() - suffix.len()))
    } else {
        None
    }
}

/// The text between `prefix` and `suffix` when `s` is wrapped in them.
fn unwrap_chars(s: &Vec<char>, prefix: &str, suffix: &str) -> (r: Option<Vec<char>>)
    ensures
        match unwrap_between(s@, prefix@, suffix@) {
            Some(t) => r matches Some(v) && v@ == t,
            None => r is None,
        },
{
    let p = chars_of(prefix);
    let q = chars_of(suffix);
    if !has_prefix(s, &p) {
        return None;
    }
    let rest = tail_from(s, p.len());
    if !has_suffix(&rest, &q) {
        return None;
    }
    let mut out: Vec<char> = Vec::new();
    let mut i: usize = 0;
    let n = rest.len() - q.len();
    while i < n
        invariant
            i <= n <= rest@.len(),
            out@ == rest@.take(i as int),
        decreases n - i,
    {
        out.push(rest[i]);
        assert(out@ =~= rest@.take(i + 1));
        i = i + 1;
    }
    Some(out)
}

/// The name in a `---- <name> stdout ----` section header.
pub open spec fn header_of(line: Seq<char>) -> Option<Seq<char>> {
    unwrap_between(line, "---- "@, " stdout ----"@)
}

/// The test name a `---- <name> stdout ----` line opens a section for.
pub fn test_section_header(line: &str) -> (r: Option<String>)
    ensures
        match header_of(line@) {
            Some(t) => r matches Some(v) && v@ == t,
            None => r is None,
        },
{
    match unwrap_chars(&chars_of(line), "---- ", " stdout ----") {
        Some(v) => Some(string_of(&v)),
        None => None,
    }
}

/// The payload of a structured failure marker line: the trimmed line's text
/// between two markers.
pub open spec fn marker_of(line: Seq<char>) -> Option<Seq<char>> {
    unwrap_between(trim(line), STRUCTURED_MARKER@, STRUCTURED_MARKER@)
}

/// The payload of a structured failure marker line, if the line is one.
pub fn marker_payload(line: &str) -> (r: Option<String>)
    ensures
        match marker_of(line@) {
            Some(t) => r matches Some(v) && v@ == t,
            None => r is None,
        },
{
    let t = trim_chars(&chars_of(line));
    match unwrap_chars(&t, STRUCTURED_MARKER, STRUCTURED_MARKER) {
        Some(v) => Some(string_of(&v)),
        None => None,
    }
}

/// The marker line that carries `payload` on the structured channel.
pub open spec fn marker_line_of(payload: Seq<char>) -> Seq<char> {
    STRUCTURED_MARKER@ + payload + STRUCTURED_MARKER@
}

/// The marker line that carries `payload`, as a failing test writes it.
pub fn marker_line(payload: &str) -> (line: String)
    ensures
        line@ == marker_line_of(payload@),
{
    let mut out = chars_of(STRUCTURED_MARKER);
    crate::text::push_str(&mut out, payload);
    crate::text::push_str(&mut out, STRUCTURED_MARKER);
    assert(out@ =~= marker_line_of(payload@));
    string_of(&out)
}

/// What a failing test writes on the structured channel, the runner reads
/// back: the payload of a marker line is exactly the payload it was written
/// with, whatever that payload is.
pub proof fn lemma_marker_round_trip(payload: Seq<char>)
    ensures
        marker_of(marker_line_of(payload)) == Some(payload),
{
    reveal_strlit("@@test-better-structured-error-v1@@");
    let m = STRUCTURED_MARKER@;
    let line = marker_line_of(payload);
    assert(m[0] == '@' && m.last() == '@');
    assert(line[0] == '@');
    assert(line.last() == '@');
    assert(!is_ws(line[0]));
    assert(lead(line) == 0);
    assert(line.skip(0) =~= line);
    assert(trim_start(line) == line);
    assert(!is_ws(line.last()));
    assert(trim_end(line) == line);
    assert(line.take(m.len() as int) =~= m);
    let rest = line.skip(m.len() as int);
    assert(rest =~= payload + m);
    assert(rest.skip(rest.len() - m.len()) =~= m);
    assert(rest.take(rest.len() - m.len()) =~= payload);
}

/// The count a `; N label` segment of a result line reports: the last word
/// before `label` at the end of the trimmed segment, read as a `usize`.
pub open spec fn segment_count_of(segment: Seq<char>, label: Seq<char>) -> Option<usize> {
    let t = trim(segment);
    if ends_with(t, label) {
        usize_of(last_piece(trim_end(t.take(t.len() - label.len())), ' '))
    } else {
        None
    }
}

/// The count a result line segment reports for `label`.
pub fn segment_count(segment: &str, label: &str) -> (r: Option<usize>)
    ensures
        r == segment_count_of(segment@, label@),
{
    let t = trim_chars(&chars_of(segment));
    let l = chars_of(label);
    if !has_suffix(&t, &l) {
        return None;
    }
    let mut head: Vec<char> = Vec::new();
    let n = t.len() - l.len();
    let mut i: usize = 0;
    while i < n
        invariant
            i <= n <= t@.len(),
            head@ == t@.take(i as int),
        decreases n - i,
    {
        head.push(t[i]);
        assert(head@ =~= t@.take(i + 1));
        i = i + 1;
    }
    let word = last_piece_of(&trim_end_chars(&head), ' ');
    parse_usize(&word)
}

/// Counts from a `test result:` line.
#[derive(PartialEq, Eq, Structural, Clone, Copy, Debug)]
pub struct RunSummary {
    pub passed: usize,
    pub failed: usize,
    pub ignored: usize,
    pub measured: usize,
    pub filtered_out: usize,
}

/// All counts zero.
pub open spec fn zero_summary() -> RunSummary {
    RunSummary { passed: 0, failed: 0, ignored: 0, measured: 0, filtered_out: 0 }
}

impl Default for RunSummary {
    fn default() -> (s: RunSummary)
        ensures
            s == zero_summary(),
    {
        RunSummary { passed: 0, failed: 0, ignored: 0, measured: 0, filtered_out: 0 }
    }
}

/// The pieces of `s` between `c`s, as `str::split(c)` yields them.
pub open spec fn split_on(s: Seq<char>, c: char) -> Seq<Seq<char>>
    decreases s.len(),
{
    let i = first_index(s, c);
    if i < 0 {
        seq![s]
    } else {
        proof {
            lemma_first_index(s, c);
        }
        seq![s.take(i)] + split_on(s.skip(i + 1), c)
    }
}

/// One segment's contribution: the first of the labels, in order, whose
/// count it reports sets that field.
pub open spec fn apply_segment(acc: (RunSummary, bool), segment: Seq<char>) -> (RunSummary, bool) {
    let (s, matched) = acc;
    match segment_count_of(segment, "passed"@) {
        Some(n) => (RunSummary { passed: n, ..s }, true),
        None => match segment_count_of(segment, "failed"@) {
            Some(n) => (RunSummary { failed: n, ..s }, true),
            None => match segment_count_of(segment, "ignored"@) {
                Some(n) => (RunSummary { ignored: n, ..s }, true),
                None => match segment_count_of(segment, "measured"@) {
                    Some(n) => (RunSummary { measured: n, ..s }, true),
                    None => match segment_count_of(segment, "filtered out"@) {
                        Some(n) => (RunSummary { filtered_out: n, ..s }, true),
                        None => (s, matched),
                    },
                },
            },
        },
    }
}

/// The segments applied in order.
pub open spec fn apply_segments(segments: Seq<Seq<char>>) -> (RunSummary, bool)
    decreases segments.len(),
{
    if segments.len() == 0 {
        (zero_summary(), false)
    } else {
        apply_segment(apply_segments(segments.drop_last()), segments.last())
    }
}

/// The counts a `test result:` line reports, if it is one and reports any.
pub open spec fn result_of(line: Seq<char>) -> Option<RunSummary> {
    let t = trim(line);
    if !starts_with(t, "test result:"@) {
        None
    } else {
        let (s, matched) = apply_segments(split_on(t, ';'));
        if matched {
            Some(s)
        } else {
            None
        }
    }
}

/// Splits `s` at each `c`.
fn split_chars(s: &Vec<char>, c: char) -> (out: Vec<Vec<char>>)
    ensures
        out@.len() == split_on(s@, c).len(),
        forall|i: int| 0 <= i < out@.len() ==> #[trigger] out@[i]@ == split_on(s@, c)[i],
{
    let mut out: Vec<Vec<char>> = Vec::new();
    let mut cur: Vec<char> = Vec::new();
    let mut start: usize = 0;
    let mut i: usize = 0;
    assert(s@.skip(0) =~= s@);
    assert(Seq::new(0 as nat, |k: int| out@[k]@) + split_on(s@, c) =~= split_on(s@, c));
    while i < s.len()
        invariant
            start <= i <= s@.len(),
            cur@ == s@.subrange(start as int, i as int),
            forall|j: int| start <= j < i ==> s@[j] != c,
            split_on(s@, c) =~= Seq::new(out@.len() as nat, |k: int| out@[k]@) + split_on(s@.skip(start as int), c),
        decreases s.len() - i,
    {
        if s[i] == c {
            proof {
                let t = s@.skip(start as int);
                assert forall|j: int| 0 <= j < i - start implies t[j] != c by {
                    assert(t[j] == s@[start + j]);
                }
                lemma_first_index_is(t, c, i - start);
                assert(t.take(i - start) =~= cur@);
                assert(t.skip(i - start + 1) =~= s@.skip(i + 1));
            }
            let ghost before = out@;
            out.push(cur);
            cur = Vec::new();
            start = i + 1;
            proof {
                assert(Seq::new(out@.len() as nat, |k: int| out@[k]@) =~= Seq::new(before.len() as nat, |k: int| before[k]@).push(out@[out@.len() - 1]@));
            }
        } else {
            cur.push(s[i]);
            assert(cur@ =~= s@.subrange(start as int, i + 1));
        }
        i = i + 1;
    }
    proof {
        let t = s@.skip(start as int);
        assert forall|j: int| 0 <= j < t.len() implies t[j] != c by {
            assert(t[j] == s@[start + j]);
        }
        lemma_first_index_none(t, c);
        assert(t =~= cur@);
    }
    let ghost before = out@;
    out.push(cur);
    proof {
        assert(Seq::new(out@.len() as nat, |k: int| out@[k]@) =~= Seq::new(before.len() as nat, |k: int| before[k]@).push(out@[out@.len() - 1]@));
        assert(split_on(s@, c) =~= Seq::new(out@.len() as nat, |k: int| out@[k]@));
        assert forall|i: int| 0 <= i < out@.len() implies #[trigger] out@[i]@ == split_on(s@, c)[i] by {
            assert(Seq::new(out@.len() as nat, |k: int| out@[k]@)[i] == out@[i]@);
        }
    }
    out
}

/// The counts a `test result:` line reports.
pub fn parse_result_line(line: &str) -> (r: Option<RunSummary>)
    ensures
        r == result_of(line@),
{
    let t = trim_chars(&chars_of(line));
    proof {
        reveal_strlit("test result:");
        reveal_strlit("passed");
        reveal_strlit("failed");
        reveal_strlit("ignored");
        reveal_strlit("measured");
        reveal_strlit("filtered out");
    }
    if !has_prefix(&t, &chars_of("test result:")) {
        return None;
    }
    let segments = split_chars(&t, ';');
    let ghost all = split_on(t@, ';');
    let mut summary = RunSummary::default();
    let mut matched = false;
    let mut i: usize = 0;
    while i < segments.len()
        invariant
            i <= segments@.len(),
            segments@.len() == all.len(),
            forall|j: int| 0 <= j < segments@.len() ==> #[trigger] segments@[j]@ == all[j],
            (summary, matched) == apply_segments(all.take(i as int)),
        decreases segments.len() - i,
    {
        let seg = string_of(&segments[i]);
        proof {
            let t = all.take(i + 1);
            assert(t.drop_last() =~= all.take(i as int));
            assert(t.last() == seg@);
        }
        match segment_count(seg.as_str(), "passed") {
            Some(n) => {
                summary.passed = n;
                matched = true;
            },
            None => match segment_count(seg.as_str(), "failed") {
                Some(n) => {
                    summary.failed = n;
                    matched = true;
                },
                None => match segment_count(seg.as_str(), "ignored") {
                    Some(n) => {
                        summary.ignored = n;
                        matched = true;
                    },
                    None => match segment_count(seg.as_str(), "measured") {
                        Some(n) => {
                            summary.measured = n;
                            matched = true;
                        },
                        None => match segment_count(seg.as_str(), "filtered out") {
                            Some(n) => {
                                summary.filtered_out = n;
                                matched = true;
                            },
                            None => {},
                        },
                    },
                },
            },
        }
        i = i + 1;
    }
    assert(all.take(segments@.len() as int) =~= all);
    if matched {
        Some(summary)
    } else {
        None
    }
}

/// The counts of two summaries added field by field, wrapping as `usize`
/// addition does.
pub open spec fn summed(a: RunSummary, b: RunSummary) -> RunSummary {
    RunSummary {
        passed: wrapping_add(a.passed, b.passed),
        failed: wrapping_add(a.failed, b.failed),
        ignored: wrapping_add(a.ignored, b.ignored),
        measured: wrapping_add(a.measured, b.measured),
        filtered_out: wrapping_add(a.filtered_out, b.filtered_out),
    }
}

impl RunSummary {
    /// The counts of `self` and `other` added field by field.
    pub fn add(self, other: RunSummary) -> (s: RunSummary)
        ensures
            s == summed(self, other),
    {
        RunSummary {
            passed: self.passed.wrapping_add(other.passed),
            failed: self.failed.wrapping_add(other.failed),
            ignored: self.ignored.wrapping_add(other.ignored),
            measured: self.measured.wrapping_add(other.measured),
            filtered_out: self.filtered_out.wrapping_add(other.filtered_out),
        }
    }
}

/// The group a failure with no context frame goes to.
pub const NO_CONTEXT: &'static str = "(no context)";

/// A failing test and the structured failure it reported.
pub struct StructuredFailure {
    pub test: String,
    pub error: StructuredError,
}

/// The failures whose outermost context frame is `context`.
pub struct ContextGroup {
    pub context: String,
    pub failures: Vec<StructuredFailure>,
}

/// The report of a run: failures grouped by context, the failed tests that
/// left no structured failure, and the summed counts.
pub struct GroupedReport {
    pub groups: Vec<ContextGroup>,
    pub unstructured: Vec<String>,
    pub summary: RunSummary,
}

/// The outermost context frame's message, or `(no context)`.
pub open spec fn context_key(f: StructuredFailure) -> Seq<char> {
    if f.error.context@.len() > 0 {
        f.error.context@[0].message@
    } else {
        NO_CONTEXT@
    }
}

/// The position of the group keyed `key`, if there is one.
pub open spec fn key_index(groups: Seq<(Seq<char>, Seq<StructuredFailure>)>, key: Seq<char>) -> Option<int>
    decreases groups.len(),
{
    if groups.len() == 0 {
        None
    } else {
        match key_index(groups.drop_last(), key) {
            Some(i) => Some(i),
            None => if groups.last().0 == key {
                Some(groups.len() - 1)
            } else {
                None
            },
        }
    }
}

/// The failures grouped by outermost context: one group per context, in the
/// order the contexts first appear, each keeping its failures' order.
pub open spec fn grouped_failures(items: Seq<StructuredFailure>) -> Seq<(Seq<char>, Seq<StructuredFailure>)>
    decreases items.len(),
{
    if items.len() == 0 {
        Seq::empty()
    } else {
        let g = grouped_failures(items.drop_last());
        let f = items.last();
        let key = context_key(f);
        match key_index(g, key) {
            Some(i) => g.update(i, (g[i].0, g[i].1.push(f))),
            None => g.push((key, seq![f])),
        }
    }
}

/// The plain view of context groups.
pub open spec fn context_groups_view(groups: Seq<ContextGroup>) -> Seq<(Seq<char>, Seq<StructuredFailure>)> {
    groups.map_values(|g: ContextGroup| (g.context@, g.failures@))
}

proof fn lemma_key_index_range(groups: Seq<(Seq<char>, Seq<StructuredFailure>)>, key: Seq<char>)
    ensures
        key_index(groups, key) matches Some(i) ==> 0 <= i < groups.len() && groups[i].0 == key,
        key_index(groups, key) is None ==> forall|j: int| 0 <= j < groups.len() ==> groups[j].0 != key,
        key_index(groups, key) matches Some(i) ==> forall|j: int| 0 <= j < i ==> groups[j].0 != key,
    decreases groups.len(),
{
    if groups.len() > 0 {
        let d = groups.drop_last();
        lemma_key_index_range(d, key);
        assert forall|j: int| 0 <= j < d.len() implies d[j] == groups[j] by {}
    }
}

/// The failures of `items` whose outermost context is `key`, in order.
pub open spec fn keyed(items: Seq<StructuredFailure>, key: Seq<char>) -> Seq<StructuredFailure> {
    items.filter(|f: StructuredFailure| context_key(f) == key)
}

proof fn lemma_keyed_push(d: Seq<StructuredFailure>, f: StructuredFailure, key: Seq<char>)
    ensures
        keyed(d.push(f), key) == if context_key(f) == key {
            keyed(d, key).push(f)
        } else {
            keyed(d, key)
        },
{
    reveal(Seq::filter);
    assert(d.push(f).drop_last() =~= d);
}

/// Grouping by context loses nothing, duplicates nothing and keeps the scan
/// order: each group holds exactly the failures with its context, in the
/// order they were scanned; no two groups share a context; and every failure
/// has a group.
pub proof fn lemma_grouping_partitions(items: Seq<StructuredFailure>)
    ensures
        forall|i: int| 0 <= i < grouped_failures(items).len() ==> (#[trigger] grouped_failures(items)[i]).1
            == keyed(items, grouped_failures(items)[i].0),
        forall|i: int, j: int| 0 <= i < j < grouped_failures(items).len() ==> (#[trigger] grouped_failures(items)[i]).0
            != (#[trigger] grouped_failures(items)[j]).0,
        forall|k: int| 0 <= k < items.len() ==> key_index(grouped_failures(items), context_key(#[trigger] items[k])) is Some,
    decreases items.len(),
{
    if items.len() == 0 {
        return;
    }
    let d = items.drop_last();
    let f = items.last();
    let key = context_key(f);
    assert(items =~= d.push(f));
    lemma_grouping_partitions(d);
    let g0 = grouped_failures(d);
    let g = grouped_failures(items);
    lemma_key_index_range(g0, key);
    assert forall|k: Seq<char>| #[trigger] keyed(items, k) == if key == k {
        keyed(d, k).push(f)
    } else {
        keyed(d, k)
    } by {
        lemma_keyed_push(d, f, k);
    }
    match key_index(g0, key) {
        Some(i) => {
            assert(g == g0.update(i, (g0[i].0, g0[i].1.push(f))));
            assert forall|j: int| 0 <= j < g.len() implies (#[trigger] g[j]).1 == keyed(items, g[j].0) by {
                if j != i {
                    assert(g[j] == g0[j]);
                    assert(g0[j].0 != key);
                }
            }
            assert forall|k: int| 0 <= k < items.len() implies key_index(g, context_key(#[trigger] items[k])) is Some by {
                let kk = context_key(items[k]);
                lemma_key_index_range(g, kk);
                if k < d.len() {
                    assert(items[k] == d[k]);
                    lemma_key_index_range(g0, kk);
                    let m = key_index(g0, kk).unwrap();
                    assert(g[m].0 == g0[m].0);
                } else {
                    assert(items[k] == f);
                    assert(g[i].0 == key);
                }
            }
        },
        None => {
            assert(g == g0.push((key, seq![f])));
            assert(keyed(d, key).len() == 0) by {
                if keyed(d, key).len() > 0 {
                    let x = keyed(d, key)[0];
                    d.lemma_filter_pred(|f: StructuredFailure| context_key(f) == key, 0);
                    assert(keyed(d, key).contains(x));
                    d.lemma_filter_contains_rev(|f: StructuredFailure| context_key(f) == key, x);
                    let k = choose|k: int| 0 <= k < d.len() && d[k] == x;
                    assert(key_index(g0, context_key(d[k])) is Some);
                }
            }
            assert(keyed(d, key).push(f) =~= seq![f]);
            assert forall|j: int| 0 <= j < g.len() implies (#[trigger] g[j]).1 == keyed(items, g[j].0) by {
                if j < g0.len() {
                    assert(g[j] == g0[j]);
                    assert(g0[j].0 != key);
                }
            }
            assert forall|k: int| 0 <= k < items.len() implies key_index(g, context_key(#[trigger] items[k])) is Some by {
                let kk = context_key(items[k]);
                lemma_key_index_range(g, kk);
                if k < d.len() {
                    assert(items[k] == d[k]);
                    lemma_key_index_range(g0, kk);
                    let m = key_index(g0, kk).unwrap();
                    assert(g[m].0 == g0[m].0);
                } else {
                    assert(items[k] == f);
                    assert(g[g.len() - 1].0 == key);
                }
            }
        },
    }
}

/// The outermost context frame's message, or `(no context)`.
fn context_of(f: &StructuredFailure) -> (key: String)
    ensures
        key@ == context_key(*f),
{
    if f.error.context.len() > 0 {
        f.error.context[0].message.clone()
    } else {
        String::from_str(NO_CONTEXT)
    }
}

/// The position of the group keyed `key`, if there is one.
fn find_context(groups: &Vec<ContextGroup>, key: &String) -> (r: Option<usize>)
    ensures
        match key_index(context_groups_view(groups@), key@) {
            Some(i) => r == Some(i as usize),
            None => r is None,
        },
{
    let ghost gv = context_groups_view(groups@);
    proof {
        lemma_key_index_range(gv, key@);
    }
    let mut i: usize = 0;
    while i < groups.len()
        invariant
            i <= groups@.len(),
            gv == context_groups_view(groups@),
            forall|j: int| 0 <= j < i ==> gv[j].0 != key@,
            key_index(gv, key@) matches Some(k) ==> 0 <= k < gv.len() && gv[k].0 == key@ && forall|j: int| 0 <= j < k ==> gv[j].0 != key@,
            key_index(gv, key@) is None ==> forall|j: int| 0 <= j < gv.len() ==> gv[j].0 != key@,
        decreases groups.len() - i,
    {
        if groups[i].context == *key {
            assert(gv[i as int].0 == key@);
            return Some(i);
        }
        i = i + 1;
    }
    None
}

/// Groups failures by their outermost context frame.
pub fn group(failures: Vec<StructuredFailure>) -> (groups: Vec<ContextGroup>)
    ensures
        context_groups_view(groups@) == grouped_failures(failures@),
{
    let ghost items = failures@;
    assert(items.len() == failures.len());
    let mut rest = failures;
    let mut groups: Vec<ContextGroup> = Vec::new();
    let mut i: usize = 0;
    assert(context_groups_view(groups@) =~= grouped_failures(items.take(0)));
    while rest.len() > 0
        invariant
            i <= items.len(),
            items.len() <= usize::MAX,
            rest@ == items.skip(i as int),
            context_groups_view(groups@) == grouped_failures(items.take(i as int)),
        decreases rest.len(),
    {
        let f = rest.remove(0);
        let ghost g = context_groups_view(groups@);
        proof {
            assert(f == items[i as int]);
            assert(rest@ =~= items.skip(i + 1));
            let t = items.take(i + 1);
            assert(t.drop_last() =~= items.take(i as int));
            assert(t.last() == f);
        }
        let key = context_of(&f);
        proof {
            lemma_key_index_range(g, key@);
        }
        match find_context(&groups, &key) {
            Some(j) => {
                proof {
                    let k = key_index(g, key@).unwrap();
                    assert(groups@.len() == groups.len());
                    assert(j as int == k);
                }
                let mut entry = groups.remove(j);
                entry.failures.push(f);
                groups.insert(j, entry);
                proof {
                    assert(context_groups_view(groups@) =~= g.update(j as int, (g[j as int].0, g[j as int].1.push(f))));
                }
            },
            None => {
                let mut fs: Vec<StructuredFailure> = Vec::new();
                fs.push(f);
                groups.push(ContextGroup { context: key, failures: fs });
                proof {
                    assert(context_groups_view(groups@) =~= g.push((context_key(f), seq![f])));
                }
            },
        }
        i = i + 1;
    }
    assert(items.take(i as int) =~= items);
    groups
}

/// What the scan of a run's output has gathered so far.
pub struct ScanState {
    /// The test whose output section is open.
    pub current: Option<Seq<char>>,
    /// The structured failures read, each with its test.
    pub structured: Seq<(Seq<char>, StructuredError)>,
    /// The tests that opened an output section, each once.
    pub sectioned: Seq<Seq<char>>,
    /// The tests a structured failure was read for.
    pub with_marker: Seq<Seq<char>>,
    /// The counts summed over every result line.
    pub summary: RunSummary,
}

/// Nothing gathered yet.
pub open spec fn empty_scan() -> ScanState {
    ScanState {
        current: None,
        structured: Seq::empty(),
        sectioned: Seq::empty(),
        with_marker: Seq::empty(),
        summary: zero_summary(),
    }
}

/// One line of output read: a marker line records the structured failure
/// `decoded` from its payload for the open test (when both are there) and is
/// not echoed; any other line may open a section or add a result line's
/// counts, and is echoed.
pub open spec fn scan_step(st: ScanState, line: Seq<char>, decoded: Option<StructuredError>) -> (ScanState, bool) {
    match marker_of(line) {
        Some(_) => (
            match (st.current, decoded) {
                (Some(t), Some(e)) => ScanState {
                    structured: st.structured.push((t, e)),
                    with_marker: st.with_marker.push(t),
                    ..st
                },
                _ => st,
            },
            false,
        ),
        None => {
            let opened = match header_of(line) {
                Some(name) => ScanState {
                    current: Some(name),
                    sectioned: if st.sectioned.contains(name) {
                        st.sectioned
                    } else {
                        st.sectioned.push(name)
                    },
                    ..st
                },
                None => st,
            };
            (
                match result_of(line) {
                    Some(counts) => ScanState { summary: summed(opened.summary, counts), ..opened },
                    None => opened,
                },
                true,
            )
        },
    }
}

/// The state after reading `lines` in order, the `i`th with `decoded[i]`.
pub open spec fn scan_all(lines: Seq<Seq<char>>, decoded: Seq<Option<StructuredError>>) -> ScanState
    decreases lines.len(),
{
    if lines.len() == 0 {
        empty_scan()
    } else {
        scan_step(
            scan_all(lines.drop_last(), decoded),
            lines.last(),
            if lines.len() - 1 < decoded.len() {
                decoded[lines.len() - 1]
            } else {
                None
            },
        ).0
    }
}

/// Reads a run's output line by line.
pub struct Scanner {
    current: Option<String>,
    structured: Vec<StructuredFailure>,
    sectioned: Vec<String>,
    with_marker: Vec<String>,
    summary: RunSummary,
}

/// The plain view of an optional string.
pub open spec fn opt_text(s: Option<String>) -> Option<Seq<char>> {
    match s {
        Some(t) => Some(t@),
        None => None,
    }
}

/// The plain views of strings.
pub open spec fn texts(v: Seq<String>) -> Seq<Seq<char>> {
    v.map_values(|s: String| s@)
}

impl View for Scanner {
    type V = ScanState;

    closed spec fn view(&self) -> ScanState {
        ScanState {
            current: opt_text(self.current),
            structured: self.structured@.map_values(|f: StructuredFailure| (f.test@, f.error)),
            sectioned: texts(self.sectioned@),
            with_marker: texts(self.with_marker@),
            summary: self.summary,
        }
    }
}

/// Whether `v` holds a string equal to `s`.
fn holds_text(v: &Vec<String>, s: &String) -> (b: bool)
    ensures
        b == texts(v@).contains(s@),
{
    let mut i: usize = 0;
    while i < v.len()
        invariant
            i <= v@.len(),
            forall|j: int| 0 <= j < i ==> v@[j]@ != s@,
        decreases v.len() - i,
    {
        if v[i] == *s {
            assert(texts(v@)[i as int] == s@);
            return true;
        }
        i = i + 1;
    }
    proof {
        if texts(v@).contains(s@) {
            let k = choose|k: int| 0 <= k < texts(v@).len() && texts(v@)[k] == s@;
            assert(v@[k]@ == s@);
        }
    }
    false
}

impl Scanner {
    /// The structured failures read so far, in order.
    pub closed spec fn failures(&self) -> Seq<StructuredFailure> {
        self.structured@
    }

    /// A scanner that has read nothing.
    pub fn new() -> (s: Scanner)
        ensures
            s@ == empty_scan(),
    {
        let s = Scanner {
            current: None,
            structured: Vec::new(),
            sectioned: Vec::new(),
            with_marker: Vec::new(),
            summary: RunSummary::default(),
        };
        assert(s@.structured =~= Seq::<(Seq<char>, StructuredError)>::empty());
        assert(s@.sectioned =~= Seq::<Seq<char>>::empty());
        assert(s@.with_marker =~= Seq::<Seq<char>>::empty());
        s
    }

    /// Reads one line; `decoded` is the structured failure its marker payload
    /// decodes to, if it is a marker line and the payload decodes. Returns
    /// whether the line belongs to the human-readable output.
    pub fn step(&mut self, line: &str, decoded: Option<StructuredError>) -> (echo: bool)
        ensures
            (final(self)@, echo) == scan_step(old(self)@, line@, decoded),
    {
        let ghost st = self@;
        match marker_payload(line) {
            Some(_) => {
                match (&self.current, decoded) {
                    (Some(test), Some(error)) => {
                        let name = test.clone();
                        let ghost before_s = self.structured@;
                        let ghost before_w = self.with_marker@;
                        self.structured.push(StructuredFailure { test: name.clone(), error });
                        self.with_marker.push(name);
                        proof {
                            assert(self@.structured =~= st.structured.push((st.current.unwrap(), error)));
                            assert(self@.with_marker =~= st.with_marker.push(st.current.unwrap()));
                        }
                    },
                    _ => {},
                }
                false
            },
            None => {
                match test_section_header(line) {
                    Some(name) => {
                        if !holds_text(&self.sectioned, &name) {
                            self.sectioned.push(name.clone());
                            proof {
                                assert(texts(self.sectioned@) =~= st.sectioned.push(name@));
                            }
                        }
                        self.current = Some(name);
                    },
                    None => {},
                }
                match parse_result_line(line) {
                    Some(counts) => {
                        self.summary = self.summary.add(counts);
                    },
                    None => {},
                }
                true
            },
        }
    }

    /// The report of what was read: structured failures grouped by context,
    /// the sectioned tests with no structured failure, and the counts.
    pub fn finish(self) -> (r: GroupedReport)
        ensures
            r.summary == self@.summary,
            texts(r.unstructured@) == self@.sectioned.filter(|t: Seq<char>| !self@.with_marker.contains(t)),
            context_groups_view(r.groups@) == grouped_failures(self.failures()),
            self.failures().map_values(|f: StructuredFailure| (f.test@, f.error)) == self@.structured,
    {
        let ghost st = self@;
        let ghost secs = texts(self.sectioned@);
        let mut unstructured: Vec<String> = Vec::new();
        let mut i: usize = 0;
        assert(secs.take(0).filter(|t: Seq<char>| !st.with_marker.contains(t)) =~= Seq::<Seq<char>>::empty()) by {
            reveal(Seq::filter);
        }
        while i < self.sectioned.len()
            invariant
                i <= self.sectioned@.len(),
                secs == texts(self.sectioned@),
                st.with_marker == texts(self.with_marker@),
                texts(unstructured@) == secs.take(i as int).filter(|t: Seq<char>| !st.with_marker.contains(t)),
            decreases self.sectioned.len() - i,
        {
            let ghost before = unstructured@;
            let test = &self.sectioned[i];
            proof {
                let t = secs.take(i + 1);
                assert(t.drop_last() =~= secs.take(i as int));
                assert(t.last() == test@);
                reveal(Seq::filter);
                assert(t.filter(|t: Seq<char>| !st.with_marker.contains(t)) == if !st.with_marker.contains(t.last()) {
                    t.drop_last().filter(|t: Seq<char>| !st.with_marker.contains(t)).push(t.last())
                } else {
                    t.drop_last().filter(|t: Seq<char>| !st.with_marker.contains(t))
                });
            }
            if !holds_text(&self.with_marker, test) {
                unstructured.push(test.clone());
                assert(texts(unstructured@) =~= texts(before).push(test@));
            }
            i = i + 1;
        }
        assert(secs.take(self.sectioned@.len() as int) =~= secs);
        GroupedReport { groups: group(self.structured), unstructured, summary: self.summary }
    }
}

impl Default for Scanner {
    fn default() -> (s: Scanner)
        ensures
            s@ == empty_scan(),
    {
        Scanner::new()
    }
}

/// Reads every line of a run's output in order; `decoded[i]` is what the
/// `i`th line's marker payload decodes to, if it is a marker line that
/// decodes; a line past the end of `decoded` reads as not decoding. Returns
/// the report and the lines that belong to the human-readable output.
pub fn scan_output(lines: &[String], decoded: Vec<Option<StructuredError>>) -> (r: (GroupedReport, Vec<String>))
    ensures
        ({
            let st = scan_all(texts(lines@), decoded@);
            &&& r.0.summary == st.summary
            &&& texts(r.0.unstructured@) == st.sectioned.filter(|t: Seq<char>| !st.with_marker.contains(t))
            &&& exists|fs: Seq<StructuredFailure>|
                fs.map_values(|f: StructuredFailure| (f.test@, f.error)) == st.structured
                    && context_groups_view(r.0.groups@) == grouped_failures(fs)
            &&& texts(r.1@) == texts(lines@).filter(|l: Seq<char>| marker_of(l) is None)
        }),
{
    let ghost ls = texts(lines@);
    let ghost ds = decoded@;
    let mut scanner = Scanner::new();
    let mut echoed: Vec<String> = Vec::new();
    let mut rest = decoded;
    let mut i: usize = 0;
    proof {
        reveal(Seq::filter);
        assert(ls.take(0) =~= Seq::<Seq<char>>::empty());
    }
    while i < lines.len()
        invariant
            i <= lines@.len(),
            ls == texts(lines@),
            i <= ds.len() ==> rest@ == ds.skip(i as int),
            i > ds.len() ==> rest@.len() == 0,
            scanner@ == scan_all(ls.take(i as int), ds),
            texts(echoed@) == ls.take(i as int).filter(|l: Seq<char>| marker_of(l) is None),
        decreases lines.len() - i,
    {
        let dec = if rest.len() > 0 {
            rest.remove(0)
        } else {
            None
        };
        let ghost before = echoed@;
        proof {
            if i < ds.len() {
                assert(dec == ds[i as int]);
                assert(rest@ =~= ds.skip(i + 1));
            } else {
                assert(dec is None);
            }
            let t = ls.take(i + 1);
            assert(t.drop_last() =~= ls.take(i as int));
            assert(t.last() == lines@[i as int]@);
            reveal(Seq::filter);
        }
        let echo = scanner.step(lines[i].as_str(), dec);
        if echo {
            echoed.push(lines[i].clone());
            assert(texts(echoed@) =~= texts(before).push(lines@[i as int]@));
        }
        i = i + 1;
    }
    assert(ls.take(lines@.len() as int) =~= ls);
    let ghost fs = scanner.failures();
    let report = scanner.finish();
    (report, echoed)
}

/// The live progress counter shown while tests run.
pub struct Progress {
    pub enabled: bool,
    pub total: usize,
    pub done: usize,
}

/// `\r  running: done/total tests   `.
pub open spec fn progress_text(done: usize, total: usize) -> Seq<char> {
    "\r  running: "@ + crate::show::decimal(done as nat) + "/"@ + crate::show::decimal(total as nat)
        + " tests   "@
}

impl Progress {
    /// A counter at zero; `enabled` says whether it is drawn.
    pub fn new(enabled: bool) -> (p: Progress)
        ensures
            p.enabled == enabled,
            p.total == 0,
            p.done == 0,
    {
        Progress { enabled, total: 0, done: 0 }
    }

    /// Counts an event; returns what to draw, when the counter is shown.
    pub fn observe(&mut self, event: ProgressEvent) -> (draw: Option<String>)
        ensures
            final(self).enabled == old(self).enabled,
            match event {
                ProgressEvent::Discovered(n) => final(self).total == wrapping_add(old(self).total, n)
                    && final(self).done == old(self).done,
                ProgressEvent::Completed => final(self).done == wrapping_add(old(self).done, 1)
                    && final(self).total == old(self).total,
            },
            old(self).enabled ==> (draw matches Some(t) && t@ == progress_text(final(self).done, final(self).total)),
            !old(self).enabled ==> draw is None,
    {
        match event {
            ProgressEvent::Discovered(count) => {
                self.total = self.total.wrapping_add(count);
            },
            ProgressEvent::Completed => {
                self.done = self.done.wrapping_add(1);
            },
        }
        if self.enabled {
            let mut out = chars_of("\r  running: ");
            crate::show::push_decimal(&mut out, self.done as u64);
            crate::text::push_str(&mut out, "/");
            crate::show::push_decimal(&mut out, self.total as u64);
            crate::text::push_str(&mut out, " tests   ");
            proof {
                reveal_strlit("\r  running: ");
                reveal_strlit("/");
                reveal_strlit(" tests   ");
            }
            assert(out@ =~= progress_text(self.done, self.total));
            Some(string_of(&out))
        } else {
            None
        }
    }

    /// What erases the counter's line, when the counter is shown.
    pub fn clear(&self) -> (draw: Option<String>)
        ensures
            self.enabled ==> (draw matches Some(t) && t@ == "\r\u{1b}[K"@),
            !self.enabled ==> draw is None,
    {
        if self.enabled {
            Some(String::from_str("\r\u{1b}[K"))
        } else {
            None
        }
    }
}

/// The lines of one failure in the grouped report: its test and message (or
/// headline), then where it failed.
pub open spec fn failure_lines(f: StructuredFailure) -> Seq<Seq<char>> {
    let summary = match f.error.message {
        Some(m) => m@,
        None => crate::error::headline_of(f.error.kind),
    };
    seq![
        "    "@ + f.test@ + ": "@ + summary,
        "      at "@ + f.error.location.file@ + ":"@ + crate::show::decimal(f.error.location.line as nat) + ":"@
            + crate::show::decimal(f.error.location.column as nat),
    ]
}

/// The lines of a run of failures.
pub open spec fn failures_lines(fs: Seq<StructuredFailure>) -> Seq<Seq<char>>
    decreases fs.len(),
{
    if fs.len() == 0 {
        Seq::empty()
    } else {
        failures_lines(fs.drop_last()) + failure_lines(fs.last())
    }
}

/// The lines of the groups: a blank line and the context, then its failures.
pub open spec fn groups_lines(gs: Seq<(Seq<char>, Seq<StructuredFailure>)>) -> Seq<Seq<char>>
    decreases gs.len(),
{
    if gs.len() == 0 {
        Seq::empty()
    } else {
        groups_lines(gs.drop_last()) + seq![Seq::empty(), "  "@ + gs.last().0] + failures_lines(gs.last().1)
    }
}

/// The grouped-failures report: nothing when there is nothing to report;
/// otherwise a heading, the groups, and the unstructured tests.
pub open spec fn report_lines_of(gs: Seq<(Seq<char>, Seq<StructuredFailure>)>, unstructured: Seq<Seq<char>>) -> Seq<Seq<char>> {
    if gs.len() == 0 && unstructured.len() == 0 {
        Seq::empty()
    } else {
        seq![Seq::empty(), "test-better: grouped failures"@] + groups_lines(gs) + if unstructured.len() == 0 {
            Seq::empty()
        } else {
            seq![Seq::empty(), "  unstructured (no test-better failure data)"@]
                + unstructured.map_values(|t: Seq<char>| "    "@ + t)
        }
    }
}

fn text_line(parts: &Vec<char>) -> (s: String)
    ensures
        s@ == parts@,
{
    string_of(parts)
}

/// The lines of the grouped-failures report.
pub fn report_lines(report: &GroupedReport) -> (out: Vec<String>)
    ensures
        texts(out@) == report_lines_of(context_groups_view(report.groups@), texts(report.unstructured@)),
{
    let ghost gv = context_groups_view(report.groups@);
    let ghost us = texts(report.unstructured@);
    let mut out: Vec<String> = Vec::new();
    if report.groups.len() == 0 && report.unstructured.len() == 0 {
        assert(texts(out@) =~= Seq::<Seq<char>>::empty());
        return out;
    }
    proof {
        reveal_strlit("test-better: grouped failures");
        reveal_strlit("  ");
        reveal_strlit("    ");
        reveal_strlit(": ");
        reveal_strlit("      at ");
        reveal_strlit(":");
        reveal_strlit("  unstructured (no test-better failure data)");
    }
    out.push(String::new());
    out.push(String::from_str("test-better: grouped failures"));
    let ghost head = texts(out@);
    assert(head =~= seq![Seq::<char>::empty(), "test-better: grouped failures"@]);
    let mut g: usize = 0;
    assert(gv.take(0) =~= Seq::<(Seq<char>, Seq<StructuredFailure>)>::empty());
    while g < report.groups.len()
        invariant
            g <= report.groups@.len(),
            gv == context_groups_view(report.groups@),
            texts(out@) == head + groups_lines(gv.take(g as int)),
        decreases report.groups.len() - g,
    {
        let group = &report.groups[g];
        let ghost before = texts(out@);
        out.push(String::new());
        let mut ctx = chars_of("  ");
        crate::text::push_str(&mut ctx, group.context.as_str());
        out.push(text_line(&ctx));
        let ghost mid = texts(out@);
        assert(mid =~= before + seq![Seq::<char>::empty(), "  "@ + group.context@]);
        let mut k: usize = 0;
        assert(group.failures@.take(0) =~= Seq::<StructuredFailure>::empty());
        while k < group.failures.len()
            invariant
                k <= group.failures@.len(),
                texts(out@) == mid + failures_lines(group.failures@.take(k as int)),
            decreases group.failures.len() - k,
        {
            let f = &group.failures[k];
            let ghost before_f = texts(out@);
            let mut first = chars_of("    ");
            crate::text::push_str(&mut first, f.test.as_str());
            crate::text::push_str(&mut first, ": ");
            match &f.error.message {
                Some(m) => crate::text::push_str(&mut first, m.as_str()),
                None => crate::text::push_str(&mut first, f.error.kind.headline()),
            }
            proof {
                reveal_strlit("    ");
                reveal_strlit(": ");
                assert(first@ =~= failure_lines(*f)[0]);
            }
            out.push(text_line(&first));
            let mut second = chars_of("      at ");
            crate::text::push_str(&mut second, f.error.location.file.as_str());
            second.push(':');
            crate::show::push_decimal(&mut second, f.error.location.line as u64);
            second.push(':');
            crate::show::push_decimal(&mut second, f.error.location.column as u64);
            proof {
                reveal_strlit("      at ");
                reveal_strlit(":");
                assert(second@ =~= failure_lines(*f)[1]);
            }
            out.push(text_line(&second));
            proof {
                reveal_strlit("    ");
                reveal_strlit(": ");
                reveal_strlit("      at ");
                reveal_strlit(":");
                let t = group.failures@.take(k + 1);
                assert(t.drop_last() =~= group.failures@.take(k as int));
                assert(t.last() == *f);
                assert(texts(out@) =~= before_f + failure_lines(*f));
            }
            k = k + 1;
        }
        assert(group.failures@.take(group.failures@.len() as int) =~= group.failures@);
        proof {
            let t = gv.take(g + 1);
            assert(t.drop_last() =~= gv.take(g as int));
            assert(t.last() == (group.context@, group.failures@));
            assert(texts(out@) =~= before + seq![Seq::<char>::empty(), "  "@ + group.context@] + failures_lines(group.failures@));
        }
        g = g + 1;
    }
    assert(gv.take(report.groups@.len() as int) =~= gv);
    if report.unstructured.len() > 0 {
        let ghost before = texts(out@);
        out.push(String::new());
        out.push(String::from_str("  unstructured (no test-better failure data)"));
        let ghost mid = texts(out@);
        let mut k: usize = 0;
        while k < report.unstructured.len()
            invariant
                k <= report.unstructured@.len(),
                us == texts(report.unstructured@),
                texts(out@) == mid + us.take(k as int).map_values(|t: Seq<char>| "    "@ + t),
            decreases report.unstructured.len() - k,
        {
            let mut line = chars_of("    ");
            crate::text::push_str(&mut line, report.unstructured[k].as_str());
            let ghost b = texts(out@);
            out.push(text_line(&line));
            proof {
                reveal_strlit("    ");
                assert(texts(out@) =~= b.push(line@));
                assert(line@ == "    "@ + us[k as int]);
                assert(us.take(k + 1).map_values(|t: Seq<char>| "    "@ + t) =~= us.take(k as int).map_values(|t: Seq<char>| "    "@ + t).push("    "@ + us[k as int]));
            }
            k = k + 1;
        }
        assert(us.take(us.len() as int) =~= us);
        assert(texts(out@) =~= report_lines_of(gv, us));
    } else {
        assert(texts(out@) =~= report_lines_of(gv, us));
    }
    out
}

/// The summary lines printed after a run, before its duration.
pub fn summary_lines(summary: &RunSummary) -> (out: Vec<String>)
    ensures
        texts(out@) == seq![
            Seq::<char>::empty(),
            "test-better: summary"@,
            "  "@ + crate::show::decimal(summary.passed as nat) + " passed, "@ + crate::show::decimal(
                summary.failed as nat,
            ) + " failed, "@ + crate::show::decimal(summary.ignored as nat) + " ignored"@,
        ],
{
    let mut out: Vec<String> = Vec::new();
    out.push(String::new());
    out.push(String::from_str("test-better: summary"));
    let mut line = chars_of("  ");
    crate::show::push_decimal(&mut line, summary.passed as u64);
    crate::text::push_str(&mut line, " passed, ");
    crate::show::push_decimal(&mut line, summary.failed as u64);
    crate::text::push_str(&mut line, " failed, ");
    crate::show::push_decimal(&mut line, summary.ignored as u64);
    crate::text::push_str(&mut line, " ignored");
    out.push(text_line(&line));
    proof {
        reveal_strlit("test-better: summary");
        reveal_strlit("  ");
        reveal_strlit(" passed, ");
        reveal_strlit(" failed, ");
        reveal_strlit(" ignored");
    }
    assert(texts(out@) =~= seq![
        Seq::<char>::empty(),
        "test-better: summary"@,
        "  "@ + crate::show::decimal(summary.passed as nat) + " passed, "@ + crate::show::decimal(
            summary.failed as nat,
        ) + " failed, "@ + crate::show::decimal(summary.ignored as nat) + " ignored"@,
    ]);
    out
}

} // verus!
