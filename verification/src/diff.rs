//! Line-oriented diff rendering.
//!
//! The line alignment comes from the `similar` crate; this module turns its
//! changes into the text that lands in a [`Mismatch`](crate::matcher::Mismatch)'s
//! `diff` field: each line prefixed with ` ` for unchanged context, `-` for a
//! line present in `expected` but not `actual`, and `+` for a line present in
//! `actual` but not `expected`, with no trailing newline.

use vstd::prelude::*;

use crate::matcher::opt_chars;
use crate::text::{has_char, push_str, string_of};

verus! {

/// What happened to one line between the two texts.
#[derive(PartialEq, Eq, Structural, Clone, Copy, Debug)]
pub enum LineTag {
    /// Present in both.
    Equal,
    /// Present only in the expected text.
    Delete,
    /// Present only in the actual text.
    Insert,
}

/// One line of a line diff, with its line ending if it had one.
pub struct LineChange {
    pub tag: LineTag,
    pub text: String,
}

/// The changes that `similar`'s line diff reports between two texts, in order.
pub uninterp spec fn line_changes(expected: Seq<char>, actual: Seq<char>) -> Seq<(LineTag, Seq<char>)>;

/// The plain view of a run of changes.
pub open spec fn changes_view(changes: Seq<LineChange>) -> Seq<(LineTag, Seq<char>)> {
    changes.map_values(|c: LineChange| (c.tag, c.text@))
}

/// `similar::TextDiff::from_lines(expected, actual).iter_all_changes()`, each
/// change taken as its tag and its text. What the line alignment is, is named
/// by [`line_changes`] and not stated further.
#[verifier::external_body]
fn similar_line_changes(expected: &str, actual: &str) -> (r: Vec<LineChange>)
    ensures
        changes_view(r@) == line_changes(expected@, actual@),
{
    similar::TextDiff::from_lines(expected, actual)
        .iter_all_changes()
        .map(|c| LineChange {
            tag: match c.tag() {
                similar::ChangeTag::Equal => LineTag::Equal,
                similar::ChangeTag::Delete => LineTag::Delete,
                similar::ChangeTag::Insert => LineTag::Insert,
            },
            text: c.value().to_string(),
        })
        .collect()
}

/// The marker that starts a line of the rendered diff.
pub open spec fn marker(tag: LineTag) -> char {
    match tag {
        LineTag::Equal => ' ',
        LineTag::Delete => '-',
        LineTag::Insert => '+',
    }
}

/// One change rendered as a line: its marker, its text, and a newline when the
/// text does not already end with one.
pub open spec fn change_line(c: (LineTag, Seq<char>)) -> Seq<char> {
    let body = seq![marker(c.0)] + c.1;
    if c.1.len() > 0 && c.1.last() == '\n' {
        body
    } else {
        body.push('\n')
    }
}

/// The changes rendered one after another.
pub open spec fn change_lines(changes: Seq<(LineTag, Seq<char>)>) -> Seq<char>
    decreases changes.len(),
{
    if changes.len() == 0 {
        Seq::empty()
    } else {
        change_lines(changes.drop_last()) + change_line(changes.last())
    }
}

/// The rendered diff: the change lines without the final newline.
pub open spec fn diff_text(changes: Seq<(LineTag, Seq<char>)>) -> Seq<char> {
    let all = change_lines(changes);
    if all.len() > 0 && all.last() == '\n' {
        all.drop_last()
    } else {
        all
    }
}

/// Renders a run of line changes as diff text.
pub fn render_changes(changes: &[LineChange]) -> (out: String)
    ensures
        out@ == diff_text(changes_view(changes@)),
{
    let ghost view = changes_view(changes@);
    let mut out: Vec<char> = Vec::new();
    let mut i: usize = 0;
    while i < changes.len()
        invariant
            i <= changes@.len(),
            view == changes_view(changes@),
            out@ == change_lines(view.take(i as int)),
        decreases changes.len() - i,
    {
        let c = &changes[i];
        let ghost before = out@;
        let marker_char = match c.tag {
            LineTag::Equal => ' ',
            LineTag::Delete => '-',
            LineTag::Insert => '+',
        };
        out.push(marker_char);
        let start = out.len();
        push_str(&mut out, c.text.as_str());
        let n = out.len();
        let ends_newline = n > start && out[n - 1] == '\n';
        if !ends_newline {
            out.push('\n');
        }
        proof {
            let t = view.take(i + 1);
            assert(t.drop_last() =~= view.take(i as int));
            assert(t.last() == (c.tag, c.text@));
            assert(out@ =~= before + change_line(t.last()));
        }
        i = i + 1;
    }
    assert(view.take(changes@.len() as int) =~= view);
    let n = out.len();
    if n > 0 && out[n - 1] == '\n' {
        out.pop();
    }
    assert(out@ =~= diff_text(view));
    string_of(&out)
}

/// Renders a line-oriented diff between `expected` and `actual`.
///
/// The result has no trailing newline, so it composes when a renderer indents
/// each line.
pub fn diff_lines(expected: &str, actual: &str) -> (out: String)
    ensures
        out@ == diff_text(line_changes(expected@, actual@)),
{
    let changes = similar_line_changes(expected, actual);
    render_changes(changes.as_slice())
}

/// A diff of two renderings, but only when at least one of them spans
/// multiple lines: a diff of two single-line values is just noise next to the
/// `expected:`/`actual:` lines.
pub open spec fn multi_line_diff_of(expected: Seq<char>, actual: Seq<char>) -> Option<Seq<char>> {
    if has_char(expected, '\n') || has_char(actual, '\n') {
        Some(diff_text(line_changes(expected, actual)))
    } else {
        None
    }
}

/// [`diff_lines`] of the two renderings when either spans several lines.
pub fn multi_line_diff(expected: &str, actual: &str) -> (out: Option<String>)
    ensures
        opt_chars(out) == multi_line_diff_of(expected@, actual@),
{
    let e = crate::text::chars_of(expected);
    let a = crate::text::chars_of(actual);
    if crate::text::contains_char(&e, '\n') || crate::text::contains_char(&a, '\n') {
        Some(diff_lines(expected, actual))
    } else {
        None
    }
}

} // verus!
