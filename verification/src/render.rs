//! The human-readable rendering of a [`TestError`].
//!
//! ```text
//! assertion failed: check!(2 + 2)
//!   while loading the fixture
//!   expected: equal to 5
//!     actual: 4
//!   at src/lib.rs:12:5
//! ```
//!
//! The headline (with the message), one `while` line per context frame, the
//! payload, and the location, with no trailing newline. Sub-failures of a
//! `Multiple` payload are numbered and rendered indented by six spaces.

use vstd::prelude::*;

use crate::error::{headline_of, location_text, ContextFrame, ErrorKind, Payload, TestError};
use crate::show::{decimal, push_decimal};
use crate::text::{lines, push_all, push_str, split_lines, string_of};

verus! {

/// Each line of `ls` preceded by `prefix` and followed by a newline.
pub open spec fn prefixed_lines(prefix: Seq<char>, ls: Seq<Seq<char>>) -> Seq<char>
    decreases ls.len(),
{
    if ls.len() == 0 {
        Seq::empty()
    } else {
        prefixed_lines(prefix, ls.drop_last()) + prefix + ls.last() + "\n"@
    }
}

/// The first line: the headline and, if there is one, the message.
pub open spec fn head_line(kind: ErrorKind, message: Option<String>) -> Seq<char> {
    headline_of(kind) + match message {
        Some(m) => ": "@ + m@,
        None => Seq::empty(),
    } + "\n"@
}

/// One `  while <message>` line per frame.
pub open spec fn frame_lines(frames: Seq<ContextFrame>) -> Seq<char> {
    prefixed_lines("  while "@, frames.map_values(|f: ContextFrame| f.message@))
}

/// The views of a run of strings.
pub open spec fn string_views(v: Seq<String>) -> Seq<Seq<char>> {
    v.map_values(|s: String| s@)
}

/// `failure` or `failures`.
pub open spec fn noun(count: nat) -> Seq<char> {
    if count == 1 {
        "failure"@
    } else {
        "failures"@
    }
}

/// The rendering of an error.
pub open spec fn render_error(e: TestError) -> Seq<char>
    decreases e, 2int,
{
    head_line(e.kind, e.message) + frame_lines(e.context@) + match e.payload {
        Some(p) => render_payload(*p),
        None => Seq::empty(),
    } + "  at "@ + location_text(e.location)
}

/// The lines a payload contributes.
pub open spec fn render_payload(p: Payload) -> Seq<char>
    decreases p, 1int,
{
    match p {
        Payload::ExpectedActual { expected, actual, diff } => "  expected: "@ + expected@ + "\n"@
            + "    actual: "@ + actual@ + "\n"@ + match diff {
            Some(d) => prefixed_lines("  "@, lines(d@)),
            None => Seq::empty(),
        },
        Payload::Other { message, chain } => "  caused by: "@ + message@ + "\n"@ + prefixed_lines(
            "    caused by: "@,
            string_views(chain@),
        ),
        Payload::Multiple(errors) => "  "@ + decimal(errors@.len()) + " "@ + noun(errors@.len())
            + ":\n"@ + render_subs(errors@, errors@.len() as int),
    }
}

/// The first `n` sub-failures, numbered from 1, each rendered indented.
pub open spec fn render_subs(errors: Seq<TestError>, n: int) -> Seq<char>
    decreases errors, n,
{
    if n <= 0 || n > errors.len() {
        Seq::empty()
    } else {
        render_subs(errors, n - 1) + "  ["@ + decimal(n as nat) + "]\n"@ + prefixed_lines(
            "      "@,
            lines(render_error(errors[n - 1])),
        )
    }
}

proof fn lemma_multiple_decreases(p: Payload, i: int)
    requires
        p is Multiple,
        0 <= i < p->Multiple_0@.len(),
    ensures
        decreases_to!(p => p->Multiple_0@[i]),
{
    match p {
        Payload::Multiple(errors) => {
            assert(decreases_to!(p => errors));
            assert(decreases_to!(errors => errors@));
            assert(decreases_to!(errors@ => errors@[i]));
        },
        _ => {},
    }
}

/// Appends each line of `ls`, preceded by `prefix` and followed by a newline.
fn push_prefixed(out: &mut Vec<char>, prefix: &str, ls: &Vec<Vec<char>>)
    ensures
        final(out)@ == old(out)@ + prefixed_lines(prefix@, Seq::new(ls@.len(), |i: int| ls@[i]@)),
{
    let ghost all = Seq::new(ls@.len(), |i: int| ls@[i]@);
    let mut i: usize = 0;
    proof {
        reveal_strlit("\n");
        assert(all.take(0) =~= Seq::<Seq<char>>::empty());
    }
    while i < ls.len()
        invariant
            i <= ls@.len(),
            all == Seq::new(ls@.len(), |i: int| ls@[i]@),
            out@ == old(out)@ + prefixed_lines(prefix@, all.take(i as int)),
        decreases ls.len() - i,
    {
        let ghost before = out@;
        push_str(out, prefix);
        push_all(out, &ls[i]);
        out.push('\n');
        proof {
            reveal_strlit("\n");
            let t = all.take(i + 1);
            assert(t.drop_last() =~= all.take(i as int));
            assert(t.last() == ls@[i as int]@);
            assert(out@ =~= before + prefix@ + t.last() + "\n"@);
        }
        i = i + 1;
    }
    assert(all.take(ls@.len() as int) =~= all);
}

/// Appends each line of `text`, preceded by `prefix` and followed by a
/// newline.
fn push_prefixed_text(out: &mut Vec<char>, prefix: &str, text: &Vec<char>)
    ensures
        final(out)@ == old(out)@ + prefixed_lines(prefix@, lines(text@)),
{
    let ls = split_lines(text);
    push_prefixed(out, prefix, &ls);
    assert(Seq::new(ls@.len(), |i: int| ls@[i]@) =~= lines(text@));
}

/// Appends the rendering of `e`.
pub fn render_into(e: &TestError, out: &mut Vec<char>)
    ensures
        final(out)@ == old(out)@ + render_error(*e),
    decreases e, 2int,
{
    proof {
        reveal_strlit("\n");
        reveal_strlit(": ");
        reveal_strlit("  at ");
    }
    let ghost start = out@;
    push_str(out, e.kind.headline());
    match &e.message {
        Some(m) => {
            push_str(out, ": ");
            push_str(out, m.as_str());
        },
        None => {},
    }
    out.push('\n');
    assert(out@ =~= start + head_line(e.kind, e.message));
    let ghost after_head = out@;
    let mut i: usize = 0;
    let ghost msgs = e.context@.map_values(|f: ContextFrame| f.message@);
    while i < e.context.len()
        invariant
            i <= e.context@.len(),
            msgs == e.context@.map_values(|f: ContextFrame| f.message@),
            out@ == after_head + prefixed_lines("  while "@, msgs.take(i as int)),
        decreases e.context.len() - i,
    {
        let ghost before = out@;
        push_str(out, "  while ");
        push_str(out, e.context[i].message.as_str());
        out.push('\n');
        proof {
            reveal_strlit("\n");
            let t = msgs.take(i + 1);
            assert(t.drop_last() =~= msgs.take(i as int));
            assert(out@ =~= before + "  while "@ + t.last() + "\n"@);
        }
        i = i + 1;
    }
    assert(msgs.take(e.context@.len() as int) =~= msgs);
    let ghost after_frames = out@;
    match &e.payload {
        Some(p) => {
            assert(decreases_to!(e => **p));
            render_payload_into(p, out);
        },
        None => {},
    }
    push_str(out, "  at ");
    e.location.write_to(out);
    assert(out@ =~= old(out)@ + render_error(*e));
}

/// Appends the lines of a payload.
fn render_payload_into(p: &Payload, out: &mut Vec<char>)
    ensures
        final(out)@ == old(out)@ + render_payload(*p),
    decreases p, 1int,
{
    proof {
        reveal_strlit("\n");
        reveal_strlit("  expected: ");
        reveal_strlit("    actual: ");
        reveal_strlit("  caused by: ");
        reveal_strlit(" ");
        reveal_strlit(":\n");
        reveal_strlit("  ");
    }
    match p {
        Payload::ExpectedActual { expected, actual, diff } => {
            push_str(out, "  expected: ");
            push_str(out, expected.as_str());
            out.push('\n');
            push_str(out, "    actual: ");
            push_str(out, actual.as_str());
            out.push('\n');
            match diff {
                Some(d) => {
                    let text = crate::text::chars_of(d.as_str());
                    push_prefixed_text(out, "  ", &text);
                },
                None => {},
            }
            assert(out@ =~= old(out)@ + render_payload(*p));
        },
        Payload::Other { message, chain } => {
            push_str(out, "  caused by: ");
            push_str(out, message.as_str());
            out.push('\n');
            let mut ls: Vec<Vec<char>> = Vec::new();
            let mut i: usize = 0;
            while i < chain.len()
                invariant
                    i <= chain@.len(),
                    ls@.len() == i,
                    forall|j: int| 0 <= j < i ==> #[trigger] ls@[j]@ == chain@[j]@,
                decreases chain.len() - i,
            {
                ls.push(crate::text::chars_of(chain[i].as_str()));
                i = i + 1;
            }
            push_prefixed(out, "    caused by: ", &ls);
            assert(Seq::new(ls@.len(), |i: int| ls@[i]@) =~= string_views(chain@));
            assert(out@ =~= old(out)@ + render_payload(*p));
        },
        Payload::Multiple(errors) => {
            push_str(out, "  ");
            push_decimal(out, errors.len() as u64);
            push_str(out, " ");
            if errors.len() == 1 {
                push_str(out, "failure");
            } else {
                push_str(out, "failures");
            }
            push_str(out, ":\n");
            proof {
                reveal_strlit("failure");
                reveal_strlit("failures");
            }
            let ghost after_count = out@;
            let mut i: usize = 0;
            while i < errors.len()
                invariant
                    i <= errors@.len(),
                    *p == Payload::Multiple(*errors),
                    out@ == after_count + render_subs(errors@, i as int),
                decreases errors.len() - i,
            {
                let ghost before = out@;
                push_str(out, "  [");
                push_decimal(out, (i + 1) as u64);
                push_str(out, "]\n");
                let mut sub: Vec<char> = Vec::new();
                proof {
                    lemma_multiple_decreases(*p, i as int);
                }
                render_into(&errors[i], &mut sub);
                assert(sub@ =~= render_error(errors@[i as int]));
                push_prefixed_text(out, "      ", &sub);
                proof {
                    reveal_strlit("  [");
                    reveal_strlit("]\n");
                    assert(out@ =~= before + "  ["@ + decimal((i + 1) as nat) + "]\n"@
                        + prefixed_lines("      "@, lines(render_error(errors@[i as int]))));
                }
                i = i + 1;
            }
            assert(out@ =~= old(out)@ + render_payload(*p));
        },
    }
}

impl TestError {
    /// The rendered failure, with no trailing newline.
    pub fn to_string(&self) -> (s: String)
        ensures
            s@ == render_error(*self),
    {
        let mut out: Vec<char> = Vec::new();
        render_into(self, &mut out);
        assert(out@ =~= render_error(*self));
        string_of(&out)
    }
}

proof fn lemma_decimal_ends_in_digit(n: nat)
    ensures
        decimal(n).len() > 0,
        decimal(n).last() != '\n',
    decreases n,
{
    if n >= 10 {
        lemma_decimal_ends_in_digit(n / 10);
    }
}

/// A rendered failure never ends with a line break: it ends with the
/// column of its location.
pub proof fn lemma_render_no_trailing_newline(e: TestError)
    ensures
        render_error(e).len() > 0,
        render_error(e).last() != '\n',
{
    lemma_decimal_ends_in_digit(e.location.column as nat);
    let tail = location_text(e.location);
    assert(tail.last() == decimal(e.location.column as nat).last());
    let r = render_error(e);
    let front = head_line(e.kind, e.message) + frame_lines(e.context@) + match e.payload {
        Some(p) => render_payload(*p),
        None => Seq::empty(),
    } + "  at "@;
    assert(r =~= front + tail);
    assert(r.last() == tail.last());
}

} // verus!
