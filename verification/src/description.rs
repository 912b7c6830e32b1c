//! [`Description`]: a composable, human-readable account of what a matcher
//! expects.
//!
//! A `Description` is a tree, not a string. Combinators build a description
//! out of their children's descriptions, and nested matchers nest them. Text
//! is produced once, at the end, by [`Description::to_string`], so the
//! structure stays inspectable until it is rendered.

use vstd::prelude::*;

use crate::text::{join, lines, push_all, push_str, split_lines, string_of};

verus! {

/// The mathematical form of a [`Description`].
pub enum Desc {
    /// A finished phrase such as `equal to 4`.
    Text(Seq<char>),
    /// Negation: `not <child>`.
    Not(Box<Desc>),
    /// Conjunction: every part must hold.
    All(Seq<Desc>),
    /// Disjunction: at least one part must hold.
    Any(Seq<Desc>),
    /// A `header:` line with the child rendered indented beneath it.
    Labeled(Seq<char>, Box<Desc>),
}

/// The tree behind a [`Description`].
enum Node {
    Text(String),
    Not(Box<Node>),
    All(Vec<Node>),
    Any(Vec<Node>),
    Labeled { header: String, child: Box<Node> },
}

/// The models of a run of nodes.
spec fn model_seq(parts: Seq<Node>) -> Seq<Desc>
    decreases parts, 0int,
{
    Seq::new(
        parts.len(),
        |i: int|
            if 0 <= i < parts.len() {
                parts[i].model()
            } else {
                Desc::Text(Seq::empty())
            },
    )
}

proof fn lemma_model_seq(parts: Seq<Node>)
    ensures
        model_seq(parts).len() == parts.len(),
        forall|i: int| 0 <= i < parts.len() ==> #[trigger] model_seq(parts)[i] == parts[i].model(),
{
}

impl Node {
    spec fn model(&self) -> Desc
        decreases self, 1int,
    {
        match self {
            Node::Text(t) => Desc::Text(t@),
            Node::Not(inner) => Desc::Not(Box::new(inner.model())),
            Node::All(parts) => Desc::All(model_seq(parts@)),
            Node::Any(parts) => Desc::Any(model_seq(parts@)),
            Node::Labeled { header, child } => Desc::Labeled(header@, Box::new(child.model())),
        }
    }

    fn duplicate(&self) -> (out: Node)
        ensures
            out.model() == self.model(),
        decreases self,
    {
        match self {
            Node::Text(t) => Node::Text(t.clone()),
            Node::Not(inner) => Node::Not(Box::new(inner.duplicate())),
            Node::All(parts) => {
                let copied = duplicate_nodes(parts);
                let out = Node::All(copied);
                proof {
                    lemma_model_seq(copied@);
                    lemma_model_seq(parts@);
                    assert(model_seq(copied@) =~= model_seq(parts@));
                }
                out
            },
            Node::Any(parts) => {
                let copied = duplicate_nodes(parts);
                let out = Node::Any(copied);
                proof {
                    lemma_model_seq(copied@);
                    lemma_model_seq(parts@);
                    assert(model_seq(copied@) =~= model_seq(parts@));
                }
                out
            },
            Node::Labeled { header, child } => Node::Labeled {
                header: header.clone(),
                child: Box::new(child.duplicate()),
            },
        }
    }
}

fn duplicate_nodes(parts: &Vec<Node>) -> (out: Vec<Node>)
    ensures
        out@.len() == parts@.len(),
        forall|i: int| 0 <= i < parts@.len() ==> #[trigger] out@[i].model() == parts@[i].model(),
    decreases parts,
{
    let mut out: Vec<Node> = Vec::new();
    let mut i: usize = 0;
    while i < parts.len()
        invariant
            i <= parts.len(),
            out@.len() == i,
            forall|j: int| 0 <= j < i ==> #[trigger] out@[j].model() == parts@[j].model(),
        decreases parts.len() - i,
    {
        assert(decreases_to!(parts => parts@[i as int]));
        out.push(parts[i].duplicate());
        i = i + 1;
    }
    out
}

/// A composable description of a matcher's expectation.
pub struct Description {
    node: Node,
}

impl Description {
    /// Every description is well formed: no constructor nests a negation
    /// directly or leaves a conjunction or disjunction unflattened.
    #[verifier::type_invariant]
    spec fn well_formed(self) -> bool {
        desc_wf(self.node.model())
    }
}

impl View for Description {
    type V = Desc;

    closed spec fn view(&self) -> Desc {
        self.node.model()
    }
}

impl Clone for Description {
    fn clone(&self) -> (out: Description)
        ensures
            out@ == self@,
    {
        proof {
            use_type_invariant(self);
        }
        Description { node: self.node.duplicate() }
    }
}

/// The parts a description contributes to a conjunction: its own parts if it
/// is one, itself otherwise.
pub open spec fn all_parts(d: Desc) -> Seq<Desc> {
    match d {
        Desc::All(parts) => parts,
        _ => seq![d],
    }
}

/// The parts a description contributes to a disjunction.
pub open spec fn any_parts(d: Desc) -> Seq<Desc> {
    match d {
        Desc::Any(parts) => parts,
        _ => seq![d],
    }
}

/// Conjunction, flattened: `a and b` over the parts of both.
pub open spec fn desc_and(a: Desc, b: Desc) -> Desc {
    Desc::All(all_parts(a) + all_parts(b))
}

/// Disjunction, flattened: `a or b` over the parts of both.
pub open spec fn desc_or(a: Desc, b: Desc) -> Desc {
    Desc::Any(any_parts(a) + any_parts(b))
}

/// Negation; a double negation cancels.
pub open spec fn desc_not(d: Desc) -> Desc {
    match d {
        Desc::Not(inner) => *inner,
        _ => Desc::Not(Box::new(d)),
    }
}

/// The text a description renders to.
pub open spec fn render(d: Desc) -> Seq<char>
    decreases d, 0int,
{
    match d {
        Desc::Text(t) => t,
        Desc::Not(inner) => "not "@ + paren_under_not(*inner),
        Desc::All(parts) => render_all(parts),
        Desc::Any(parts) => render_any(parts),
        Desc::Labeled(header, child) => header + ":\n"@ + join(indent_lines(lines(render(*child))), "\n"@),
    }
}

/// Under `not`, a compound child is parenthesized.
pub open spec fn paren_under_not(d: Desc) -> Seq<char>
    decreases d, 1int,
{
    match d {
        Desc::All(parts) => "("@ + render_all(parts) + ")"@,
        Desc::Any(parts) => "("@ + render_any(parts) + ")"@,
        _ => render(d),
    }
}

/// Inside `and`, an `or` child is parenthesized.
pub open spec fn paren_under_all(d: Desc) -> Seq<char>
    decreases d, 1int,
{
    match d {
        Desc::Any(parts) => "("@ + render_any(parts) + ")"@,
        _ => render(d),
    }
}

/// The parts of a conjunction joined by ` and `.
pub open spec fn render_all(parts: Seq<Desc>) -> Seq<char>
    decreases parts, 0int,
{
    if parts.len() == 0 {
        Seq::empty()
    } else if parts.len() == 1 {
        paren_under_all(parts[0])
    } else {
        render_all(parts.drop_last()) + " and "@ + paren_under_all(parts.last())
    }
}

/// The parts of a disjunction joined by ` or `.
pub open spec fn render_any(parts: Seq<Desc>) -> Seq<char>
    decreases parts, 0int,
{
    if parts.len() == 0 {
        Seq::empty()
    } else if parts.len() == 1 {
        render(parts[0])
    } else {
        render_any(parts.drop_last()) + " or "@ + render(parts.last())
    }
}

/// Every line prefixed by two spaces.
pub open spec fn indent_lines(ls: Seq<Seq<char>>) -> Seq<Seq<char>> {
    ls.map_values(|l: Seq<char>| "  "@ + l)
}

/// A description is well formed when negations never nest directly and
/// conjunctions and disjunctions are flattened, as every constructor keeps them.
pub open spec fn desc_wf(d: Desc) -> bool
    decreases d,
{
    match d {
        Desc::Text(_) => true,
        Desc::Not(inner) => !(*inner is Not) && desc_wf(*inner),
        Desc::All(parts) => forall|i: int|
            0 <= i < parts.len() ==> !(#[trigger] parts[i] is All) && desc_wf(parts[i]),
        Desc::Any(parts) => forall|i: int|
            0 <= i < parts.len() ==> !(#[trigger] parts[i] is Any) && desc_wf(parts[i]),
        Desc::Labeled(_, child) => desc_wf(*child),
    }
}

/// Negating twice gives back a well-formed description.
pub proof fn lemma_double_negation(d: Desc)
    requires
        desc_wf(d),
    ensures
        desc_not(desc_not(d)) == d,
{
}

/// A negated description that is not itself a negation renders as `not `
/// followed by its rendering, parenthesized when it is a conjunction or a
/// disjunction.
pub proof fn lemma_negation_renders(d: Desc)
    requires
        !(d is Not),
    ensures
        render(desc_not(d)) == "not "@ + if d is All || d is Any {
            "("@ + render(d) + ")"@
        } else {
            render(d)
        },
{
    assert(render(desc_not(d)) == "not "@ + paren_under_not(d));
    match d {
        Desc::All(parts) => {
            assert(render(d) == render_all(parts));
            assert(paren_under_not(d) == "("@ + render_all(parts) + ")"@);
        },
        Desc::Any(parts) => {
            assert(render(d) == render_any(parts));
            assert(paren_under_not(d) == "("@ + render_any(parts) + ")"@);
        },
        _ => {
            assert(paren_under_not(d) == render(d));
        },
    }
}

/// Negation keeps descriptions well formed.
pub proof fn lemma_negation_wf(d: Desc)
    requires
        desc_wf(d),
    ensures
        desc_wf(desc_not(d)),
{
}

/// Conjunction keeps descriptions well formed.
pub proof fn lemma_and_wf(a: Desc, b: Desc)
    requires
        desc_wf(a),
        desc_wf(b),
    ensures
        desc_wf(desc_and(a, b)),
{
    let parts = all_parts(a) + all_parts(b);
    assert forall|i: int| 0 <= i < parts.len() implies !(#[trigger] parts[i] is All) && desc_wf(parts[i]) by {
        if i < all_parts(a).len() {
            assert(parts[i] == all_parts(a)[i]);
        } else {
            assert(parts[i] == all_parts(b)[i - all_parts(a).len()]);
        }
    }
}

/// Disjunction keeps descriptions well formed.
pub proof fn lemma_or_wf(a: Desc, b: Desc)
    requires
        desc_wf(a),
        desc_wf(b),
    ensures
        desc_wf(desc_or(a, b)),
{
    let parts = any_parts(a) + any_parts(b);
    assert forall|i: int| 0 <= i < parts.len() implies !(#[trigger] parts[i] is Any) && desc_wf(parts[i]) by {
        if i < any_parts(a).len() {
            assert(parts[i] == any_parts(a)[i]);
        } else {
            assert(parts[i] == any_parts(b)[i - any_parts(a).len()]);
        }
    }
}

/// Conjunction flattens, so how it is grouped does not matter.
pub proof fn lemma_and_associative(a: Desc, b: Desc, c: Desc)
    ensures
        desc_and(desc_and(a, b), c) == desc_and(a, desc_and(b, c)),
{
    assert(all_parts(desc_and(a, b)) == all_parts(a) + all_parts(b));
    assert(all_parts(desc_and(b, c)) == all_parts(b) + all_parts(c));
    assert((all_parts(a) + all_parts(b)) + all_parts(c) =~= all_parts(a) + (all_parts(b) + all_parts(c)));
}

/// Disjunction flattens, so how it is grouped does not matter.
pub proof fn lemma_or_associative(a: Desc, b: Desc, c: Desc)
    ensures
        desc_or(desc_or(a, b), c) == desc_or(a, desc_or(b, c)),
{
    assert(any_parts(desc_or(a, b)) == any_parts(a) + any_parts(b));
    assert(any_parts(desc_or(b, c)) == any_parts(b) + any_parts(c));
    assert((any_parts(a) + any_parts(b)) + any_parts(c) =~= any_parts(a) + (any_parts(b) + any_parts(c)));
}

impl Description {
    /// A leaf description: a finished phrase like `equal to 4`.
    pub fn text(text: &str) -> (d: Description)
        ensures
            d@ == Desc::Text(text@),
            desc_wf(d@),
    {
        Description { node: Node::Text(String::from_str(text)) }
    }

    /// A leaf description from characters.
    pub fn from_chars(text: &Vec<char>) -> (d: Description)
        ensures
            d@ == Desc::Text(text@),
            desc_wf(d@),
    {
        Description { node: Node::Text(string_of(text)) }
    }

    /// The parts this description contributes to a conjunction.
    fn into_all_parts(self) -> (parts: Vec<Node>)
        ensures
            desc_wf(self@),
            parts@.len() == all_parts(self@).len(),
            forall|i: int|
                0 <= i < parts@.len() ==> #[trigger] parts@[i].model() == all_parts(self@)[i],
    {
        proof {
            use_type_invariant(&self);
        }
        let ghost d = self@;
        match self.node {
            Node::All(parts) => {
                proof {
                    lemma_model_seq(parts@);
                    assert(d == Desc::All(model_seq(parts@)));
                }
                parts
            },
            node => {
                let mut v: Vec<Node> = Vec::new();
                v.push(node);
                v
            },
        }
    }

    /// The parts this description contributes to a disjunction.
    fn into_any_parts(self) -> (parts: Vec<Node>)
        ensures
            desc_wf(self@),
            parts@.len() == any_parts(self@).len(),
            forall|i: int|
                0 <= i < parts@.len() ==> #[trigger] parts@[i].model() == any_parts(self@)[i],
    {
        proof {
            use_type_invariant(&self);
        }
        let ghost d = self@;
        match self.node {
            Node::Any(parts) => {
                proof {
                    lemma_model_seq(parts@);
                    assert(d == Desc::Any(model_seq(parts@)));
                }
                parts
            },
            node => {
                let mut v: Vec<Node> = Vec::new();
                v.push(node);
                v
            },
        }
    }

    /// Combines this description with `other` under conjunction. Nested
    /// conjunctions are flattened, so `a.and(b).and(c)` is a single `All`.
    pub fn and(self, other: Description) -> (d: Description)
        ensures
            d@ == desc_and(self@, other@),
            desc_wf(d@),
    {
        let ghost a = self@;
        let ghost b = other@;
        let mut parts = self.into_all_parts();
        let mut more = other.into_all_parts();
        let ghost p1 = parts@;
        let ghost p2 = more@;
        parts.append(&mut more);
        proof {
            lemma_and_wf(a, b);
            assert forall|i: int| 0 <= i < parts@.len() implies #[trigger] parts@[i].model()
                == (all_parts(a) + all_parts(b))[i] by {
                if i < p1.len() {
                    assert(parts@[i] == p1[i]);
                } else {
                    assert(parts@[i] == p2[i - p1.len()]);
                }
            }
            lemma_model_seq(parts@);
            assert(model_seq(parts@) =~= all_parts(a) + all_parts(b));
        }
        Description { node: Node::All(parts) }
    }

    /// Combines this description with `other` under disjunction. Nested
    /// disjunctions are flattened, so `a.or(b).or(c)` is a single `Any`.
    pub fn or(self, other: Description) -> (d: Description)
        ensures
            d@ == desc_or(self@, other@),
            desc_wf(d@),
    {
        let ghost a = self@;
        let ghost b = other@;
        let mut parts = self.into_any_parts();
        let mut more = other.into_any_parts();
        let ghost p1 = parts@;
        let ghost p2 = more@;
        parts.append(&mut more);
        proof {
            lemma_or_wf(a, b);
            assert forall|i: int| 0 <= i < parts@.len() implies #[trigger] parts@[i].model()
                == (any_parts(a) + any_parts(b))[i] by {
                if i < p1.len() {
                    assert(parts@[i] == p1[i]);
                } else {
                    assert(parts@[i] == p2[i - p1.len()]);
                }
            }
            lemma_model_seq(parts@);
            assert(model_seq(parts@) =~= any_parts(a) + any_parts(b));
        }
        Description { node: Node::Any(parts) }
    }

    /// Places `child` indented beneath a `header:` line. Used by nested
    /// matchers to keep their expected blocks readable.
    pub fn labeled(header: &str, child: Description) -> (d: Description)
        ensures
            d@ == Desc::Labeled(header@, Box::new(child@)),
            desc_wf(d@),
    {
        proof {
            use_type_invariant(&child);
        }
        Description {
            node: Node::Labeled { header: String::from_str(header), child: Box::new(child.node) },
        }
    }

    /// Negates this description. Double negation cancels, so `!!x` renders as
    /// `x`: negating the result gives this description back.
    pub fn negate(self) -> (d: Description)
        ensures
            d@ == desc_not(self@),
            desc_not(d@) == self@,
            desc_wf(d@),
    {
        proof {
            use_type_invariant(&self);
            lemma_double_negation(self@);
            lemma_negation_wf(self@);
        }
        match self.node {
            Node::Not(inner) => Description { node: *inner },
            other => Description { node: Node::Not(Box::new(other)) },
        }
    }

    /// The rendered text of this description.
    pub fn render_chars(&self) -> (out: Vec<char>)
        ensures
            out@ == render(self@),
    {
        let mut out: Vec<char> = Vec::new();
        render_into(&self.node, &mut out);
        out
    }

    /// The rendered text of this description, as a `String`.
    pub fn to_string(&self) -> (s: String)
        ensures
            s@ == render(self@),
    {
        string_of(&self.render_chars())
    }
}

impl vstd::std_specs::ops::NotSpecImpl for Description {
    open spec fn obeys_not_spec() -> bool {
        false
    }

    open spec fn not_req(self) -> bool {
        true
    }

    open spec fn not_spec(self) -> Description {
        choose|d: Description| d@ == desc_not(self@)
    }
}

impl std::ops::Not for Description {
    type Output = Description;

    fn not(self) -> (d: Description)
        ensures
            d@ == desc_not(self@),
            desc_not(d@) == self@,
            desc_wf(d@),
    {
        self.negate()
    }
}

fn render_into(node: &Node, out: &mut Vec<char>)
    ensures
        final(out)@ == old(out)@ + render(node.model()),
    decreases node, 0int,
{
    match node {
        Node::Text(t) => {
            push_str(out, t.as_str());
        },
        Node::Not(inner) => {
            push_str(out, "not ");
            proof {
                reveal_strlit("not ");
            }
            paren_not_into(inner, out);
            assert(out@ =~= old(out)@ + render(node.model()));
        },
        Node::All(parts) => {
            render_all_into(parts, out);
        },
        Node::Any(parts) => {
            render_any_into(parts, out);
        },
        Node::Labeled { header, child } => {
            push_str(out, header.as_str());
            push_str(out, ":\n");
            let mut body: Vec<char> = Vec::new();
            render_into(child, &mut body);
            let ls = split_lines(&body);
            push_indented(out, &ls);
            proof {
                reveal_strlit(":\n");
                assert(Seq::new(ls@.len(), |i: int| ls@[i]@) =~= lines(body@));
            }
            assert(out@ =~= old(out)@ + render(node.model()));
        },
    }
}

/// Appends the lines `ls`, each prefixed by two spaces, joined by newlines.
fn push_indented(out: &mut Vec<char>, ls: &Vec<Vec<char>>)
    ensures
        final(out)@ == old(out)@ + join(
            indent_lines(Seq::new(ls@.len(), |i: int| ls@[i]@)),
            "\n"@,
        ),
{
    let ghost all = Seq::new(ls@.len(), |i: int| ls@[i]@);
    let mut i: usize = 0;
    proof {
        reveal_strlit("  ");
        reveal_strlit("\n");
        assert(indent_lines(all).take(0) =~= Seq::<Seq<char>>::empty());
    }
    while i < ls.len()
        invariant
            i <= ls.len(),
            all == Seq::new(ls@.len(), |i: int| ls@[i]@),
            out@ == old(out)@ + join(indent_lines(all).take(i as int), "\n"@),
        decreases ls.len() - i,
    {
        let ghost before = out@;
        proof {
            reveal_strlit("  ");
            reveal_strlit("\n");
        }
        if i > 0 {
            out.push('\n');
        }
        out.push(' ');
        out.push(' ');
        push_all(out, &ls[i]);
        proof {
            let t = indent_lines(all).take(i + 1);
            assert(t.drop_last() =~= indent_lines(all).take(i as int));
            assert(t.last() =~= "  "@ + ls@[i as int]@);
            if i > 0 {
                assert(out@ =~= before + "\n"@ + t.last());
            } else {
                assert(out@ =~= before + t.last());
            }
        }
        i = i + 1;
    }
    assert(indent_lines(all).take(ls.len() as int) =~= indent_lines(all));
}

fn paren_not_into(node: &Node, out: &mut Vec<char>)
    ensures
        final(out)@ == old(out)@ + paren_under_not(node.model()),
    decreases node, 1int,
{
    proof {
        reveal_strlit("(");
        reveal_strlit(")");
    }
    match node {
        Node::All(parts) => {
            out.push('(');
            render_all_into(parts, out);
            out.push(')');
            assert(out@ =~= old(out)@ + paren_under_not(node.model()));
        },
        Node::Any(parts) => {
            out.push('(');
            render_any_into(parts, out);
            out.push(')');
            assert(out@ =~= old(out)@ + paren_under_not(node.model()));
        },
        _ => {
            render_into(node, out);
        },
    }
}

fn paren_all_into(node: &Node, out: &mut Vec<char>)
    ensures
        final(out)@ == old(out)@ + paren_under_all(node.model()),
    decreases node, 1int,
{
    proof {
        reveal_strlit("(");
        reveal_strlit(")");
    }
    match node {
        Node::Any(parts) => {
            out.push('(');
            render_any_into(parts, out);
            out.push(')');
            assert(out@ =~= old(out)@ + paren_under_all(node.model()));
        },
        _ => {
            render_into(node, out);
        },
    }
}

fn render_all_into(parts: &Vec<Node>, out: &mut Vec<char>)
    ensures
        final(out)@ == old(out)@ + render_all(
            model_seq(parts@),
        ),
    decreases parts, 0int,
{
    let ghost all = model_seq(parts@);
    let mut i: usize = 0;
    proof {
        reveal_strlit(" and ");
    }
    while i < parts.len()
        invariant
            i <= parts.len(),
            all.len() == parts@.len(),
            forall|j: int| 0 <= j < parts@.len() ==> #[trigger] all[j] == parts@[j].model(),
            out@ == old(out)@ + render_all(all.take(i as int)),
        decreases parts.len() - i,
    {
        let ghost before = out@;
        if i > 0 {
            push_str(out, " and ");
        }
        assert(decreases_to!(parts => parts@[i as int]));
        paren_all_into(&parts[i], out);
        proof {
            let t = all.take(i + 1);
            assert(t.drop_last() =~= all.take(i as int));
            assert(t.last() == parts@[i as int].model());
            if i == 0 {
                assert(t =~= seq![t[0]]);
            }
        }
        i = i + 1;
    }
    assert(all.take(parts.len() as int) =~= all);
}

fn render_any_into(parts: &Vec<Node>, out: &mut Vec<char>)
    ensures
        final(out)@ == old(out)@ + render_any(
            model_seq(parts@),
        ),
    decreases parts, 0int,
{
    let ghost all = model_seq(parts@);
    let mut i: usize = 0;
    proof {
        reveal_strlit(" or ");
    }
    while i < parts.len()
        invariant
            i <= parts.len(),
            all.len() == parts@.len(),
            forall|j: int| 0 <= j < parts@.len() ==> #[trigger] all[j] == parts@[j].model(),
            out@ == old(out)@ + render_any(all.take(i as int)),
        decreases parts.len() - i,
    {
        if i > 0 {
            push_str(out, " or ");
        }
        assert(decreases_to!(parts => parts@[i as int]));
        render_into(&parts[i], out);
        proof {
            let t = all.take(i + 1);
            assert(t.drop_last() =~= all.take(i as int));
            assert(t.last() == parts@[i as int].model());
            if i == 0 {
                assert(t =~= seq![t[0]]);
            }
        }
        i = i + 1;
    }
    assert(all.take(parts.len() as int) =~= all);
}

} // verus!
