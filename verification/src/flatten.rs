//! Flattening of a node tree to plain text: literal text runs and inline-code
//! spans keep their contents verbatim, every other node is the concatenation
//! of its flattened children, in order and with no separator.

use vstd::prelude::*;
use vstd::string::StrSliceExecFns;
use vstd::string::StringExecFns;

use crate::node::MdNode;

verus! {

/// Whether `c` has the Unicode `White_Space` property, the set of characters
/// that `str::trim` removes.
pub open spec fn ws_char(c: char) -> bool {
    let u = c as u32;
    ||| u == 0x09
    ||| u == 0x0a
    ||| u == 0x0b
    ||| u == 0x0c
    ||| u == 0x0d
    ||| u == 0x20
    ||| u == 0x85
    ||| u == 0xa0
    ||| u == 0x1680
    ||| (0x2000 <= u && u <= 0x200a)
    ||| u == 0x2028
    ||| u == 0x2029
    ||| u == 0x202f
    ||| u == 0x205f
    ||| u == 0x3000
}

/// A string is blank when it is empty or consists of whitespace alone; blank
/// flattened text contributes nothing to a section.
pub open spec fn blank(s: Seq<char>) -> bool {
    forall|i: int| 0 <= i < s.len() ==> ws_char(#[trigger] s[i])
}

/// The plain text of one node: literal contents for text runs and inline-code
/// spans, nothing for a fenced code block (it has no children), and the
/// concatenated text of the children for every other kind.
pub open spec fn flat(n: MdNode) -> Seq<char>
    decreases n,
{
    match n {
        MdNode::Text { value } => value@,
        MdNode::InlineCode { value } => value@,
        MdNode::Code { .. } => Seq::empty(),
        MdNode::Heading { children, .. } => flat_all(children@),
        MdNode::Other { children } => flat_all(children@),
    }
}

/// The concatenated plain text of a sequence of nodes, in order.
pub open spec fn flat_all(ns: Seq<MdNode>) -> Seq<char>
    decreases ns,
{
    if ns.len() == 0 {
        Seq::empty()
    } else {
        flat(ns[0]) + flat_all(ns.drop_first())
    }
}

fn ws_char_exec(c: char) -> (r: bool)
    ensures
        r == ws_char(c),
{
    let u = c as u32;
    u == 0x09 || u == 0x0a || u == 0x0b || u == 0x0c || u == 0x0d || u == 0x20 || u == 0x85
        || u == 0xa0 || u == 0x1680 || (0x2000 <= u && u <= 0x200a) || u == 0x2028 || u == 0x2029
        || u == 0x202f || u == 0x205f || u == 0x3000
}

/// Whether `s` is empty or whitespace alone.
pub fn is_blank(s: &str) -> (r: bool)
    ensures
        r == blank(s@),
{
    let n = s.unicode_len();
    let mut i: usize = 0;
    while i < n
        invariant
            n == s@.len(),
            i <= n,
            forall|j: int| 0 <= j < i ==> ws_char(#[trigger] s@[j]),
        decreases n - i,
    {
        let c = s.get_char(i);
        if !ws_char_exec(c) {
            assert(!blank(s@));
            return false;
        }
        i += 1;
    }
    true
}

/// Append the plain text of `node` to `out`.
pub fn collect_text(node: &MdNode, out: &mut String)
    ensures
        final(out)@ == old(out)@ + flat(*node),
    decreases *node,
{
    match node {
        MdNode::Text { value } => {
            out.append(value.as_str());
        },
        MdNode::InlineCode { value } => {
            out.append(value.as_str());
        },
        MdNode::Code { .. } => {
            assert(out@ =~= out@ + flat(*node));
        },
        MdNode::Heading { children, .. } => {
            collect_text_all(children, out);
        },
        MdNode::Other { children } => {
            collect_text_all(children, out);
        },
    }
}

/// Append the plain text of every node of `nodes` to `out`, in order.
fn collect_text_all(nodes: &Vec<MdNode>, out: &mut String)
    ensures
        final(out)@ == old(out)@ + flat_all(nodes@),
    decreases nodes@,
{
    let mut i: usize = 0;
    assert(nodes@.skip(0) =~= nodes@);
    while i < nodes.len()
        invariant
            i <= nodes@.len(),
            out@ + flat_all(nodes@.skip(i as int)) == old(out)@ + flat_all(nodes@),
        decreases nodes@.len() - i,
    {
        assert(nodes@.skip(i as int).drop_first() =~= nodes@.skip(i + 1));
        collect_text(&nodes[i], out);
        i += 1;
    }
    assert(nodes@.skip(nodes@.len() as int) =~= Seq::<MdNode>::empty());
    assert(out@ =~= out@ + flat_all(nodes@.skip(nodes@.len() as int)));
}

/// The literal runs among `n`'s descendants: the contents of every text run
/// and inline-code span below `n`, leftmost first.
pub open spec fn literal_runs(n: MdNode) -> Seq<Seq<char>>
    decreases n,
{
    match n {
        MdNode::Text { value } => seq![value@],
        MdNode::InlineCode { value } => seq![value@],
        MdNode::Code { .. } => Seq::empty(),
        MdNode::Heading { children, .. } => literal_runs_all(children@),
        MdNode::Other { children } => literal_runs_all(children@),
    }
}

/// The literal runs of a sequence of nodes, in order.
pub open spec fn literal_runs_all(ns: Seq<MdNode>) -> Seq<Seq<char>>
    decreases ns,
{
    if ns.len() == 0 {
        Seq::empty()
    } else {
        literal_runs(ns[0]) + literal_runs_all(ns.drop_first())
    }
}

/// The concatenation of a sequence of strings, in order.
pub open spec fn concat_all(ss: Seq<Seq<char>>) -> Seq<char>
    decreases ss.len(),
{
    if ss.len() == 0 {
        Seq::empty()
    } else {
        ss[0] + concat_all(ss.drop_first())
    }
}

proof fn lemma_concat_all_append(a: Seq<Seq<char>>, b: Seq<Seq<char>>)
    ensures
        concat_all(a + b) == concat_all(a) + concat_all(b),
    decreases a.len(),
{
    if a.len() == 0 {
        assert(a + b =~= b);
        assert(Seq::<char>::empty() + concat_all(b) =~= concat_all(b));
    } else {
        assert((a + b)[0] == a[0]);
        assert((a + b).drop_first() =~= a.drop_first() + b);
        lemma_concat_all_append(a.drop_first(), b);
        assert((a[0] + concat_all(a.drop_first())) + concat_all(b) =~= a[0] + (concat_all(
            a.drop_first(),
        ) + concat_all(b)));
    }
}

/// Flattening a node yields exactly the concatenation of its literal
/// descendant runs, in document order: however deeply wrappers nest, their
/// markup contributes no characters, and only the contents of text runs and
/// inline-code spans reach the result.
pub proof fn lemma_flatten_literal_runs(n: MdNode)
    ensures
        flat(n) == concat_all(literal_runs(n)),
    decreases n,
{
    match n {
        MdNode::Text { value } => {
            assert(seq![value@].drop_first() =~= Seq::<Seq<char>>::empty());
            assert(concat_all(Seq::<Seq<char>>::empty()) == Seq::<char>::empty());
            assert(seq![value@][0] == value@);
            assert(value@ + Seq::<char>::empty() =~= value@);
        },
        MdNode::InlineCode { value } => {
            assert(seq![value@].drop_first() =~= Seq::<Seq<char>>::empty());
            assert(concat_all(Seq::<Seq<char>>::empty()) == Seq::<char>::empty());
            assert(seq![value@][0] == value@);
            assert(value@ + Seq::<char>::empty() =~= value@);
        },
        MdNode::Code { .. } => {
        },
        MdNode::Heading { children, .. } => {
            lemma_flat_all_literal_runs(children@);
        },
        MdNode::Other { children } => {
            lemma_flat_all_literal_runs(children@);
        },
    }
}

proof fn lemma_flat_all_literal_runs(ns: Seq<MdNode>)
    ensures
        flat_all(ns) == concat_all(literal_runs_all(ns)),
    decreases ns,
{
    if ns.len() == 0 {
    } else {
        lemma_flatten_literal_runs(ns[0]);
        lemma_flat_all_literal_runs(ns.drop_first());
        lemma_concat_all_append(literal_runs(ns[0]), literal_runs_all(ns.drop_first()));
    }
}

/// A literal inline-code span flattens to exactly its literal contents:
/// the surrounding code markers are gone and nothing else is added.
pub proof fn lemma_flatten_inline_code(value: String)
    ensures
        flat(MdNode::InlineCode { value }) == value@,
{
}

/// A wrapper node (emphasis, strong, link, ...) flattens to the
/// concatenation of its children's flattened text, in child order: the
/// wrapper's own markup contributes no characters.
pub proof fn lemma_flatten_wrapper(children: Vec<MdNode>)
    ensures
        flat(MdNode::Other { children }) == flat_all(children@),
{
}

/// The plain text of `node`: markup dropped, literal contents kept, child
/// texts concatenated in order.
pub fn node_to_plain_text(node: &MdNode) -> (r: String)
    ensures
        r@ == flat(*node),
{
    let mut out = String::new();
    collect_text(node, &mut out);
    assert(Seq::<char>::empty() + flat(*node) =~= flat(*node));
    out
}

} // verus!
