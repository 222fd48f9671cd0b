//! Section segmentation: walk the top-level node sequence once, left to
//! right, starting a new section at every heading, collecting non-blank
//! flattened text and top-level fenced code blocks into the open section, and
//! opening a synthetic preamble section for content seen before the first
//! heading.

use vstd::prelude::*;
use vstd::string::StringExecFns;

use crate::flatten::blank;
use crate::flatten::flat;
use crate::flatten::is_blank;
use crate::flatten::node_to_plain_text;
use crate::node::code_views;
use crate::node::opt_string_view;
use crate::node::section_views;
use crate::node::string_views;
use crate::node::CodeBlock;
use crate::node::CodeBlockModel;
use crate::node::MdNode;
use crate::node::Section;
use crate::node::SectionModel;

verus! {

/// The sentinel title of the synthetic preamble section.
pub open spec fn preamble_title() -> Seq<char> {
    "(preamble)"@
}

/// A freshly started section: no body text, no code blocks.
pub open spec fn new_section_model(title: Seq<char>, level: u8) -> SectionModel {
    SectionModel { title, level, body_text: Seq::empty(), code_blocks: Seq::empty() }
}

/// The synthetic preamble section as first started.
pub open spec fn preamble_model() -> SectionModel {
    new_section_model(preamble_title(), 0)
}

/// The section that receives the next contribution: the open one if any,
/// otherwise a fresh preamble.
pub open spec fn open_section(cur: Option<SectionModel>) -> SectionModel {
    match cur {
        Some(s) => s,
        None => preamble_model(),
    }
}

/// `s` with one more body-text entry.
pub open spec fn with_text(s: SectionModel, t: Seq<char>) -> SectionModel {
    SectionModel { body_text: s.body_text.push(t), ..s }
}

/// `s` with one more code block.
pub open spec fn with_code(s: SectionModel, c: CodeBlockModel) -> SectionModel {
    SectionModel { code_blocks: s.code_blocks.push(c), ..s }
}

/// The code-block record taken verbatim from a fenced-code node.
pub open spec fn code_model_of(n: MdNode) -> CodeBlockModel
    recommends
        n is Code,
{
    CodeBlockModel {
        lang: opt_string_view(n->Code_lang),
        meta: opt_string_view(n->Code_meta),
        value: n->Code_value@,
    }
}

/// What the open section contributes to the output when it is finalized:
/// itself, or nothing when no section is open.
pub open spec fn emitted(cur: Option<SectionModel>) -> Seq<SectionModel> {
    match cur {
        Some(s) => seq![s],
        None => Seq::empty(),
    }
}

/// The sections produced from the remaining nodes `ns` when `cur` is the
/// section currently being built.  A heading finalizes `cur` and starts a new
/// section; a fenced code block and non-blank flattened text are appended to
/// the open section, opening the preamble if none is open; blank text is
/// dropped; the end of the input finalizes whatever is still open.
pub open spec fn segment_rec(ns: Seq<MdNode>, cur: Option<SectionModel>) -> Seq<SectionModel>
    decreases ns.len(),
{
    if ns.len() == 0 {
        emitted(cur)
    } else {
        let n = ns[0];
        let rest = ns.drop_first();
        if n is Heading {
            emitted(cur) + segment_rec(rest, Some(new_section_model(flat(n), n->Heading_depth)))
        } else if n is Code {
            segment_rec(rest, Some(with_code(open_section(cur), code_model_of(n))))
        } else if blank(flat(n)) {
            segment_rec(rest, cur)
        } else {
            segment_rec(rest, Some(with_text(open_section(cur), flat(n))))
        }
    }
}

/// The sections of a whole document: no section is open at the start.
pub open spec fn segment_model(ns: Seq<MdNode>) -> Seq<SectionModel> {
    segment_rec(ns, None)
}

/// No entry of `s.body_text` is blank.
pub open spec fn sec_no_blank(s: SectionModel) -> bool {
    forall|j: int| 0 <= j < s.body_text.len() ==> !blank(#[trigger] s.body_text[j])
}

/// No section of `secs` has a blank body-text entry.
pub open spec fn no_blank_entries(secs: Seq<SectionModel>) -> bool {
    forall|i: int| 0 <= i < secs.len() ==> sec_no_blank(#[trigger] secs[i])
}

proof fn lemma_no_blank_rec(ns: Seq<MdNode>, cur: Option<SectionModel>)
    requires
        cur matches Some(s) ==> sec_no_blank(s),
    ensures
        no_blank_entries(segment_rec(ns, cur)),
    decreases ns.len(),
{
    if ns.len() == 0 {
    } else {
        let n = ns[0];
        let rest = ns.drop_first();
        if n is Heading {
            lemma_no_blank_rec(rest, Some(new_section_model(flat(n), n->Heading_depth)));
            assert forall|i: int| 0 <= i < segment_rec(ns, cur).len() implies sec_no_blank(
                #[trigger] segment_rec(ns, cur)[i],
            ) by {
                if i >= emitted(cur).len() {
                    assert(segment_rec(ns, cur)[i] == segment_rec(
                        rest,
                        Some(new_section_model(flat(n), n->Heading_depth)),
                    )[i - emitted(cur).len()]);
                }
            }
        } else if n is Code {
            lemma_no_blank_rec(rest, Some(with_code(open_section(cur), code_model_of(n))));
        } else if blank(flat(n)) {
            lemma_no_blank_rec(rest, cur);
        } else {
            let s = open_section(cur);
            let t = flat(n);
            assert forall|j: int| 0 <= j < with_text(s, t).body_text.len() implies !blank(
                #[trigger] with_text(s, t).body_text[j],
            ) by {
                if j < s.body_text.len() {
                    assert(with_text(s, t).body_text[j] == s.body_text[j]);
                }
            }
            lemma_no_blank_rec(rest, Some(with_text(s, t)));
        }
    }
}

/// Whitespace-only flattened text is dropped: no section of a segmented
/// document carries a blank `body_text` entry.
pub proof fn lemma_no_blank_body_text(ns: Seq<MdNode>)
    ensures
        no_blank_entries(segment_model(ns)),
{
    lemma_no_blank_rec(ns, None);
}

/// Every heading of `ns` has a positive depth, as heading ranks start at 1.
pub open spec fn headings_positive(ns: Seq<MdNode>) -> bool {
    forall|i: int|
        0 <= i < ns.len() && (#[trigger] ns[i]) is Heading ==> ns[i]->Heading_depth >= 1
}

/// A node that contributes content to a section: a top-level fenced code
/// block, or a non-heading node whose flattened text is not blank.
pub open spec fn is_content(n: MdNode) -> bool {
    n is Code || (!(n is Heading) && !blank(flat(n)))
}

/// At position `k` of `ns` stands a content node that no heading precedes.
pub open spec fn content_before_headings_at(ns: Seq<MdNode>, k: int) -> bool {
    &&& 0 <= k < ns.len()
    &&& is_content(ns[k])
    &&& forall|j: int| 0 <= j < k ==> !((#[trigger] ns[j]) is Heading)
}

/// A document with no headings and no content nodes segments to nothing.
pub proof fn lemma_empty_segmentation(ns: Seq<MdNode>)
    requires
        forall|i: int| 0 <= i < ns.len() ==> !((#[trigger] ns[i]) is Heading) && !is_content(ns[i]),
    ensures
        segment_model(ns) == Seq::<SectionModel>::empty(),
    decreases ns.len(),
{
    if ns.len() == 0 {
    } else {
        let rest = ns.drop_first();
        assert(forall|i: int| 0 <= i < rest.len() ==> rest[i] == ns[i + 1]);
        lemma_empty_segmentation(rest);
    }
}

proof fn lemma_first_emitted(ns: Seq<MdNode>, s: SectionModel)
    ensures
        segment_rec(ns, Some(s)).len() >= 1,
        segment_rec(ns, Some(s))[0].title == s.title,
        segment_rec(ns, Some(s))[0].level == s.level,
    decreases ns.len(),
{
    if ns.len() == 0 {
    } else {
        let n = ns[0];
        let rest = ns.drop_first();
        if n is Heading {
            assert(segment_rec(ns, Some(s))[0] == s);
        } else if n is Code {
            lemma_first_emitted(rest, with_code(s, code_model_of(n)));
        } else if blank(flat(n)) {
            lemma_first_emitted(rest, s);
        } else {
            lemma_first_emitted(rest, with_text(s, flat(n)));
        }
    }
}

proof fn lemma_levels_from(ns: Seq<MdNode>, s: SectionModel)
    requires
        headings_positive(ns),
    ensures
        forall|j: int|
            1 <= j < segment_rec(ns, Some(s)).len() ==> (#[trigger] segment_rec(ns, Some(s))[j]).level
                >= 1,
    decreases ns.len(),
{
    if ns.len() == 0 {
    } else {
        let n = ns[0];
        let rest = ns.drop_first();
        assert(forall|i: int| 0 <= i < rest.len() ==> rest[i] == ns[i + 1]);
        if n is Heading {
            let started = new_section_model(flat(n), n->Heading_depth);
            lemma_first_emitted(rest, started);
            lemma_levels_from(rest, started);
            assert forall|j: int| 1 <= j < segment_rec(ns, Some(s)).len() implies (
            #[trigger] segment_rec(ns, Some(s))[j]).level >= 1 by {
                assert(segment_rec(ns, Some(s))[j] == segment_rec(rest, Some(started))[j - 1]);
            }
        } else {
            let s2 = if n is Code {
                with_code(s, code_model_of(n))
            } else if blank(flat(n)) {
                s
            } else {
                with_text(s, flat(n))
            };
            lemma_levels_from(rest, s2);
            assert forall|j: int| 1 <= j < segment_rec(ns, Some(s)).len() implies (
            #[trigger] segment_rec(ns, Some(s))[j]).level >= 1 by {
                assert(segment_rec(ns, Some(s))[j] == segment_rec(rest, Some(s2))[j]);
            }
        }
    }
}

/// A document whose first node is a heading opens with that heading's
/// section, at that heading's rank and flattened title, and produces no
/// preamble: every section of the output sits at a heading rank, never at
/// the preamble's level 0.
pub proof fn lemma_first_heading(ns: Seq<MdNode>)
    requires
        ns.len() > 0,
        ns[0] is Heading,
        headings_positive(ns),
    ensures
        segment_model(ns).len() >= 1,
        segment_model(ns)[0].title == flat(ns[0]),
        segment_model(ns)[0].level == ns[0]->Heading_depth,
        forall|j: int| 0 <= j < segment_model(ns).len() ==> (#[trigger] segment_model(ns)[j]).level
            >= 1,
{
    let rest = ns.drop_first();
    let started = new_section_model(flat(ns[0]), ns[0]->Heading_depth);
    assert(segment_model(ns) =~= segment_rec(rest, Some(started)));
    assert(forall|i: int| 0 <= i < rest.len() ==> rest[i] == ns[i + 1]);
    lemma_first_emitted(rest, started);
    lemma_levels_from(rest, started);
}

/// Content before the first heading opens exactly one preamble section: it
/// is the first section of the output, carries the sentinel title at level
/// 0, and every other section comes from a heading and has a positive level.
pub proof fn lemma_preamble(ns: Seq<MdNode>)
    requires
        headings_positive(ns),
        exists|k: int| content_before_headings_at(ns, k),
    ensures
        segment_model(ns).len() >= 1,
        segment_model(ns)[0].title == preamble_title(),
        segment_model(ns)[0].level == 0,
        forall|j: int| 1 <= j < segment_model(ns).len() ==> (#[trigger] segment_model(ns)[j]).level
            >= 1,
    decreases ns.len(),
{
    let k = choose|k: int| content_before_headings_at(ns, k);
    let n = ns[0];
    let rest = ns.drop_first();
    assert(forall|i: int| 0 <= i < rest.len() ==> rest[i] == ns[i + 1]);
    assert(!(n is Heading)) by {
        if k > 0 {
            assert(!(ns[0] is Heading));
        }
    }
    if n is Code {
        let s = with_code(preamble_model(), code_model_of(n));
        assert(segment_model(ns) == segment_rec(rest, Some(s)));
        lemma_first_emitted(rest, s);
        lemma_levels_from(rest, s);
    } else if !blank(flat(n)) {
        let s = with_text(preamble_model(), flat(n));
        assert(segment_model(ns) == segment_rec(rest, Some(s)));
        lemma_first_emitted(rest, s);
        lemma_levels_from(rest, s);
    } else {
        assert(!is_content(n));
        assert(k >= 1);
        assert(content_before_headings_at(rest, k - 1));
        lemma_preamble(rest);
    }
}

/// The section a heading starts, before any content is appended.
pub open spec fn heading_sections(ns: Seq<MdNode>) -> Seq<SectionModel> {
    ns.map_values(|n: MdNode| new_section_model(flat(n), n->Heading_depth))
}

proof fn lemma_all_headings_rec(ns: Seq<MdNode>, s: SectionModel)
    requires
        forall|i: int| 0 <= i < ns.len() ==> (#[trigger] ns[i]) is Heading,
    ensures
        segment_rec(ns, Some(s)) == seq![s] + heading_sections(ns),
    decreases ns.len(),
{
    if ns.len() == 0 {
        assert(segment_rec(ns, Some(s)) =~= seq![s] + heading_sections(ns));
    } else {
        let n = ns[0];
        let rest = ns.drop_first();
        assert(forall|i: int| 0 <= i < rest.len() ==> rest[i] == ns[i + 1]);
        let started = new_section_model(flat(n), n->Heading_depth);
        lemma_all_headings_rec(rest, started);
        assert(segment_rec(ns, Some(s)) =~= seq![s] + heading_sections(ns));
    }
}

/// Consecutive headings with no content between them yield one section per
/// heading, in order: each carries its heading's flattened title and rank,
/// and has empty body text and no code blocks.
pub proof fn lemma_consecutive_headings(ns: Seq<MdNode>)
    requires
        forall|i: int| 0 <= i < ns.len() ==> (#[trigger] ns[i]) is Heading,
    ensures
        segment_model(ns) == heading_sections(ns),
        segment_model(ns).len() == ns.len(),
        forall|i: int| 0 <= i < ns.len() ==> (#[trigger] segment_model(ns)[i]).title == flat(ns[i]),
        forall|i: int| 0 <= i < ns.len() ==> (#[trigger] segment_model(ns)[i]).level
            == ns[i]->Heading_depth,
        forall|i: int| 0 <= i < ns.len() ==> (#[trigger] segment_model(ns)[i]).body_text.len() == 0,
        forall|i: int| 0 <= i < ns.len() ==> (#[trigger] segment_model(ns)[i]).code_blocks.len()
            == 0,
{
    if ns.len() == 0 {
        assert(segment_model(ns) =~= heading_sections(ns));
    } else {
        let rest = ns.drop_first();
        assert(forall|i: int| 0 <= i < rest.len() ==> rest[i] == ns[i + 1]);
        let started = new_section_model(flat(ns[0]), ns[0]->Heading_depth);
        lemma_all_headings_rec(rest, started);
        assert(segment_model(ns) =~= heading_sections(ns));
    }
}

pub open spec fn opt_section_view(cur: Option<Section>) -> Option<SectionModel> {
    match cur {
        Some(s) => Some(s@),
        None => None,
    }
}

fn clone_opt_string(o: &Option<String>) -> (r: Option<String>)
    ensures
        opt_string_view(r) == opt_string_view(*o),
{
    match o {
        Some(s) => Some(s.clone()),
        None => None,
    }
}

fn preamble_section() -> (r: Section)
    ensures
        r@ == preamble_model(),
{
    let r = Section {
        title: String::from_str("(preamble)"),
        level: 0,
        body_text: Vec::new(),
        code_blocks: Vec::new(),
    };
    proof {
        assert(string_views(Seq::<String>::empty()) =~= Seq::<Seq<char>>::empty());
        assert(code_views(Seq::<CodeBlock>::empty()) =~= Seq::<CodeBlockModel>::empty());
    }
    r
}

/// Partition `nodes` into heading-anchored sections, in document order.
pub fn segment(nodes: &Vec<MdNode>) -> (r: Vec<Section>)
    ensures
        section_views(r@) == segment_model(nodes@),
{
    let mut sections: Vec<Section> = Vec::new();
    let mut current: Option<Section> = None;
    let mut i: usize = 0;
    proof {
        assert(nodes@.skip(0) =~= nodes@);
        assert(section_views(Seq::<Section>::empty()) =~= Seq::<SectionModel>::empty());
        assert(Seq::<SectionModel>::empty() + segment_model(nodes@) =~= segment_model(nodes@));
    }
    while i < nodes.len()
        invariant
            i <= nodes@.len(),
            section_views(sections@) + segment_rec(nodes@.skip(i as int), opt_section_view(current))
                == segment_model(nodes@),
        decreases nodes@.len() - i,
    {
        proof {
            assert(nodes@.skip(i as int).drop_first() =~= nodes@.skip(i + 1));
            assert(nodes@.skip(i as int)[0] == nodes@[i as int]);
        }
        let ghost prev_sections = sections@;
        let ghost prev_cur = opt_section_view(current);
        let node = &nodes[i];
        match node {
            MdNode::Heading { depth, .. } => {
                if let Some(sec) = current.take() {
                    sections.push(sec);
                    proof {
                        assert(section_views(prev_sections.push(sec)) =~= section_views(
                            prev_sections,
                        ).push(sec@));
                    }
                }
                let title = node_to_plain_text(node);
                let started = Section {
                    title,
                    level: *depth,
                    body_text: Vec::new(),
                    code_blocks: Vec::new(),
                };
                proof {
                    assert(string_views(Seq::<String>::empty()) =~= Seq::<Seq<char>>::empty());
                    assert(code_views(Seq::<CodeBlock>::empty()) =~= Seq::<CodeBlockModel>::empty());
                    assert(started@ == new_section_model(flat(nodes@[i as int]), nodes@[i as int]->Heading_depth));
                }
                current = Some(started);
                proof {
                    assert((section_views(prev_sections) + emitted(prev_cur)) + segment_rec(
                        nodes@.skip(i + 1),
                        opt_section_view(current),
                    ) =~= section_views(prev_sections) + (emitted(prev_cur) + segment_rec(
                        nodes@.skip(i + 1),
                        opt_section_view(current),
                    )));
                    assert(section_views(sections@) =~= section_views(prev_sections) + emitted(
                        prev_cur,
                    ));
                }
            },
            MdNode::Code { lang, meta, value } => {
                let cb = CodeBlock {
                    lang: clone_opt_string(lang),
                    meta: clone_opt_string(meta),
                    value: value.clone(),
                };
                proof {
                    assert(cb@ == code_model_of(nodes@[i as int]));
                }
                let mut sec = match current.take() {
                    Some(s) => s,
                    None => preamble_section(),
                };
                let ghost sec_model = sec@;
                sec.code_blocks.push(cb);
                proof {
                    assert(code_views(sec.code_blocks@) =~= sec_model.code_blocks.push(cb@));
                    assert(sec@ == with_code(open_section(prev_cur), code_model_of(
                        nodes@[i as int],
                    )));
                }
                current = Some(sec);
            },
            _ => {
                let text = node_to_plain_text(node);
                if !is_blank(text.as_str()) {
                    let mut sec = match current.take() {
                        Some(s) => s,
                        None => preamble_section(),
                    };
                    let ghost sec_model = sec@;
                    sec.body_text.push(text);
                    proof {
                        assert(string_views(sec.body_text@) =~= sec_model.body_text.push(text@));
                        assert(sec@ == with_text(open_section(prev_cur), flat(nodes@[i as int])));
                    }
                    current = Some(sec);
                }
            },
        }
        i += 1;
    }
    proof {
        assert(nodes@.skip(nodes@.len() as int) =~= Seq::<MdNode>::empty());
    }
    if let Some(sec) = current {
        let ghost prev_sections = sections@;
        sections.push(sec);
        proof {
            assert(section_views(prev_sections.push(sec)) =~= section_views(prev_sections).push(
                sec@,
            ));
            assert(section_views(prev_sections) + emitted(Some(sec@)) =~= section_views(
                prev_sections,
            ).push(sec@));
        }
    } else {
        proof {
            assert(section_views(sections@) + Seq::<SectionModel>::empty() =~= section_views(
                sections@,
            ));
        }
    }
    sections
}

} // verus!
