//! The boundary to the markdown parser.  Parsing raw markdown into a node
//! tree is the outside parser's work; the trusted items here call it and
//! carry its tree over into the library's own node taxonomy, on which the
//! verified segmenter then runs.

use vstd::prelude::*;

use markdown::mdast::Node as AstNode;

use crate::node::section_views;
use crate::node::MdNode;
use crate::node::Section;
use crate::segment::lemma_no_blank_body_text;
use crate::segment::no_blank_entries;
use crate::segment::segment;
use crate::segment::segment_model;

verus! {

/// Why a document could not be parsed.
#[derive(Debug, Clone)]
pub struct ParseError {
    /// The parser's reason, taken from its message.
    pub reason: String,
}

#[verifier::external_type_specification]
#[verifier::external_body]
pub struct ExAstNode(AstNode);

/// The outcome of parsing the markdown string `s`, carried over into the
/// library's taxonomy.  The parser runs with fixed default options and is
/// deterministic, so its outcome is a function of the input alone: `Ok`
/// names the document's top-level nodes, `Err` the parser's reason text.
pub uninterp spec fn parse_result_of(s: Seq<char>) -> Result<Seq<MdNode>, Seq<char>>;

/// Relies on the shape of markdown::mdast::Node: a heading carries a depth
/// and children; fenced code carries a language tag, a metadata string and a
/// literal value; text runs and inline-code spans carry a literal value; of
/// every other kind only the children, if any, are kept.
#[verifier::external_body]
fn convert_node(n: &AstNode) -> (r: MdNode) {
    match n {
        AstNode::Heading(h) => MdNode::Heading { depth: h.depth, children: h.children.iter().map(convert_node).collect() },
        AstNode::Code(c) => MdNode::Code { lang: c.lang.clone(), meta: c.meta.clone(), value: c.value.clone() },
        AstNode::Text(t) => MdNode::Text { value: t.value.clone() },
        AstNode::InlineCode(c) => MdNode::InlineCode { value: c.value.clone() },
        other => MdNode::Other { children: other.children().map(|cs| cs.iter().map(convert_node).collect()).unwrap_or(Vec::new()) },
    }
}

/// Relies on markdown::to_mdast with default options: a deterministic
/// parser that returns the document's Root node, or a message whose
/// `reason` says why the input could not be parsed.  The body only converts
/// what came back, through `convert_node`.
#[verifier::external_body]
fn parse_markdown(src: &str) -> (r: Result<Vec<MdNode>, String>)
    ensures
        r matches Ok(ns) ==> parse_result_of(src@) matches Ok(m) && ns@ == m,
        r matches Err(e) ==> parse_result_of(src@) matches Err(m) && e@ == m,
{
    match markdown::to_mdast(src, &markdown::ParseOptions::default()) {
        Ok(AstNode::Root(root)) => Ok(root.children.iter().map(convert_node).collect()),
        Ok(other) => Ok(vec![convert_node(&other)]),
        Err(m) => Err(m.reason),
    }
}

/// Parse a markdown document and partition it into heading-anchored
/// sections: one per heading, in document order, plus a preamble section
/// when content appears before the first heading.  The result is exactly
/// the segmentation of the parsed document; when the parser fails, its
/// reason is passed through unchanged.  No section carries a blank
/// body-text entry.
pub fn index_markdown(src: &str) -> (r: Result<Vec<Section>, ParseError>)
    ensures
        r matches Ok(sections) ==> parse_result_of(src@) matches Ok(ns) && section_views(
            sections@,
        ) == segment_model(ns),
        r matches Ok(sections) ==> no_blank_entries(section_views(sections@)),
        r matches Err(e) ==> parse_result_of(src@) matches Err(m) && e.reason@ == m,
{
    let nodes = match parse_markdown(src) {
        Ok(ns) => ns,
        Err(reason) => {
            return Err(ParseError { reason });
        },
    };
    let sections = segment(&nodes);
    proof {
        lemma_no_blank_body_text(nodes@);
    }
    Ok(sections)
}

} // verus!
