//! The node taxonomy consumed by the segmenter, and the section records it
//! produces, together with their mathematical models.

use vstd::prelude::*;

verus! {

/// One node of a parsed markdown document, reduced to the shapes the
/// segmenter distinguishes: headings, fenced code blocks, literal text runs,
/// literal inline-code spans, and everything else, which is treated uniformly
/// as a container of flattenable children.
#[derive(Debug)]
pub enum MdNode {
    /// A heading with its rank (1 = top-level) and inline content.
    Heading { depth: u8, children: Vec<MdNode> },
    /// A fenced code block: optional language tag, optional metadata string,
    /// and the literal contents, kept verbatim.
    Code { lang: Option<String>, meta: Option<String>, value: String },
    /// A literal text run.
    Text { value: String },
    /// A literal inline-code span; its contents count as plain text.
    InlineCode { value: String },
    /// Any other node kind: only its children matter, and a kind with no
    /// children contributes nothing.
    Other { children: Vec<MdNode> },
}

/// A fenced code block captured from the top level of a section.
#[derive(Debug, Clone)]
pub struct CodeBlock {
    pub lang: Option<String>,
    pub meta: Option<String>,
    pub value: String,
}

/// One heading-delimited section of a document.  `level` is the heading rank,
/// or 0 for the synthetic preamble section; `body_text` holds one non-blank
/// flattened string per contributing node, in document order.
#[derive(Debug, Clone)]
pub struct Section {
    pub title: String,
    pub level: u8,
    pub body_text: Vec<String>,
    pub code_blocks: Vec<CodeBlock>,
}

/// The mathematical model of a `CodeBlock`.
pub struct CodeBlockModel {
    pub lang: Option<Seq<char>>,
    pub meta: Option<Seq<char>>,
    pub value: Seq<char>,
}

/// The mathematical model of a `Section`.
pub struct SectionModel {
    pub title: Seq<char>,
    pub level: u8,
    pub body_text: Seq<Seq<char>>,
    pub code_blocks: Seq<CodeBlockModel>,
}

pub open spec fn opt_string_view(o: Option<String>) -> Option<Seq<char>> {
    match o {
        Some(s) => Some(s@),
        None => None,
    }
}

pub open spec fn string_views(v: Seq<String>) -> Seq<Seq<char>> {
    v.map_values(|s: String| s@)
}

pub open spec fn code_views(v: Seq<CodeBlock>) -> Seq<CodeBlockModel> {
    v.map_values(|c: CodeBlock| c@)
}

pub open spec fn section_views(v: Seq<Section>) -> Seq<SectionModel> {
    v.map_values(|s: Section| s@)
}

impl View for CodeBlock {
    type V = CodeBlockModel;

    open spec fn view(&self) -> CodeBlockModel {
        CodeBlockModel {
            lang: opt_string_view(self.lang),
            meta: opt_string_view(self.meta),
            value: self.value@,
        }
    }
}

impl View for Section {
    type V = SectionModel;

    open spec fn view(&self) -> SectionModel {
        SectionModel {
            title: self.title@,
            level: self.level,
            body_text: string_views(self.body_text@),
            code_blocks: code_views(self.code_blocks@),
        }
    }
}

} // verus!
