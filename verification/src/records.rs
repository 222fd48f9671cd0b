//! The interchange records handed to the serialization boundary: one record
//! per section, merged with the originating file's path; code blocks keep
//! only their literal values at this stage.

use vstd::prelude::*;

use crate::node::string_views;
use crate::node::CodeBlockModel;
use crate::node::Section;
use crate::node::SectionModel;

verus! {

/// The boundary record of one section, augmented with the file it came from.
#[derive(Debug, Clone, PartialEq)]
pub struct JsonDocumentElement {
    pub file_path: String,
    pub header: String,
    pub text_blocks: Vec<String>,
    pub code_blocks: Vec<String>,
}

/// The literal values of a sequence of code blocks, in order.
pub open spec fn code_values(cs: Seq<CodeBlockModel>) -> Seq<Seq<char>> {
    cs.map_values(|c: CodeBlockModel| c.value)
}

/// `r` is the boundary record of the section `s` for the file at `path`:
/// the header is the title, the text blocks are the body text, and the code
/// blocks are the code blocks' literal values, tags dropped.
pub open spec fn record_matches(r: JsonDocumentElement, path: Seq<char>, s: SectionModel) -> bool {
    &&& r.file_path@ == path
    &&& r.header@ == s.title
    &&& string_views(r.text_blocks@) == s.body_text
    &&& string_views(r.code_blocks@) == code_values(s.code_blocks)
}

fn clone_strings(v: &Vec<String>) -> (r: Vec<String>)
    ensures
        string_views(r@) == string_views(v@),
{
    let mut r: Vec<String> = Vec::new();
    let mut i: usize = 0;
    while i < v.len()
        invariant
            i <= v@.len(),
            r@.len() == i,
            forall|k: int| 0 <= k < i ==> #[trigger] r@[k]@ == v@[k]@,
        decreases v@.len() - i,
    {
        r.push(v[i].clone());
        i += 1;
    }
    proof {
        assert(string_views(r@) =~= string_views(v@));
    }
    r
}

/// Merge `sections` with the path of the file they came from into boundary
/// records: one record per section, in the sections' order.
pub fn to_document_elements(file_path: &str, sections: &Vec<Section>) -> (r: Vec<
    JsonDocumentElement,
>)
    ensures
        r@.len() == sections@.len(),
        forall|i: int| 0 <= i < r@.len() ==> record_matches(
            #[trigger] r@[i],
            file_path@,
            sections@[i]@,
        ),
{
    let mut out: Vec<JsonDocumentElement> = Vec::new();
    let mut i: usize = 0;
    while i < sections.len()
        invariant
            i <= sections@.len(),
            out@.len() == i,
            forall|k: int| 0 <= k < i ==> record_matches(#[trigger] out@[k], file_path@, sections@[k]@),
        decreases sections@.len() - i,
    {
        let s = &sections[i];
        let mut codes: Vec<String> = Vec::new();
        let mut j: usize = 0;
        while j < s.code_blocks.len()
            invariant
                j <= s.code_blocks@.len(),
                codes@.len() == j,
                forall|k: int| 0 <= k < j ==> #[trigger] codes@[k]@ == s.code_blocks@[k]@.value,
            decreases s.code_blocks@.len() - j,
        {
            codes.push(s.code_blocks[j].value.clone());
            j += 1;
        }
        let elem = JsonDocumentElement {
            file_path: file_path.to_owned(),
            header: s.title.clone(),
            text_blocks: clone_strings(&s.body_text),
            code_blocks: codes,
        };
        proof {
            assert(string_views(elem.code_blocks@) =~= code_values(s@.code_blocks));
        }
        out.push(elem);
        i += 1;
    }
    out
}

} // verus!
