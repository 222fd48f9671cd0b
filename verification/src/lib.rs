//! Index markdown documents as flat lists of heading-delimited sections.
//!
//! A parsed document is a sequence of block-level nodes.  The segmenter walks
//! that sequence once, starting a new section at every heading and collecting
//! flattened body text and top-level fenced code blocks into the section that
//! is currently open; content seen before the first heading goes into a
//! synthetic preamble section.  The flattener reduces any node to plain text
//! by concatenating its literal text runs in order, dropping all markup.

pub mod flatten;
pub mod node;
pub mod parse;
pub mod paths;
pub mod records;
pub mod segment;

pub use flatten::is_blank;
pub use flatten::node_to_plain_text;
pub use node::CodeBlock;
pub use node::MdNode;
pub use node::Section;
pub use parse::index_markdown;
pub use parse::ParseError;
pub use paths::is_markdown_file;
pub use records::to_document_elements;
pub use records::JsonDocumentElement;
pub use segment::segment;
