use mdparser_exp::is_markdown_file;
use mdparser_exp::node_to_plain_text;
use mdparser_exp::segment;
use mdparser_exp::to_document_elements;
use mdparser_exp::MdNode;

fn text(s: &str) -> MdNode {
    MdNode::Text { value: s.to_string() }
}

fn heading(depth: u8, title: &str) -> MdNode {
    MdNode::Heading { depth, children: vec![text(title)] }
}

#[test]
fn segment_of_no_nodes_is_empty() {
    let sections = segment(&Vec::new());
    assert_eq!(sections.len(), 0);
}

#[test]
fn segment_drops_blank_nodes_entirely() {
    // Whitespace-only text opens no preamble and lands in no body_text.
    let nodes = vec![text("   \t  "), text(""), MdNode::Other { children: vec![] }];
    let sections = segment(&nodes);
    assert_eq!(sections.len(), 0);

    let nodes = vec![heading(1, "A"), text("  \n  "), heading(1, "B")];
    let sections = segment(&nodes);
    assert_eq!(sections.len(), 2);
    assert_eq!(sections[0].body_text.len(), 0);
    assert_eq!(sections[1].body_text.len(), 0);
}

#[test]
fn segment_first_heading_starts_first_section() {
    let nodes = vec![heading(2, "Hi"), text("body here")];
    let sections = segment(&nodes);
    assert_eq!(sections.len(), 1);
    assert_eq!(sections[0].title, "Hi");
    assert_eq!(sections[0].level, 2);
    assert_eq!(sections[0].body_text, vec!["body here".to_string()]);
}

#[test]
fn segment_content_first_opens_single_preamble() {
    let nodes = vec![
        text("before any heading"),
        MdNode::Code { lang: Some("sh".to_string()), meta: None, value: "ls".to_string() },
        heading(1, "H"),
        text("after"),
    ];
    let sections = segment(&nodes);
    assert_eq!(sections.len(), 2);
    assert_eq!(sections[0].title, "(preamble)");
    assert_eq!(sections[0].level, 0);
    assert_eq!(sections[0].body_text, vec!["before any heading".to_string()]);
    assert_eq!(sections[0].code_blocks.len(), 1);
    assert_eq!(sections[0].code_blocks[0].lang.as_deref(), Some("sh"));
    assert_eq!(sections[0].code_blocks[0].value, "ls");
    assert_eq!(sections[1].title, "H");
    assert_eq!(sections[1].level, 1);
    assert_eq!(sections[1].body_text, vec!["after".to_string()]);
}

#[test]
fn segment_keeps_code_block_tags_and_value_verbatim() {
    let nodes = vec![heading(1, "T"), MdNode::Code {
        lang: Some("rust".to_string()),
        meta: Some("ignore".to_string()),
        value: "  let x = 1;  ".to_string(),
    }];
    let sections = segment(&nodes);
    assert_eq!(sections.len(), 1);
    let cb = &sections[0].code_blocks[0];
    assert_eq!(cb.lang.as_deref(), Some("rust"));
    assert_eq!(cb.meta.as_deref(), Some("ignore"));
    assert_eq!(cb.value, "  let x = 1;  ");
}

#[test]
fn flatten_inline_code_keeps_literal_contents() {
    let node = MdNode::InlineCode { value: "a < b".to_string() };
    assert_eq!(node_to_plain_text(&node), "a < b");
}

#[test]
fn flatten_wrapper_concatenates_descendant_text() {
    // A paragraph holding plain text, an emphasised word, and inline code.
    let node = MdNode::Other {
        children: vec![
            text("This is "),
            MdNode::Other { children: vec![text("bold")] },
            text(" and "),
            MdNode::InlineCode { value: "code".to_string() },
            text("."),
        ],
    };
    assert_eq!(node_to_plain_text(&node), "This is bold and code.");
}

#[test]
fn flatten_of_childless_node_is_empty() {
    let node = MdNode::Other { children: vec![] };
    assert_eq!(node_to_plain_text(&node), "");
    let fence = MdNode::Code { lang: None, meta: None, value: "not text".to_string() };
    assert_eq!(node_to_plain_text(&fence), "");
}

#[test]
fn markdown_extensions_match_case_insensitively() {
    assert!(is_markdown_file("a.md"));
    assert!(is_markdown_file("A.MD"));
    assert!(is_markdown_file("notes.Markdown"));
    assert!(is_markdown_file("dir/sub/readme.md"));
    assert!(!is_markdown_file("a.txt"));
    assert!(!is_markdown_file("noextension"));
    assert!(!is_markdown_file(".md"));
    assert!(!is_markdown_file("dir.md/file"));
    assert!(!is_markdown_file("a.mdx"));
    assert!(!is_markdown_file(""));
}

#[test]
fn trailing_separators_do_not_hide_the_file_name() {
    // std's Path ignores trailing separators and bare `.` components.
    assert!(is_markdown_file("a.md/"));
    assert!(is_markdown_file("dir/a.md//"));
    assert!(is_markdown_file("a.md/."));
    assert!(is_markdown_file("a.md/./."));
    assert!(!is_markdown_file("."));
    assert!(!is_markdown_file(".."));
    assert!(!is_markdown_file("/"));
    assert!(!is_markdown_file("a.md/.."));
}

#[test]
fn document_elements_carry_path_title_and_code_values() {
    let nodes = vec![heading(1, "T"), text("body"), MdNode::Code {
        lang: Some("c".to_string()),
        meta: None,
        value: "int x;".to_string(),
    }];
    let sections = segment(&nodes);
    let records = to_document_elements("docs/a.md", &sections);
    assert_eq!(records.len(), 1);
    assert_eq!(records[0].file_path, "docs/a.md");
    assert_eq!(records[0].header, "T");
    assert_eq!(records[0].text_blocks, vec!["body".to_string()]);
    assert_eq!(records[0].code_blocks, vec!["int x;".to_string()]);
}
