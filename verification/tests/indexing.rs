use mdparser_exp::index_markdown;

#[test]
fn heading_paragraph_and_code_are_grouped_into_one_section() {
    let src = r#"
# Introduction


This is the intro text.


```rust
fn main() {
println!(\"hello\");
}
```
"#;

    let sections = index_markdown(src).expect("parse ok");

    assert_eq!(sections.len(), 1);
    println!("{:?}", sections);

    let s = &sections[0];
    assert_eq!(s.title, "Introduction");
    assert_eq!(s.level, 1);

    // Body text
    assert!(
        s.body_text.contains(&"This is the intro text.".to_string()),
        "body_text = {:?}",
        s.body_text
    );

    // Code block
    assert_eq!(s.code_blocks.len(), 1);
    let cb = &s.code_blocks[0];
    assert_eq!(cb.lang.as_deref(), Some("rust"));
    assert!(cb.value.contains("println!("));
}

#[test]
fn multiple_headings_become_multiple_sections() {
    let src = r#"
# Intro


Intro text.


## Details


More details here.


```python
print(\"hi\")
```
"#;

    let sections = index_markdown(src).expect("parse ok");

    assert_eq!(sections.len(), 2);

    let intro = &sections[0];
    assert_eq!(intro.title, "Intro");
    assert_eq!(intro.level, 1);
    assert!(intro.body_text.contains(&"Intro text.".to_string()));

    let details = &sections[1];
    assert_eq!(details.title, "Details");
    assert_eq!(details.level, 2);
    assert!(details.body_text[0].contains(&"More details here".to_string()));
    assert_eq!(details.code_blocks.len(), 1);
    assert_eq!(details.code_blocks[0].lang.as_deref(), Some("python"));
}

#[test]
fn content_before_first_heading_goes_into_preamble_section() {
    let src = r#"
This is some text before any heading.


```bash
echo \"hello\"
```


# Heading


More text under heading.
"#;

    let sections = index_markdown(src).expect("parse ok");

    // We expect: (preamble), then Heading
    assert_eq!(sections.len(), 2);

    let preamble = &sections[0];
    assert_eq!(preamble.title, "(preamble)");
    assert_eq!(preamble.level, 0);
    assert!(preamble.body_text[0].contains(&"text before any heading".to_string()));
    assert_eq!(preamble.code_blocks.len(), 1);
    assert_eq!(preamble.code_blocks[0].lang.as_deref(), Some("bash"));

    let heading = &sections[1];
    assert_eq!(heading.title, "Heading");
    assert_eq!(heading.level, 1);
    assert!(heading.body_text[0].contains(&"More text under heading".to_string()));
}

#[test]
fn inline_formatting_is_flattened_to_plain_text() {
    let src = r#"
# Title


This is *bold* and `inline_code` and a [link](https://example.com).
    "#;

    let sections = index_markdown(src).expect("parse ok");

    assert_eq!(sections.len(), 1);
    let s = &sections[0];

    assert_eq!(s.title, "Title");
    let body = &s.body_text;

    // Our node_to_plain_text should keep the words, drop formatting
    assert!(body[0].contains(&"This is".to_string()), "{:?}", body);
    assert!(body[0].contains(&"bold".to_string()), "{:?}", body);
    assert!(body[0].contains(&"inline_code".to_string()));
    assert!(body[0].contains(&"link".to_string()));
}

#[test]
fn round_trip_two_sections_with_exact_fields() {
    let src = "# Intro\n\nIntro text.\n\n## Details\n\nMore details.\n\n```python\nprint(1)\n```\n";

    let sections = index_markdown(src).expect("parse ok");

    assert_eq!(sections.len(), 2);

    let intro = &sections[0];
    assert_eq!(intro.title, "Intro");
    assert_eq!(intro.level, 1);
    assert_eq!(intro.body_text, vec!["Intro text.".to_string()]);
    assert_eq!(intro.code_blocks.len(), 0);

    let details = &sections[1];
    assert_eq!(details.title, "Details");
    assert_eq!(details.level, 2);
    assert_eq!(details.body_text, vec!["More details.".to_string()]);
    assert_eq!(details.code_blocks.len(), 1);
    assert_eq!(details.code_blocks[0].lang.as_deref(), Some("python"));
    assert_eq!(details.code_blocks[0].value, "print(1)");
}

#[test]
fn code_fence_before_any_heading_opens_preamble() {
    let src = "```sh\nls\n```\n\n# First\n";

    let sections = index_markdown(src).expect("parse ok");

    assert_eq!(sections.len(), 2);

    let preamble = &sections[0];
    assert_eq!(preamble.title, "(preamble)");
    assert_eq!(preamble.level, 0);
    assert_eq!(preamble.body_text.len(), 0);
    assert_eq!(preamble.code_blocks.len(), 1);
    assert_eq!(preamble.code_blocks[0].lang.as_deref(), Some("sh"));
    assert_eq!(preamble.code_blocks[0].value, "ls");

    let first = &sections[1];
    assert_eq!(first.title, "First");
    assert_eq!(first.level, 1);
}

#[test]
fn formatted_paragraph_flattens_without_markup_characters() {
    let src = "# T\n\nThis is *bold* and `code` and a [link](url).\n";

    let sections = index_markdown(src).expect("parse ok");

    assert_eq!(sections.len(), 1);
    let body = &sections[0].body_text;
    assert_eq!(body.len(), 1);
    assert!(body[0].contains("This is"));
    assert!(body[0].contains("bold"));
    assert!(body[0].contains("code"));
    assert!(body[0].contains("link"));
    assert!(!body[0].contains('*'));
    assert!(!body[0].contains('`'));
    assert!(!body[0].contains('['));
    assert!(!body[0].contains(']'));
    assert!(!body[0].contains("(url)"));
}

#[test]
fn consecutive_headings_yield_one_empty_section_each() {
    let src = "# One\n## Two\n### Three\n";

    let sections = index_markdown(src).expect("parse ok");

    assert_eq!(sections.len(), 3);
    let expected = [("One", 1u8), ("Two", 2u8), ("Three", 3u8)];
    for (s, (title, level)) in sections.iter().zip(expected.iter()) {
        assert_eq!(s.title, *title);
        assert_eq!(s.level, *level);
        assert_eq!(s.body_text.len(), 0);
        assert_eq!(s.code_blocks.len(), 0);
    }
}

#[test]
fn empty_document_has_no_sections() {
    let sections = index_markdown("").expect("parse ok");
    assert_eq!(sections.len(), 0);

    let blank = index_markdown("   \n\n   \n").expect("parse ok");
    assert_eq!(blank.len(), 0);
}
