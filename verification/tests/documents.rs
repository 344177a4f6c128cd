use md2nb::ast::{parse_markdown_to_ast, Block, Level, ListItem, StyleSet, Text, TextSpan, TextStyle};
use md2nb::failure::{Failure, Unsupported};
use md2nb::token::{ElementKind, LinkForm};

fn plain(text: &str) -> TextSpan {
    TextSpan::Text(text.into(), StyleSet::new())
}

fn styled(text: &str, styles: &[TextStyle]) -> TextSpan {
    TextSpan::Text(text.into(), StyleSet::from_styles(styles))
}

fn paragraph(spans: Vec<TextSpan>) -> Block {
    Block::Paragraph(Text(spans))
}

#[test]
fn plain_text_is_one_paragraph_with_one_run() {
    assert_eq!(
        parse_markdown_to_ast("just some words"),
        Ok(vec![paragraph(vec![plain("just some words")])])
    );
}

#[test]
fn empty_input_has_no_blocks() {
    assert_eq!(parse_markdown_to_ast(""), Ok(vec![]));
}

#[test]
fn nested_styles_accumulate() {
    assert_eq!(
        parse_markdown_to_ast("**a *b***"),
        Ok(vec![paragraph(vec![
            styled("a ", &[TextStyle::Strong]),
            styled("b", &[TextStyle::Strong, TextStyle::Emphasis]),
        ])])
    );
}

#[test]
fn sibling_styles_are_independent() {
    assert_eq!(
        parse_markdown_to_ast("*a* b *c*"),
        Ok(vec![paragraph(vec![
            styled("a", &[TextStyle::Emphasis]),
            plain(" b "),
            styled("c", &[TextStyle::Emphasis]),
        ])])
    );
}

#[test]
fn style_survives_an_inner_tag_of_the_same_kind() {
    assert_eq!(
        parse_markdown_to_ast("**a ~~b~~ c**"),
        Ok(vec![paragraph(vec![
            styled("a ", &[TextStyle::Strong]),
            styled("b", &[TextStyle::Strong, TextStyle::Strikethrough]),
            styled(" c", &[TextStyle::Strong]),
        ])])
    );
}

#[test]
fn list_item_with_two_paragraphs_keeps_them_apart() {
    assert_eq!(
        parse_markdown_to_ast("* hello\n\n  world"),
        Ok(vec![Block::List(vec![ListItem(vec![
            paragraph(vec![plain("hello")]),
            paragraph(vec![plain("world")]),
        ])])])
    );
}

#[test]
fn lists_nest_to_the_depth_of_the_source() {
    assert_eq!(
        parse_markdown_to_ast("* a\n  - b\n    + c\n      * d\n"),
        Ok(vec![Block::List(vec![ListItem(vec![
            paragraph(vec![plain("a")]),
            Block::List(vec![ListItem(vec![
                paragraph(vec![plain("b")]),
                Block::List(vec![ListItem(vec![
                    paragraph(vec![plain("c")]),
                    Block::List(vec![ListItem(vec![paragraph(vec![plain("d")])])]),
                ])]),
            ])]),
        ])])])
    );
}

#[test]
fn sibling_sub_lists_stay_separate() {
    assert_eq!(
        parse_markdown_to_ast("* A\n  - x\n  * y\n"),
        Ok(vec![Block::List(vec![ListItem(vec![
            paragraph(vec![plain("A")]),
            Block::List(vec![ListItem(vec![paragraph(vec![plain("x")])])]),
            Block::List(vec![ListItem(vec![paragraph(vec![plain("y")])])]),
        ])])])
    );
}

#[test]
fn fenced_code_block_keeps_its_info_string() {
    assert_eq!(
        parse_markdown_to_ast("```python\nprint(1)\n```\n"),
        Ok(vec![Block::CodeBlock {
            info_string: Some("python".into()),
            code: "print(1)\n".into(),
        }])
    );
}

#[test]
fn fenced_code_block_joins_its_lines() {
    assert_eq!(
        parse_markdown_to_ast("```\na\nb\n```\n"),
        Ok(vec![Block::CodeBlock { info_string: Some("".into()), code: "a\nb\n".into() }])
    );
}

#[test]
fn indented_code_block_has_no_info_string() {
    assert_eq!(
        parse_markdown_to_ast("    print(1)\n"),
        Ok(vec![Block::CodeBlock { info_string: None, code: "print(1)\n".into() }])
    );
}

#[test]
fn table_has_headers_and_rows() {
    assert_eq!(
        parse_markdown_to_ast("| A | B |\n|---|---|\n| 1 | 2 |\n"),
        Ok(vec![Block::Table {
            headers: vec![Text(vec![plain("A")]), Text(vec![plain("B")])],
            rows: vec![vec![Text(vec![plain("1")]), Text(vec![plain("2")])]],
        }])
    );
}

#[test]
fn table_cells_hold_styled_text() {
    assert_eq!(
        parse_markdown_to_ast("|*A*|\n|---|\n|`x`|\n|~~y~~|\n"),
        Ok(vec![Block::Table {
            headers: vec![Text(vec![styled("A", &[TextStyle::Emphasis])])],
            rows: vec![
                vec![Text(vec![TextSpan::Code("x".into())])],
                vec![Text(vec![styled("y", &[TextStyle::Strikethrough])])],
            ],
        }])
    );
}

#[test]
fn headings_keep_their_level() {
    assert_eq!(
        parse_markdown_to_ast("# one\n\n### three\n\n###### six\n"),
        Ok(vec![
            Block::Heading(Level::H1, Text(vec![plain("one")])),
            Block::Heading(Level::H3, Text(vec![plain("three")])),
            Block::Heading(Level::H6, Text(vec![plain("six")])),
        ])
    );
}

#[test]
fn heading_text_is_styled() {
    assert_eq!(
        parse_markdown_to_ast("## a *b*"),
        Ok(vec![Block::Heading(
            Level::H2,
            Text(vec![plain("a "), styled("b", &[TextStyle::Emphasis])])
        )])
    );
}

#[test]
fn soft_and_hard_breaks_are_spans() {
    assert_eq!(
        parse_markdown_to_ast("a\nb  \nc"),
        Ok(vec![paragraph(vec![
            plain("a"),
            TextSpan::SoftBreak,
            plain("b"),
            TextSpan::HardBreak,
            plain("c"),
        ])])
    );
}

#[test]
fn inline_code_carries_no_style() {
    assert_eq!(
        parse_markdown_to_ast("*a `b`*"),
        Ok(vec![paragraph(vec![
            styled("a ", &[TextStyle::Emphasis]),
            TextSpan::Code("b".into()),
        ])])
    );
}

#[test]
fn inline_link_keeps_label_and_destination() {
    assert_eq!(
        parse_markdown_to_ast("see [the *docs*](https://example.org/docs) now"),
        Ok(vec![paragraph(vec![
            plain("see "),
            TextSpan::Link {
                label: Text(vec![plain("the "), styled("docs", &[TextStyle::Emphasis])]),
                destination: "https://example.org/docs".into(),
            },
            plain(" now"),
        ])])
    );
}

#[test]
fn link_label_does_not_inherit_styles() {
    assert_eq!(
        parse_markdown_to_ast("**[a](b)**"),
        Ok(vec![paragraph(vec![TextSpan::Link {
            label: Text(vec![plain("a")]),
            destination: "b".into(),
        }])])
    );
}

#[test]
fn link_title_is_ignored() {
    assert_eq!(
        parse_markdown_to_ast("[a](b \"title\")"),
        Ok(vec![paragraph(vec![TextSpan::Link {
            label: Text(vec![plain("a")]),
            destination: "b".into(),
        }])])
    );
}

#[test]
fn link_in_a_tight_list_item_is_inline() {
    assert_eq!(
        parse_markdown_to_ast("* see [a](b)"),
        Ok(vec![Block::List(vec![ListItem(vec![paragraph(vec![
            plain("see "),
            TextSpan::Link { label: Text(vec![plain("a")]), destination: "b".into() },
        ])])])])
    );
}

#[test]
fn block_quote_holds_blocks() {
    assert_eq!(
        parse_markdown_to_ast("> quoted\n>\n> * item\n"),
        Ok(vec![Block::BlockQuote(vec![
            paragraph(vec![plain("quoted")]),
            Block::List(vec![ListItem(vec![paragraph(vec![plain("item")])])]),
        ])])
    );
}

#[test]
fn thematic_break_is_a_rule_between_paragraphs() {
    assert_eq!(
        parse_markdown_to_ast("a\n\n---\n\nb"),
        Ok(vec![paragraph(vec![plain("a")]), Block::Rule, paragraph(vec![plain("b")])])
    );
}

#[test]
fn inline_html_is_dropped() {
    assert_eq!(
        parse_markdown_to_ast("a <b>c</b> d"),
        Ok(vec![paragraph(vec![plain("a "), plain("c"), plain(" d")])])
    );
}

#[test]
fn html_block_is_dropped() {
    assert_eq!(
        parse_markdown_to_ast("<div>\nx\n</div>\n\nafter"),
        Ok(vec![paragraph(vec![plain("after")])])
    );
}

#[test]
fn reference_link_is_unsupported() {
    assert_eq!(
        parse_markdown_to_ast("[foo][bar]\n\n[bar]: https://example.org\n"),
        Err(Failure::Unsupported(Unsupported::LinkForm(LinkForm::Reference)))
    );
}

#[test]
fn collapsed_and_shortcut_links_are_unsupported() {
    assert_eq!(
        parse_markdown_to_ast("[bar][]\n\n[bar]: https://example.org\n"),
        Err(Failure::Unsupported(Unsupported::LinkForm(LinkForm::Collapsed)))
    );
    assert_eq!(
        parse_markdown_to_ast("[bar]\n\n[bar]: https://example.org\n"),
        Err(Failure::Unsupported(Unsupported::LinkForm(LinkForm::Shortcut)))
    );
}

#[test]
fn autolink_is_unsupported() {
    assert_eq!(
        parse_markdown_to_ast("<https://example.org>"),
        Err(Failure::Unsupported(Unsupported::LinkForm(LinkForm::Autolink)))
    );
    assert_eq!(
        parse_markdown_to_ast("<someone@example.org>"),
        Err(Failure::Unsupported(Unsupported::LinkForm(LinkForm::Email)))
    );
}

#[test]
fn foreign_link_deep_in_a_list_fails_the_whole_document() {
    assert_eq!(
        parse_markdown_to_ast("first\n\n* a\n  - b <https://example.org>\n"),
        Err(Failure::Unsupported(Unsupported::LinkForm(LinkForm::Autolink)))
    );
}

#[test]
fn image_is_unsupported() {
    assert_eq!(
        parse_markdown_to_ast("![alt](pic.png)"),
        Err(Failure::Unsupported(Unsupported::Element(ElementKind::Image)))
    );
}

#[test]
fn unsupported_failures_say_so() {
    let failure = parse_markdown_to_ast("![alt](pic.png)").unwrap_err();
    assert!(failure.unsupported());
}

#[test]
fn conversion_is_a_function_of_the_text() {
    let text = "# T\n\n* a\n  - *b*\n\n> q\n\n```rust\nfn f() {}\n```\n";
    let first = parse_markdown_to_ast(text);
    let second = parse_markdown_to_ast(text);
    assert!(first.is_ok());
    assert_eq!(first, second);
}
