use md2nb::ast::unflatten::UnflattenedEvent;
use md2nb::ast::{
    events_to_ast, events_to_blocks, is_inline, text_to_string, unwrap_table_cell, unwrap_text,
    Block, Level, ListItem, StyleSet, Text, TextSpan, TextStyle,
};
use md2nb::failure::{Failure, Unsupported, Violation};
use md2nb::token::{ColumnAlignment, Element, ElementKind, LinkForm, Token};

fn text(s: &str) -> Token {
    Token::Text(s.into())
}

fn leaf(s: &str) -> UnflattenedEvent {
    UnflattenedEvent::Event(text(s))
}

fn atom(token: Token) -> UnflattenedEvent {
    UnflattenedEvent::Event(token)
}

fn nested(tag: Element, events: Vec<UnflattenedEvent>) -> UnflattenedEvent {
    UnflattenedEvent::Nested { tag, events }
}

fn plain(s: &str) -> TextSpan {
    TextSpan::Text(s.into(), StyleSet::new())
}

fn styled(s: &str, styles: &[TextStyle]) -> TextSpan {
    TextSpan::Text(s.into(), StyleSet::from_styles(styles))
}

fn paragraph(spans: Vec<TextSpan>) -> Block {
    Block::Paragraph(Text(spans))
}

fn link(form: LinkForm, destination: &str) -> Element {
    Element::Link(form, destination.into(), "".into())
}

#[test]
fn stream_of_a_plain_paragraph() {
    assert_eq!(
        events_to_ast(vec![
            Token::Start(Element::Paragraph),
            text("hello"),
            Token::End(Element::Paragraph),
        ]),
        Ok(vec![paragraph(vec![plain("hello")])])
    );
}

#[test]
fn stream_of_a_styled_paragraph() {
    for (tag, style) in [
        (Element::Emphasis, TextStyle::Emphasis),
        (Element::Strong, TextStyle::Strong),
        (Element::Strikethrough, TextStyle::Strikethrough),
    ] {
        assert_eq!(
            events_to_ast(vec![
                Token::Start(Element::Paragraph),
                Token::Start(tag.clone()),
                text("hello"),
                Token::End(tag),
                Token::End(Element::Paragraph),
            ]),
            Ok(vec![paragraph(vec![styled("hello", &[style])])])
        );
    }
}

#[test]
fn stream_that_implies_no_tree_fails() {
    assert_eq!(
        events_to_ast(vec![Token::Start(Element::Paragraph), text("a")]),
        Err(Failure::Invariant(Violation::UnclosedTag))
    );
    assert_eq!(
        events_to_ast(vec![Token::End(Element::Paragraph)]),
        Err(Failure::Invariant(Violation::UnmatchedEnd))
    );
}

#[test]
fn loose_inline_nodes_gather_into_paragraphs() {
    assert_eq!(
        events_to_blocks(&vec![
            leaf("a"),
            atom(Token::SoftBreak),
            atom(Token::Code("b".into())),
            atom(Token::Rule),
            leaf("c"),
            atom(Token::HardBreak),
        ]),
        Ok(vec![
            paragraph(vec![plain("a"), TextSpan::SoftBreak, TextSpan::Code("b".into())]),
            Block::Rule,
            paragraph(vec![plain("c"), TextSpan::HardBreak]),
        ])
    );
}

#[test]
fn paragraph_text_merges_with_inline_nodes_that_follow() {
    assert_eq!(
        events_to_blocks(&vec![
            leaf("a"),
            nested(Element::Paragraph, vec![leaf("b")]),
            leaf("c"),
            nested(Element::Paragraph, vec![leaf("d")]),
        ]),
        Ok(vec![
            paragraph(vec![plain("a")]),
            paragraph(vec![plain("b"), plain("c")]),
            paragraph(vec![plain("d")]),
        ])
    );
}

#[test]
fn empty_paragraph_is_dropped() {
    assert_eq!(
        events_to_blocks(&vec![
            nested(Element::Paragraph, vec![]),
            atom(Token::Rule),
            nested(Element::Paragraph, vec![atom(Token::Html("<br>".into()))]),
        ]),
        Ok(vec![Block::Rule])
    );
}

#[test]
fn html_breaks_the_paragraph_and_is_dropped() {
    assert_eq!(
        events_to_blocks(&vec![leaf("a"), atom(Token::Html("<hr>".into())), leaf("b")]),
        Ok(vec![paragraph(vec![plain("a")]), paragraph(vec![plain("b")])])
    );
}

#[test]
fn item_outside_a_list_splices_its_blocks() {
    assert_eq!(
        events_to_blocks(&vec![
            leaf("a"),
            nested(
                Element::Item,
                vec![leaf("b"), nested(Element::Heading(Level::H2), vec![leaf("c")])]
            ),
            leaf("d"),
        ]),
        Ok(vec![
            paragraph(vec![plain("a")]),
            paragraph(vec![plain("b")]),
            Block::Heading(Level::H2, Text(vec![plain("c")])),
            paragraph(vec![plain("d")]),
        ])
    );
}

#[test]
fn list_of_several_items() {
    assert_eq!(
        events_to_blocks(&vec![nested(
            Element::List(Some(1)),
            vec![
                nested(Element::Item, vec![leaf("a")]),
                nested(Element::Item, vec![]),
                nested(Element::Item, vec![leaf("b"), atom(Token::Rule)]),
            ]
        )]),
        Ok(vec![Block::List(vec![
            ListItem(vec![paragraph(vec![plain("a")])]),
            ListItem(vec![]),
            ListItem(vec![paragraph(vec![plain("b")]), Block::Rule]),
        ])])
    );
}

#[test]
fn block_quote_of_blocks() {
    assert_eq!(
        events_to_blocks(&vec![nested(
            Element::BlockQuote,
            vec![leaf("a"), nested(Element::BlockQuote, vec![leaf("b")])]
        )]),
        Ok(vec![Block::BlockQuote(vec![
            paragraph(vec![plain("a")]),
            Block::BlockQuote(vec![paragraph(vec![plain("b")])]),
        ])])
    );
}

#[test]
fn code_block_concatenates_its_runs() {
    assert_eq!(
        events_to_blocks(&vec![nested(
            Element::CodeBlock(Some("python".into())),
            vec![leaf("print(1)"), leaf("\n"), leaf("print(2)")]
        )]),
        Ok(vec![Block::CodeBlock {
            info_string: Some("python".into()),
            code: "print(1)\nprint(2)".into(),
        }])
    );
    assert_eq!(
        events_to_blocks(&vec![nested(Element::CodeBlock(None), vec![leaf("print(1)")])]),
        Ok(vec![Block::CodeBlock { info_string: None, code: "print(1)".into() }])
    );
}

#[test]
fn table_rows_are_not_held_to_the_header_width() {
    let cell = |s: &str| nested(Element::TableCell, vec![leaf(s)]);
    assert_eq!(
        events_to_blocks(&vec![nested(
            Element::Table(vec![ColumnAlignment::Left, ColumnAlignment::Right]),
            vec![
                nested(Element::TableHead, vec![cell("A"), cell("B")]),
                nested(Element::TableRow, vec![cell("1")]),
                nested(Element::TableRow, vec![cell("1"), cell("2"), cell("3")]),
                nested(Element::TableRow, vec![]),
            ]
        )]),
        Ok(vec![Block::Table {
            headers: vec![Text(vec![plain("A")]), Text(vec![plain("B")])],
            rows: vec![
                vec![Text(vec![plain("1")])],
                vec![Text(vec![plain("1")]), Text(vec![plain("2")]), Text(vec![plain("3")])],
                vec![],
            ],
        }])
    );
}

#[test]
fn is_inline_classifies_nodes() {
    for node in [
        leaf("a"),
        atom(Token::Code("a".into())),
        atom(Token::SoftBreak),
        atom(Token::HardBreak),
        atom(Token::FootnoteReference("a".into())),
        nested(Element::Emphasis, vec![]),
        nested(Element::Strong, vec![]),
        nested(Element::Strikethrough, vec![]),
        nested(link(LinkForm::Inline, "a"), vec![]),
    ] {
        assert_eq!(is_inline(&node), Ok(true));
    }
    for node in [
        atom(Token::Html("a".into())),
        atom(Token::Rule),
        atom(Token::TaskListMarker(false)),
        nested(Element::Heading(Level::H1), vec![]),
        nested(Element::Paragraph, vec![]),
        nested(Element::List(None), vec![]),
        nested(Element::Item, vec![]),
        nested(Element::CodeBlock(None), vec![]),
        nested(Element::BlockQuote, vec![]),
        nested(Element::Table(vec![]), vec![]),
    ] {
        assert_eq!(is_inline(&node), Ok(false));
    }
    assert_eq!(
        is_inline(&atom(Token::Start(Element::Paragraph))),
        Err(Failure::Invariant(Violation::BareTagEvent))
    );
    assert_eq!(
        is_inline(&atom(Token::End(Element::Paragraph))),
        Err(Failure::Invariant(Violation::BareTagEvent))
    );
    assert_eq!(
        is_inline(&nested(Element::TableHead, vec![])),
        Err(Failure::Invariant(Violation::StrayTablePart))
    );
    assert_eq!(
        is_inline(&nested(Element::TableRow, vec![])),
        Err(Failure::Invariant(Violation::StrayTablePart))
    );
    assert_eq!(
        is_inline(&nested(Element::TableCell, vec![])),
        Err(Failure::Unsupported(Unsupported::Element(ElementKind::TableCell)))
    );
    assert_eq!(
        is_inline(&nested(Element::FootnoteDefinition("a".into()), vec![])),
        Err(Failure::Unsupported(Unsupported::Element(ElementKind::FootnoteDefinition)))
    );
}

#[test]
fn unwrap_text_threads_styles_by_value() {
    assert_eq!(
        unwrap_text(
            &vec![
                leaf("a"),
                nested(
                    Element::Emphasis,
                    vec![leaf("b"), nested(Element::Emphasis, vec![leaf("c")]), leaf("d")]
                ),
                leaf("e"),
            ],
            StyleSet::from_styles(&[TextStyle::Strong]),
        ),
        Ok(Text(vec![
            styled("a", &[TextStyle::Strong]),
            styled("b", &[TextStyle::Strong, TextStyle::Emphasis]),
            styled("c", &[TextStyle::Strong, TextStyle::Emphasis]),
            styled("d", &[TextStyle::Strong, TextStyle::Emphasis]),
            styled("e", &[TextStyle::Strong]),
        ]))
    );
}

#[test]
fn unwrap_text_sets_a_later_paragraph_off_by_two_breaks() {
    assert_eq!(
        unwrap_text(
            &vec![
                nested(Element::Paragraph, vec![leaf("a")]),
                nested(Element::Paragraph, vec![leaf("b")]),
            ],
            StyleSet::new(),
        ),
        Ok(Text(vec![plain("a"), TextSpan::HardBreak, TextSpan::HardBreak, plain("b")]))
    );
}

#[test]
fn unwrap_text_of_nothing_is_empty() {
    assert_eq!(unwrap_text(&vec![], StyleSet::new()), Ok(Text(vec![])));
}

#[test]
fn unwrap_text_link_label_starts_without_styles() {
    assert_eq!(
        unwrap_text(
            &vec![nested(link(LinkForm::Inline, "dest"), vec![leaf("a")])],
            StyleSet::from_styles(&[TextStyle::Emphasis]),
        ),
        Ok(Text(vec![TextSpan::Link {
            label: Text(vec![plain("a")]),
            destination: "dest".into(),
        }]))
    );
}

#[test]
fn unwrap_text_rejects_what_text_cannot_hold() {
    let styles = StyleSet::new();
    assert_eq!(
        unwrap_text(&vec![atom(Token::Rule)], styles),
        Err(Failure::Unsupported(Unsupported::RuleInText))
    );
    assert_eq!(
        unwrap_text(&vec![atom(Token::TaskListMarker(true))], styles),
        Err(Failure::Unsupported(Unsupported::TaskListMarker))
    );
    assert_eq!(
        unwrap_text(&vec![atom(Token::FootnoteReference("1".into()))], styles),
        Err(Failure::Unsupported(Unsupported::FootnoteReference))
    );
    assert_eq!(
        unwrap_text(&vec![nested(Element::BlockQuote, vec![])], styles),
        Err(Failure::Unsupported(Unsupported::Element(ElementKind::BlockQuote)))
    );
    assert_eq!(
        unwrap_text(&vec![nested(Element::List(None), vec![])], styles),
        Err(Failure::Unsupported(Unsupported::Element(ElementKind::List)))
    );
    assert_eq!(
        unwrap_text(&vec![atom(Token::Start(Element::Strong))], styles),
        Err(Failure::Invariant(Violation::BareTagEvent))
    );
    assert_eq!(
        unwrap_text(&vec![nested(link(LinkForm::Shortcut, "x"), vec![])], styles),
        Err(Failure::Unsupported(Unsupported::LinkForm(LinkForm::Shortcut)))
    );
}

#[test]
fn first_failure_in_reading_order_wins() {
    assert_eq!(
        events_to_blocks(&vec![
            nested(Element::Paragraph, vec![atom(Token::TaskListMarker(false))]),
            atom(Token::End(Element::Paragraph)),
        ]),
        Err(Failure::Unsupported(Unsupported::TaskListMarker))
    );
    assert_eq!(
        events_to_blocks(&vec![
            atom(Token::End(Element::Paragraph)),
            nested(Element::Paragraph, vec![atom(Token::TaskListMarker(false))]),
        ]),
        Err(Failure::Invariant(Violation::BareTagEvent))
    );
}

#[test]
fn link_label_fails_before_its_form_is_judged() {
    assert_eq!(
        events_to_blocks(&vec![nested(
            link(LinkForm::Reference, "x"),
            vec![atom(Token::Rule)]
        )]),
        Err(Failure::Unsupported(Unsupported::RuleInText))
    );
}

#[test]
fn from_link_accepts_only_inline_links() {
    assert_eq!(
        TextSpan::from_link(LinkForm::Inline, Text(vec![plain("a")]), "b".into()),
        Ok(TextSpan::Link { label: Text(vec![plain("a")]), destination: "b".into() })
    );
    for form in [
        LinkForm::Reference,
        LinkForm::ReferenceUnknown,
        LinkForm::Collapsed,
        LinkForm::CollapsedUnknown,
        LinkForm::Shortcut,
        LinkForm::ShortcutUnknown,
        LinkForm::Autolink,
        LinkForm::Email,
    ] {
        assert_eq!(
            TextSpan::from_link(form, Text(vec![]), "b".into()),
            Err(Failure::Unsupported(Unsupported::LinkForm(form)))
        );
    }
}

#[test]
fn block_level_failures() {
    assert_eq!(
        events_to_blocks(&vec![atom(Token::TaskListMarker(true))]),
        Err(Failure::Unsupported(Unsupported::TaskListMarker))
    );
    assert_eq!(
        events_to_blocks(&vec![atom(Token::FootnoteReference("1".into()))]),
        Err(Failure::Unsupported(Unsupported::FootnoteReference))
    );
    assert_eq!(
        events_to_blocks(&vec![nested(
            Element::Image(LinkForm::Inline, "a".into(), "".into()),
            vec![]
        )]),
        Err(Failure::Unsupported(Unsupported::Element(ElementKind::Image)))
    );
    assert_eq!(
        events_to_blocks(&vec![nested(Element::TableRow, vec![])]),
        Err(Failure::Invariant(Violation::StrayTablePart))
    );
    assert_eq!(
        events_to_blocks(&vec![nested(Element::List(None), vec![leaf("a")])]),
        Err(Failure::Invariant(Violation::ListChild))
    );
    assert_eq!(
        events_to_blocks(&vec![nested(
            Element::List(None),
            vec![nested(Element::Paragraph, vec![])]
        )]),
        Err(Failure::Invariant(Violation::ListChild))
    );
}

#[test]
fn table_shape_failures() {
    let cell = |s: &str| nested(Element::TableCell, vec![leaf(s)]);
    let table = |children| vec![nested(Element::Table(vec![]), children)];
    assert_eq!(
        events_to_blocks(&table(vec![])),
        Err(Failure::Invariant(Violation::TableHead))
    );
    assert_eq!(
        events_to_blocks(&table(vec![leaf("a")])),
        Err(Failure::Invariant(Violation::TableHead))
    );
    assert_eq!(
        events_to_blocks(&table(vec![nested(Element::TableRow, vec![cell("a")])])),
        Err(Failure::Invariant(Violation::TableHead))
    );
    assert_eq!(
        events_to_blocks(&table(vec![
            nested(Element::TableHead, vec![cell("a")]),
            nested(Element::TableHead, vec![cell("b")]),
        ])),
        Err(Failure::Invariant(Violation::TableRow))
    );
    assert_eq!(
        events_to_blocks(&table(vec![nested(Element::TableHead, vec![cell("a")]), leaf("b")])),
        Err(Failure::Invariant(Violation::TableRow))
    );
    assert_eq!(
        events_to_blocks(&table(vec![nested(Element::TableHead, vec![leaf("a")])])),
        Err(Failure::Invariant(Violation::TableCell))
    );
    assert_eq!(
        events_to_blocks(&table(vec![
            nested(Element::TableHead, vec![cell("a")]),
            nested(Element::TableRow, vec![nested(Element::Item, vec![])]),
        ])),
        Err(Failure::Invariant(Violation::TableCell))
    );
}

#[test]
fn unwrap_table_cell_hands_out_the_content() {
    let cell = nested(Element::TableCell, vec![leaf("a"), leaf("b")]);
    assert_eq!(unwrap_table_cell(&cell), Ok(&vec![leaf("a"), leaf("b")]));
    assert_eq!(
        unwrap_table_cell(&leaf("a")),
        Err(Failure::Invariant(Violation::TableCell))
    );
    assert_eq!(
        unwrap_table_cell(&nested(Element::TableRow, vec![])),
        Err(Failure::Invariant(Violation::TableCell))
    );
}

#[test]
fn text_to_string_concatenates_plain_runs() {
    assert_eq!(
        text_to_string(&Text(vec![plain("let x"), plain(" = "), plain("1;\n")])),
        Ok("let x = 1;\n".to_string())
    );
    assert_eq!(text_to_string(&Text(vec![])), Ok(String::new()));
}

#[test]
fn text_to_string_rejects_styled_runs() {
    assert_eq!(
        text_to_string(&Text(vec![plain("a"), styled("b", &[TextStyle::Strong])])),
        Err(Failure::Invariant(Violation::StyledCode))
    );
}

#[test]
fn text_to_string_rejects_other_spans() {
    for span in [
        TextSpan::Code("a".into()),
        TextSpan::SoftBreak,
        TextSpan::HardBreak,
        TextSpan::Link { label: Text(vec![]), destination: "a".into() },
    ] {
        assert_eq!(
            text_to_string(&Text(vec![plain("a"), span])),
            Err(Failure::Unsupported(Unsupported::SpanInCode))
        );
    }
}

#[test]
fn code_block_failures() {
    assert_eq!(
        events_to_blocks(&vec![nested(
            Element::CodeBlock(None),
            vec![nested(Element::Emphasis, vec![leaf("a")])]
        )]),
        Err(Failure::Invariant(Violation::StyledCode))
    );
    assert_eq!(
        events_to_blocks(&vec![nested(
            Element::CodeBlock(None),
            vec![leaf("a"), atom(Token::SoftBreak)]
        )]),
        Err(Failure::Unsupported(Unsupported::SpanInCode))
    );
}

#[test]
fn style_set_is_a_set() {
    let mut styles = StyleSet::new();
    assert!(styles.is_empty());
    assert!(!styles.contains(TextStyle::Strong));
    styles.insert(TextStyle::Strong);
    styles.insert(TextStyle::Strong);
    assert!(!styles.is_empty());
    assert!(styles.contains(TextStyle::Strong));
    assert!(!styles.contains(TextStyle::Emphasis));
    assert_eq!(styles, StyleSet::from_styles(&[TextStyle::Strong]));
    assert_eq!(
        StyleSet::from_styles(&[TextStyle::Emphasis, TextStyle::Strikethrough]),
        StyleSet::from_styles(&[
            TextStyle::Strikethrough,
            TextStyle::Emphasis,
            TextStyle::Emphasis
        ])
    );
    assert_eq!(
        StyleSet::new().with(TextStyle::Emphasis).with(TextStyle::Strikethrough),
        StyleSet::from_styles(&[TextStyle::Strikethrough, TextStyle::Emphasis])
    );
    assert_eq!(StyleSet::from_styles(&[]), StyleSet::new());
}

#[test]
fn block_paragraph_wraps_spans() {
    assert_eq!(
        Block::paragraph(vec![plain("a"), TextSpan::SoftBreak]),
        Block::Paragraph(Text(vec![plain("a"), TextSpan::SoftBreak]))
    );
}

#[test]
fn failure_classes_are_told_apart() {
    assert!(Failure::Unsupported(Unsupported::TaskListMarker).unsupported());
    assert!(!Failure::Invariant(Violation::ListChild).unsupported());
}

#[test]
fn clones_are_equal() {
    let span = TextSpan::Link {
        label: Text(vec![styled("a", &[TextStyle::Strong]), TextSpan::Code("b".into())]),
        destination: "c".into(),
    };
    assert_eq!(span.clone(), span);
    let text = Text(vec![span, TextSpan::HardBreak, plain("d")]);
    assert_eq!(text.clone(), text);
    let block = Block::BlockQuote(vec![
        Block::Paragraph(text.clone()),
        Block::Heading(Level::H3, text.clone()),
        Block::List(vec![ListItem(vec![Block::Rule]), ListItem(vec![])]),
        Block::CodeBlock { info_string: Some("x".into()), code: "y".into() },
        Block::CodeBlock { info_string: None, code: "z".into() },
        Block::Table { headers: vec![text.clone()], rows: vec![vec![], vec![text]] },
    ]);
    assert_eq!(block.clone(), block);
    let item = ListItem(vec![block]);
    assert_eq!(item.clone(), item);
}
