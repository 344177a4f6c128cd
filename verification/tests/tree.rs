use md2nb::ast::unflatten::{
    parse_markdown_to_unflattened_events, unflatten, UnflattenedEvent, Unflattener,
};
use md2nb::failure::{Failure, Violation};
use md2nb::token::{ColumnAlignment, Element, ElementKind, Level, LinkForm, Token};
use md2nb::tokenizer::tokenize;
use md2nb::warning::{warnings, Warning};

fn text(s: &str) -> Token {
    Token::Text(s.into())
}

fn leaf(s: &str) -> UnflattenedEvent {
    UnflattenedEvent::Event(text(s))
}

fn nested(tag: Element, events: Vec<UnflattenedEvent>) -> UnflattenedEvent {
    UnflattenedEvent::Nested { tag, events }
}

#[test]
fn tokenize_yields_the_flat_stream() {
    assert_eq!(
        tokenize("*a* b"),
        vec![
            Token::Start(Element::Paragraph),
            Token::Start(Element::Emphasis),
            text("a"),
            Token::End(Element::Emphasis),
            text(" b"),
            Token::End(Element::Paragraph),
        ]
    );
}

#[test]
fn tokenize_carries_tag_payloads() {
    assert_eq!(
        tokenize("## h\n\n3. x\n\n```sh\nls\n```\n\n[a](b \"t\")\n"),
        vec![
            Token::Start(Element::Heading(Level::H2)),
            text("h"),
            Token::End(Element::Heading(Level::H2)),
            Token::Start(Element::List(Some(3))),
            Token::Start(Element::Item),
            text("x"),
            Token::End(Element::Item),
            Token::End(Element::List(Some(3))),
            Token::Start(Element::CodeBlock(Some("sh".into()))),
            text("ls\n"),
            Token::End(Element::CodeBlock(Some("sh".into()))),
            Token::Start(Element::Paragraph),
            Token::Start(Element::Link(LinkForm::Inline, "b".into(), "t".into())),
            text("a"),
            Token::End(Element::Link(LinkForm::Inline, "b".into(), "t".into())),
            Token::End(Element::Paragraph),
        ]
    );
}

#[test]
fn tokenize_enables_tables_and_strikethrough() {
    let tokens = tokenize("|a|b|c|d|\n|--|:-|:-:|-:|\n\n~~x~~");
    assert_eq!(
        tokens[0],
        Token::Start(Element::Table(vec![
            ColumnAlignment::Unspecified,
            ColumnAlignment::Left,
            ColumnAlignment::Center,
            ColumnAlignment::Right,
        ]))
    );
    assert!(tokens.contains(&Token::Start(Element::TableHead)));
    assert!(tokens.contains(&Token::Start(Element::TableCell)));
    assert!(tokens.contains(&Token::Start(Element::Strikethrough)));
}

#[test]
fn tokenize_leaves_other_extensions_off() {
    assert!(!tokenize("* [x] done").contains(&Token::TaskListMarker(true)));
    assert!(!tokenize("a[^1]\n\n[^1]: note").contains(&Token::FootnoteReference("1".into())));
}

#[test]
fn tokenize_atomic_events() {
    assert_eq!(
        tokenize("a\nb  \n`c`<i>\n\n---\n"),
        vec![
            Token::Start(Element::Paragraph),
            text("a"),
            Token::SoftBreak,
            text("b"),
            Token::HardBreak,
            Token::Code("c".into()),
            Token::Html("<i>".into()),
            Token::End(Element::Paragraph),
            Token::Rule,
        ]
    );
}

#[test]
fn unflatten_rebuilds_the_tree() {
    let tokens = vec![
        Token::Start(Element::List(None)),
        Token::Start(Element::Item),
        text("a"),
        Token::Start(Element::Emphasis),
        text("b"),
        Token::End(Element::Emphasis),
        Token::End(Element::Item),
        Token::End(Element::List(None)),
        Token::Rule,
    ];
    assert_eq!(
        unflatten(tokens),
        Ok(vec![
            nested(
                Element::List(None),
                vec![nested(
                    Element::Item,
                    vec![leaf("a"), nested(Element::Emphasis, vec![leaf("b")])]
                )]
            ),
            UnflattenedEvent::Event(Token::Rule),
        ])
    );
}

#[test]
fn unflatten_of_nothing_is_nothing() {
    assert_eq!(unflatten(vec![]), Ok(vec![]));
}

#[test]
fn unflatten_empty_element() {
    assert_eq!(
        unflatten(vec![Token::Start(Element::Paragraph), Token::End(Element::Paragraph)]),
        Ok(vec![nested(Element::Paragraph, vec![])])
    );
}

#[test]
fn unflatten_rejects_end_without_start() {
    assert_eq!(
        unflatten(vec![text("a"), Token::End(Element::Paragraph)]),
        Err(Failure::Invariant(Violation::UnmatchedEnd))
    );
}

#[test]
fn unflatten_rejects_mismatched_end() {
    assert_eq!(
        unflatten(vec![Token::Start(Element::Emphasis), Token::End(Element::Strong)]),
        Err(Failure::Invariant(Violation::MismatchedEnd))
    );
}

#[test]
fn unflatten_compares_tag_payloads() {
    assert_eq!(
        unflatten(vec![
            Token::Start(Element::Heading(Level::H1)),
            Token::End(Element::Heading(Level::H2)),
        ]),
        Err(Failure::Invariant(Violation::MismatchedEnd))
    );
    assert_eq!(
        unflatten(vec![
            Token::Start(Element::Link(LinkForm::Inline, "a".into(), "".into())),
            Token::End(Element::Link(LinkForm::Inline, "b".into(), "".into())),
        ]),
        Err(Failure::Invariant(Violation::MismatchedEnd))
    );
    assert_eq!(
        unflatten(vec![
            Token::Start(Element::Table(vec![ColumnAlignment::Left])),
            Token::End(Element::Table(vec![ColumnAlignment::Right])),
        ]),
        Err(Failure::Invariant(Violation::MismatchedEnd))
    );
}

#[test]
fn unflatten_rejects_crossed_tags() {
    assert_eq!(
        unflatten(vec![
            Token::Start(Element::Emphasis),
            Token::Start(Element::Strong),
            Token::End(Element::Emphasis),
            Token::End(Element::Strong),
        ]),
        Err(Failure::Invariant(Violation::MismatchedEnd))
    );
}

#[test]
fn unflatten_rejects_unclosed_tag() {
    assert_eq!(
        unflatten(vec![Token::Start(Element::Paragraph), text("a")]),
        Err(Failure::Invariant(Violation::UnclosedTag))
    );
}

#[test]
fn unflattener_takes_events_one_by_one() {
    let mut unflattener = Unflattener::new();
    assert_eq!(unflattener.handle_event(text("a")), Ok(()));
    assert_eq!(unflattener.handle_event(Token::Start(Element::Strong)), Ok(()));
    assert_eq!(unflattener.handle_event(text("b")), Ok(()));
    assert_eq!(unflattener.handle_event(Token::End(Element::Strong)), Ok(()));
    assert_eq!(
        unflattener.finish(),
        Ok(vec![leaf("a"), nested(Element::Strong, vec![leaf("b")])])
    );
}

#[test]
fn unflattener_keeps_its_state_on_a_bad_end() {
    let mut unflattener = Unflattener::new();
    assert_eq!(unflattener.handle_event(Token::Start(Element::Strong)), Ok(()));
    assert_eq!(
        unflattener.handle_event(Token::End(Element::Emphasis)),
        Err(Failure::Invariant(Violation::MismatchedEnd))
    );
    assert_eq!(unflattener.handle_event(Token::End(Element::Strong)), Ok(()));
    assert_eq!(unflattener.finish(), Ok(vec![nested(Element::Strong, vec![])]));
}

#[test]
fn unflattener_finish_with_open_tag_fails() {
    let mut unflattener = Unflattener::new();
    assert_eq!(unflattener.handle_event(Token::Start(Element::Item)), Ok(()));
    assert_eq!(unflattener.finish(), Err(Failure::Invariant(Violation::UnclosedTag)));
}

#[test]
fn markdown_to_tree() {
    assert_eq!(
        parse_markdown_to_unflattened_events("> *a*"),
        Ok(vec![nested(
            Element::BlockQuote,
            vec![nested(
                Element::Paragraph,
                vec![nested(Element::Emphasis, vec![leaf("a")])]
            )]
        )])
    );
}

#[test]
fn element_kind_forgets_the_payload() {
    assert_eq!(Element::Heading(Level::H4).kind(), ElementKind::Heading);
    assert_eq!(Element::CodeBlock(None).kind(), ElementKind::CodeBlock);
    assert_eq!(
        Element::Image(LinkForm::Inline, "a".into(), "b".into()).kind(),
        ElementKind::Image
    );
    assert_eq!(Element::TableCell.kind(), ElementKind::TableCell);
}

#[test]
fn element_same_as_compares_payloads() {
    assert!(Element::Paragraph.same_as(&Element::Paragraph));
    assert!(!Element::Paragraph.same_as(&Element::Item));
    assert!(Element::List(Some(2)).same_as(&Element::List(Some(2))));
    assert!(!Element::List(Some(2)).same_as(&Element::List(None)));
    assert!(!Element::List(Some(2)).same_as(&Element::List(Some(3))));
    assert!(Element::CodeBlock(Some("a".into())).same_as(&Element::CodeBlock(Some("a".into()))));
    assert!(!Element::CodeBlock(Some("a".into())).same_as(&Element::CodeBlock(None)));
    assert!(!Element::FootnoteDefinition("a".into())
        .same_as(&Element::FootnoteDefinition("b".into())));
    assert!(Element::Table(vec![ColumnAlignment::Left, ColumnAlignment::Center])
        .same_as(&Element::Table(vec![ColumnAlignment::Left, ColumnAlignment::Center])));
    assert!(!Element::Table(vec![ColumnAlignment::Left])
        .same_as(&Element::Table(vec![ColumnAlignment::Left, ColumnAlignment::Center])));
    assert!(!Element::Link(LinkForm::Inline, "a".into(), "t".into())
        .same_as(&Element::Link(LinkForm::Inline, "a".into(), "u".into())));
    assert!(!Element::Link(LinkForm::Inline, "a".into(), "t".into())
        .same_as(&Element::Image(LinkForm::Inline, "a".into(), "t".into())));
}

#[test]
fn level_numbers() {
    assert_eq!(Level::H1.number(), 1);
    assert_eq!(Level::H2.number(), 2);
    assert_eq!(Level::H3.number(), 3);
    assert_eq!(Level::H4.number(), 4);
    assert_eq!(Level::H5.number(), 5);
    assert_eq!(Level::H6.number(), 6);
}

#[test]
fn warnings_list_what_is_left_out() {
    assert_eq!(
        warnings(&tokenize("a <b>c</b> [d](e \"title\") [f](g)\n\n<hr>\n")),
        vec![
            Warning::SkippedHtml,
            Warning::SkippedHtml,
            Warning::IgnoredLinkTitle("title".into()),
            Warning::SkippedHtml,
        ]
    );
    assert_eq!(warnings(&tokenize("plain *text*")), vec![]);
    assert_eq!(warnings(&vec![]), vec![]);
}
