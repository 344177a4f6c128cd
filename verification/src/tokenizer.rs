//! The tokenizer: `pulldown_cmark`, with strikethrough and tables enabled.
//!
//! The parser of `pulldown_cmark` lexes Markdown text into a flat stream of
//! events. [`tokenize`] runs it and turns each event into a
//! [`Token`](crate::token::Token) of this crate. What the parser yields for
//! a given text is not restated here: it has a name, [`markdown_events`],
//! and everything downstream is stated over that name.
use vstd::prelude::*;

pub mod outside;

use crate::token::{ColumnAlignment, Element, ElementView, Level, LinkForm, Token, TokenView};
use crate::view::{lemma_views_empty, lemma_views_push, views};

verus! {

/// The characters that a `pulldown_cmark::CowStr` holds.
pub uninterp spec fn cow_text(text: pulldown_cmark::CowStr<'_>) -> Seq<char>;

/// The events that the parser of `pulldown_cmark` yields for a text, with
/// strikethrough and tables enabled and no other extension, each event
/// read as [`event_model`] reads it.
pub uninterp spec fn markdown_events(input: Seq<char>) -> Seq<TokenView>;

/// Copies the text of a `pulldown_cmark::CowStr` into a `String`, through
/// its `ToString`. The contract claims that the string holds the same
/// characters.
#[verifier::external_body]
fn cow_to_string(text: &pulldown_cmark::CowStr<'_>) -> (string: String)
    ensures
        string@ == cow_text(*text),
{
    text.to_string()
}

/// Runs `pulldown_cmark::Parser::new_ext` on `input` with the options
/// `ENABLE_STRIKETHROUGH` and `ENABLE_TABLES`, and collects the events it
/// yields. The contract claims that these events depend on the text alone.
#[verifier::external_body]
fn parse_events<'a>(input: &'a str) -> (events: Vec<pulldown_cmark::Event<'a>>)
    ensures
        event_models(events@) == markdown_events(input@),
{
    let mut options = pulldown_cmark::Options::empty();
    options.insert(pulldown_cmark::Options::ENABLE_STRIKETHROUGH);
    options.insert(pulldown_cmark::Options::ENABLE_TABLES);
    pulldown_cmark::Parser::new_ext(input, options).collect()
}

/// A heading level of the parser as one of this crate.
pub open spec fn level_model(level: pulldown_cmark::HeadingLevel) -> Level {
    match level {
        pulldown_cmark::HeadingLevel::H1 => Level::H1,
        pulldown_cmark::HeadingLevel::H2 => Level::H2,
        pulldown_cmark::HeadingLevel::H3 => Level::H3,
        pulldown_cmark::HeadingLevel::H4 => Level::H4,
        pulldown_cmark::HeadingLevel::H5 => Level::H5,
        pulldown_cmark::HeadingLevel::H6 => Level::H6,
    }
}

/// A link type of the parser as one of this crate.
pub open spec fn link_type_model(link_type: pulldown_cmark::LinkType) -> LinkForm {
    match link_type {
        pulldown_cmark::LinkType::Inline => LinkForm::Inline,
        pulldown_cmark::LinkType::Reference => LinkForm::Reference,
        pulldown_cmark::LinkType::ReferenceUnknown => LinkForm::ReferenceUnknown,
        pulldown_cmark::LinkType::Collapsed => LinkForm::Collapsed,
        pulldown_cmark::LinkType::CollapsedUnknown => LinkForm::CollapsedUnknown,
        pulldown_cmark::LinkType::Shortcut => LinkForm::Shortcut,
        pulldown_cmark::LinkType::ShortcutUnknown => LinkForm::ShortcutUnknown,
        pulldown_cmark::LinkType::Autolink => LinkForm::Autolink,
        pulldown_cmark::LinkType::Email => LinkForm::Email,
    }
}

/// A column alignment of the parser as one of this crate.
pub open spec fn alignment_model(alignment: pulldown_cmark::Alignment) -> ColumnAlignment {
    match alignment {
        pulldown_cmark::Alignment::None => ColumnAlignment::Unspecified,
        pulldown_cmark::Alignment::Left => ColumnAlignment::Left,
        pulldown_cmark::Alignment::Center => ColumnAlignment::Center,
        pulldown_cmark::Alignment::Right => ColumnAlignment::Right,
    }
}

/// The column alignments of a table, in order.
pub open spec fn alignment_models(alignments: Seq<pulldown_cmark::Alignment>) -> Seq<ColumnAlignment> {
    Seq::new(alignments.len(), |i: int| alignment_model(alignments[i]))
}

/// A tag of the parser as the view of a tag of this crate. The identifier
/// and classes of a heading are left out: the extension that fills them is
/// not enabled.
pub open spec fn tag_model(tag: pulldown_cmark::Tag<'_>) -> ElementView {
    match tag {
        pulldown_cmark::Tag::Paragraph => ElementView::Paragraph,
        pulldown_cmark::Tag::Heading(level, _, _) => ElementView::Heading(level_model(level)),
        pulldown_cmark::Tag::BlockQuote => ElementView::BlockQuote,
        pulldown_cmark::Tag::CodeBlock(kind) => match kind {
            pulldown_cmark::CodeBlockKind::Indented => ElementView::CodeBlock(None),
            pulldown_cmark::CodeBlockKind::Fenced(info) => ElementView::CodeBlock(Some(cow_text(info))),
        },
        pulldown_cmark::Tag::List(first) => ElementView::List(first),
        pulldown_cmark::Tag::Item => ElementView::Item,
        pulldown_cmark::Tag::FootnoteDefinition(label) => ElementView::FootnoteDefinition(
            cow_text(label),
        ),
        pulldown_cmark::Tag::Table(alignments) => ElementView::Table(alignment_models(alignments@)),
        pulldown_cmark::Tag::TableHead => ElementView::TableHead,
        pulldown_cmark::Tag::TableRow => ElementView::TableRow,
        pulldown_cmark::Tag::TableCell => ElementView::TableCell,
        pulldown_cmark::Tag::Emphasis => ElementView::Emphasis,
        pulldown_cmark::Tag::Strong => ElementView::Strong,
        pulldown_cmark::Tag::Strikethrough => ElementView::Strikethrough,
        pulldown_cmark::Tag::Link(link_type, destination, title) => ElementView::Link(
            link_type_model(link_type),
            cow_text(destination),
            cow_text(title),
        ),
        pulldown_cmark::Tag::Image(link_type, destination, title) => ElementView::Image(
            link_type_model(link_type),
            cow_text(destination),
            cow_text(title),
        ),
    }
}

/// An event of the parser as the view of an event of this crate.
pub open spec fn event_model(event: pulldown_cmark::Event<'_>) -> TokenView {
    match event {
        pulldown_cmark::Event::Start(tag) => TokenView::Start(tag_model(tag)),
        pulldown_cmark::Event::End(tag) => TokenView::End(tag_model(tag)),
        pulldown_cmark::Event::Text(text) => TokenView::Text(cow_text(text)),
        pulldown_cmark::Event::Code(code) => TokenView::Code(cow_text(code)),
        pulldown_cmark::Event::Html(html) => TokenView::Html(cow_text(html)),
        pulldown_cmark::Event::FootnoteReference(label) => TokenView::FootnoteReference(
            cow_text(label),
        ),
        pulldown_cmark::Event::SoftBreak => TokenView::SoftBreak,
        pulldown_cmark::Event::HardBreak => TokenView::HardBreak,
        pulldown_cmark::Event::Rule => TokenView::Rule,
        pulldown_cmark::Event::TaskListMarker(checked) => TokenView::TaskListMarker(checked),
    }
}

/// The events of the parser as views of events of this crate, in order.
pub open spec fn event_models(events: Seq<pulldown_cmark::Event<'_>>) -> Seq<TokenView> {
    Seq::new(events.len(), |i: int| event_model(events[i]))
}

fn convert_level(level: &pulldown_cmark::HeadingLevel) -> (converted: Level)
    ensures
        converted == level_model(*level),
{
    match level {
        pulldown_cmark::HeadingLevel::H1 => Level::H1,
        pulldown_cmark::HeadingLevel::H2 => Level::H2,
        pulldown_cmark::HeadingLevel::H3 => Level::H3,
        pulldown_cmark::HeadingLevel::H4 => Level::H4,
        pulldown_cmark::HeadingLevel::H5 => Level::H5,
        pulldown_cmark::HeadingLevel::H6 => Level::H6,
    }
}

fn convert_link_type(link_type: &pulldown_cmark::LinkType) -> (converted: LinkForm)
    ensures
        converted == link_type_model(*link_type),
{
    match link_type {
        pulldown_cmark::LinkType::Inline => LinkForm::Inline,
        pulldown_cmark::LinkType::Reference => LinkForm::Reference,
        pulldown_cmark::LinkType::ReferenceUnknown => LinkForm::ReferenceUnknown,
        pulldown_cmark::LinkType::Collapsed => LinkForm::Collapsed,
        pulldown_cmark::LinkType::CollapsedUnknown => LinkForm::CollapsedUnknown,
        pulldown_cmark::LinkType::Shortcut => LinkForm::Shortcut,
        pulldown_cmark::LinkType::ShortcutUnknown => LinkForm::ShortcutUnknown,
        pulldown_cmark::LinkType::Autolink => LinkForm::Autolink,
        pulldown_cmark::LinkType::Email => LinkForm::Email,
    }
}

fn convert_alignments(alignments: &Vec<pulldown_cmark::Alignment>) -> (converted: Vec<ColumnAlignment>)
    ensures
        converted@ == alignment_models(alignments@),
{
    let mut converted: Vec<ColumnAlignment> = Vec::new();
    let mut i: usize = 0;
    while i < alignments.len()
        invariant
            i <= alignments.len(),
            converted@ == alignment_models(alignments@.take(i as int)),
        decreases alignments.len() - i,
    {
        let alignment = match alignments[i] {
            pulldown_cmark::Alignment::None => ColumnAlignment::Unspecified,
            pulldown_cmark::Alignment::Left => ColumnAlignment::Left,
            pulldown_cmark::Alignment::Center => ColumnAlignment::Center,
            pulldown_cmark::Alignment::Right => ColumnAlignment::Right,
        };
        converted.push(alignment);
        i += 1;
        assert(converted@ =~= alignment_models(alignments@.take(i as int)));
    }
    assert(alignments@.take(alignments.len() as int) =~= alignments@);
    converted
}

fn convert_tag(tag: &pulldown_cmark::Tag<'_>) -> (converted: Element)
    ensures
        converted@ == tag_model(*tag),
{
    match tag {
        pulldown_cmark::Tag::Paragraph => Element::Paragraph,
        pulldown_cmark::Tag::Heading(level, _, _) => Element::Heading(convert_level(level)),
        pulldown_cmark::Tag::BlockQuote => Element::BlockQuote,
        pulldown_cmark::Tag::CodeBlock(kind) => match kind {
            pulldown_cmark::CodeBlockKind::Indented => Element::CodeBlock(None),
            pulldown_cmark::CodeBlockKind::Fenced(info) => Element::CodeBlock(
                Some(cow_to_string(info)),
            ),
        },
        pulldown_cmark::Tag::List(first) => Element::List(*first),
        pulldown_cmark::Tag::Item => Element::Item,
        pulldown_cmark::Tag::FootnoteDefinition(label) => Element::FootnoteDefinition(
            cow_to_string(label),
        ),
        pulldown_cmark::Tag::Table(alignments) => Element::Table(convert_alignments(alignments)),
        pulldown_cmark::Tag::TableHead => Element::TableHead,
        pulldown_cmark::Tag::TableRow => Element::TableRow,
        pulldown_cmark::Tag::TableCell => Element::TableCell,
        pulldown_cmark::Tag::Emphasis => Element::Emphasis,
        pulldown_cmark::Tag::Strong => Element::Strong,
        pulldown_cmark::Tag::Strikethrough => Element::Strikethrough,
        pulldown_cmark::Tag::Link(link_type, destination, title) => Element::Link(
            convert_link_type(link_type),
            cow_to_string(destination),
            cow_to_string(title),
        ),
        pulldown_cmark::Tag::Image(link_type, destination, title) => Element::Image(
            convert_link_type(link_type),
            cow_to_string(destination),
            cow_to_string(title),
        ),
    }
}

fn convert_event(event: &pulldown_cmark::Event<'_>) -> (converted: Token)
    ensures
        converted@ == event_model(*event),
{
    match event {
        pulldown_cmark::Event::Start(tag) => Token::Start(convert_tag(tag)),
        pulldown_cmark::Event::End(tag) => Token::End(convert_tag(tag)),
        pulldown_cmark::Event::Text(text) => Token::Text(cow_to_string(text)),
        pulldown_cmark::Event::Code(code) => Token::Code(cow_to_string(code)),
        pulldown_cmark::Event::Html(html) => Token::Html(cow_to_string(html)),
        pulldown_cmark::Event::FootnoteReference(label) => Token::FootnoteReference(
            cow_to_string(label),
        ),
        pulldown_cmark::Event::SoftBreak => Token::SoftBreak,
        pulldown_cmark::Event::HardBreak => Token::HardBreak,
        pulldown_cmark::Event::Rule => Token::Rule,
        pulldown_cmark::Event::TaskListMarker(checked) => Token::TaskListMarker(*checked),
    }
}

/// The flat event stream of a Markdown text.
pub fn tokenize(input: &str) -> (events: Vec<Token>)
    ensures
        views(events@) == markdown_events(input@),
{
    let parsed = parse_events(input);
    let mut events: Vec<Token> = Vec::new();
    proof {
        lemma_views_empty(events@);
        assert(event_models(parsed@.take(0)) =~= Seq::empty());
    }
    let mut i: usize = 0;
    while i < parsed.len()
        invariant
            i <= parsed.len(),
            views(events@) == event_models(parsed@.take(i as int)),
        decreases parsed.len() - i,
    {
        let event = convert_event(&parsed[i]);
        proof {
            lemma_views_push(events@, event);
            assert(parsed@.take(i + 1) =~= parsed@.take(i as int).push(parsed@[i as int]));
            assert(event_models(parsed@.take(i as int).push(parsed@[i as int]))
                =~= event_models(parsed@.take(i as int)).push(event_model(parsed@[i as int])));
        }
        events.push(event);
        i += 1;
    }
    assert(parsed@.take(parsed.len() as int) =~= parsed@);
    events
}

} // verus!
