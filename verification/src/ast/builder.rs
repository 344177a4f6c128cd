//! From the tree to blocks.
//!
//! Each function here computes one of the functions of
//! [`crate::ast::rules`] and says so in its contract. A sequence of nodes is
//! walked from left to right, depth first; the first failure ends the walk.
use vstd::prelude::*;
use vstd::string::*;

use crate::ast::{
    lemma_link_view, lemma_list_view, lemma_quote_view, rows_view, Block, BlockView, ListItem,
    SpanView, StyleSet, Text, TextSpan, TextStyle,
};
use crate::ast::rules::{
    ast_of, block_step, blocks_fold, blocks_of, cell_content, cells_fold, cells_of, code_fold,
    code_text, inline_compatible, items_fold, link_span, markdown_ast, rows_fold, table_of,
    text_fold, text_of, text_step, BuildState,
};
use crate::ast::unflatten::{lemma_nested_view, unflatten, UnflattenedEvent};
use crate::failure::{Failure, Unsupported, Violation};
use crate::token::{Element, ElementView, LinkForm, Token};
use crate::tokenizer::tokenize;
use crate::view::{lemma_skip_step, lemma_views_add, lemma_views_empty, lemma_views_push, views};

verus! {

/// The view of a block sequence or of the failure in its place.
pub open spec fn blocks_result_view(result: Result<Vec<Block>, Failure>) -> Result<
    Seq<BlockView>,
    Failure,
> {
    match result {
        Ok(blocks) => Ok(views(blocks@)),
        Err(failure) => Err(failure),
    }
}

/// The view of a text or of the failure in its place.
pub open spec fn text_result_view(result: Result<Text, Failure>) -> Result<Seq<SpanView>, Failure> {
    match result {
        Ok(text) => Ok(text@),
        Err(failure) => Err(failure),
    }
}

/// The view of a span or of the failure in its place.
pub open spec fn span_result_view(result: Result<TextSpan, Failure>) -> Result<SpanView, Failure> {
    match result {
        Ok(span) => Ok(span@),
        Err(failure) => Err(failure),
    }
}

/// The view of a string or of the failure in its place.
pub open spec fn string_result_view(result: Result<String, Failure>) -> Result<Seq<char>, Failure> {
    match result {
        Ok(string) => Ok(string@),
        Err(failure) => Err(failure),
    }
}

/// Whether `event` can be added to the text in progress. A node that
/// cannot starts a new [`Block`].
pub fn is_inline(event: &UnflattenedEvent) -> (result: Result<bool, Failure>)
    ensures
        result == inline_compatible(event@),
{
    match event {
        UnflattenedEvent::Event(event) => match event {
            Token::Start(_) | Token::End(_) => Err(Failure::Invariant(Violation::BareTagEvent)),
            Token::Text(_) => Ok(true),
            Token::Code(_) => Ok(true),
            Token::SoftBreak => Ok(true),
            Token::HardBreak => Ok(true),
            Token::Html(_) => Ok(false),
            Token::Rule => Ok(false),
            Token::TaskListMarker(_) => Ok(false),
            Token::FootnoteReference(_) => Ok(true),
        },
        UnflattenedEvent::Nested { tag, events } => {
            proof {
                lemma_nested_view(*tag, *events);
            }
            match tag {
                Element::Emphasis | Element::Strong | Element::Strikethrough => Ok(true),
                Element::Link(_, _, _) => Ok(true),
                Element::Heading(_) => Ok(false),
                Element::Paragraph => Ok(false),
                Element::List(_) => Ok(false),
                Element::Item => Ok(false),
                Element::CodeBlock(_) => Ok(false),
                Element::BlockQuote => Ok(false),
                Element::Table(_) => Ok(false),
                Element::TableHead | Element::TableRow => Err(
                    Failure::Invariant(Violation::StrayTablePart),
                ),
                Element::TableCell | Element::Image(_, _, _) | Element::FootnoteDefinition(_) => Err(
                    Failure::Unsupported(Unsupported::Element(tag.kind())),
                ),
            }
        },
    }
}

impl TextSpan {
    /// The span for a link with the given label text and destination.
    ///
    /// Fails unless the link was written inline.
    pub fn from_link(link_type: LinkForm, text: Text, destination: String) -> (result: Result<
        TextSpan,
        Failure,
    >)
        ensures
            span_result_view(result) == link_span(link_type, text@, destination@),
    {
        match link_type {
            LinkForm::Inline => {
                proof {
                    lemma_link_view(text, destination);
                }
                Ok(TextSpan::Link { label: text, destination })
            },
            _ => Err(Failure::Unsupported(Unsupported::LinkForm(link_type))),
        }
    }
}

/// Extends `text_spans` by what one node of inline text contributes.
fn unwrap_text_node(
    text_spans: &mut Vec<TextSpan>,
    styles: StyleSet,
    event: &UnflattenedEvent,
) -> (result: Result<(), Failure>)
    ensures
        match text_step(views(old(text_spans)@), styles@, event@) {
            Ok(next) => result is Ok && views(final(text_spans)@) == next,
            Err(failure) => result == Err::<(), Failure>(failure),
        },
    decreases event, 0int,
{
    let ghost before = text_spans@;
    match event {
        UnflattenedEvent::Event(event) => match event {
            Token::Start(_) | Token::End(_) => Err(Failure::Invariant(Violation::BareTagEvent)),
            Token::Text(text) => {
                let span = TextSpan::Text(text.clone(), styles);
                proof {
                    lemma_views_push(before, span);
                }
                text_spans.push(span);
                Ok(())
            },
            Token::Code(code) => {
                let span = TextSpan::Code(code.clone());
                proof {
                    lemma_views_push(before, span);
                }
                text_spans.push(span);
                Ok(())
            },
            Token::SoftBreak => {
                proof {
                    lemma_views_push(before, TextSpan::SoftBreak);
                }
                text_spans.push(TextSpan::SoftBreak);
                Ok(())
            },
            Token::HardBreak => {
                proof {
                    lemma_views_push(before, TextSpan::HardBreak);
                }
                text_spans.push(TextSpan::HardBreak);
                Ok(())
            },
            Token::Html(_) => Ok(()),
            Token::TaskListMarker(_) => Err(Failure::Unsupported(Unsupported::TaskListMarker)),
            Token::Rule => Err(Failure::Unsupported(Unsupported::RuleInText)),
            Token::FootnoteReference(_) => Err(
                Failure::Unsupported(Unsupported::FootnoteReference),
            ),
        },
        UnflattenedEvent::Nested { tag, events } => {
            proof {
                lemma_nested_view(*tag, *events);
            }
            match tag {
                Element::Emphasis => {
                    let Text(mut inner) = unwrap_text(events, styles.with(TextStyle::Emphasis))?;
                    proof {
                        lemma_views_add(before, inner@);
                    }
                    text_spans.append(&mut inner);
                    Ok(())
                },
                Element::Strong => {
                    let Text(mut inner) = unwrap_text(events, styles.with(TextStyle::Strong))?;
                    proof {
                        lemma_views_add(before, inner@);
                    }
                    text_spans.append(&mut inner);
                    Ok(())
                },
                Element::Strikethrough => {
                    let Text(mut inner) = unwrap_text(
                        events,
                        styles.with(TextStyle::Strikethrough),
                    )?;
                    proof {
                        lemma_views_add(before, inner@);
                    }
                    text_spans.append(&mut inner);
                    Ok(())
                },
                Element::Paragraph => {
                    // A paragraph after other content is set off by two
                    // line breaks; a leading one is not.
                    if text_spans.len() > 0 {
                        proof {
                            lemma_views_push(before, TextSpan::HardBreak);
                            lemma_views_push(before.push(TextSpan::HardBreak), TextSpan::HardBreak);
                        }
                        text_spans.push(TextSpan::HardBreak);
                        text_spans.push(TextSpan::HardBreak);
                    }
                    let ghost broken = text_spans@;
                    let Text(mut inner) = unwrap_text(events, styles)?;
                    proof {
                        lemma_views_add(broken, inner@);
                        if before.len() == 0 {
                            assert(views(before) + views(inner@) =~= views(inner@));
                        }
                    }
                    text_spans.append(&mut inner);
                    Ok(())
                },
                Element::Link(link_type, destination, _) => {
                    let label = unwrap_text(events, StyleSet::new())?;
                    let span = TextSpan::from_link(*link_type, label, destination.clone())?;
                    proof {
                        lemma_views_push(before, span);
                    }
                    text_spans.push(span);
                    Ok(())
                },
                _ => Err(Failure::Unsupported(Unsupported::Element(tag.kind()))),
            }
        },
    }
}

/// The inline text of `events`, each run carrying `styles` and the styles
/// of the tags around it.
///
/// Fails on a node that inline text cannot hold.
pub fn unwrap_text(events: &Vec<UnflattenedEvent>, styles: StyleSet) -> (result: Result<
    Text,
    Failure,
>)
    ensures
        text_result_view(result) == text_of(views(events@), styles@),
    decreases events, 1int,
{
    let ghost all = views(events@);
    let mut text_spans: Vec<TextSpan> = Vec::new();
    proof {
        lemma_views_empty(text_spans@);
        assert(all.skip(0) =~= all);
    }
    let mut i: usize = 0;
    while i < events.len()
        invariant
            i <= events.len(),
            all == views(events@),
            text_of(all, styles@) == text_fold(all.skip(i as int), styles@, views(text_spans@)),
        decreases events.len() - i,
    {
        proof {
            lemma_skip_step(all, i as int);
        }
        unwrap_text_node(&mut text_spans, styles, &events[i])?;
        i += 1;
    }
    Ok(Text(text_spans))
}

/// The literal text of a code block.
///
/// Every span must be a run of text without styles. Fails on a styled run
/// and on any other span.
pub fn text_to_string(text: &Text) -> (result: Result<String, Failure>)
    ensures
        string_result_view(result) == code_text(text@),
{
    let ghost all = text@;
    let mut string = String::new();
    proof {
        assert(all.skip(0) =~= all);
    }
    let mut i: usize = 0;
    while i < text.0.len()
        invariant
            i <= text.0.len(),
            all == views(text.0@),
            code_text(all) == code_fold(all.skip(i as int), string@),
        decreases text.0.len() - i,
    {
        proof {
            lemma_skip_step(all, i as int);
        }
        match &text.0[i] {
            TextSpan::Text(run, styles) => {
                if !styles.is_empty() {
                    return Err(Failure::Invariant(Violation::StyledCode));
                }
                string.append(run.as_str());
            },
            TextSpan::Link { label, destination } => {
                proof {
                    lemma_link_view(*label, *destination);
                }
                return Err(Failure::Unsupported(Unsupported::SpanInCode));
            },
            _ => {
                return Err(Failure::Unsupported(Unsupported::SpanInCode));
            },
        }
        i += 1;
    }
    Ok(string)
}

/// The nodes that a table cell encloses. Fails unless `event` is a table
/// cell.
pub fn unwrap_table_cell(event: &UnflattenedEvent) -> (result: Result<
    &Vec<UnflattenedEvent>,
    Failure,
>)
    ensures
        match cell_content(event@) {
            Ok(content) => result is Ok && views(result->Ok_0@) == content,
            Err(failure) => result == Err::<&Vec<UnflattenedEvent>, Failure>(failure),
        },
{
    match event {
        UnflattenedEvent::Event(_) => Err(Failure::Invariant(Violation::TableCell)),
        UnflattenedEvent::Nested { tag, events } => {
            proof {
                lemma_nested_view(*tag, *events);
            }
            match tag {
                Element::TableCell => Ok(events),
                _ => Err(Failure::Invariant(Violation::TableCell)),
            }
        },
    }
}

/// The text of each cell of a table head or row.
fn table_cells(cells: &Vec<UnflattenedEvent>) -> (result: Result<Vec<Text>, Failure>)
    ensures
        match cells_of(views(cells@)) {
            Ok(texts) => result is Ok && views(result->Ok_0@) == texts,
            Err(failure) => result == Err::<Vec<Text>, Failure>(failure),
        },
{
    let ghost all = views(cells@);
    let mut texts: Vec<Text> = Vec::new();
    proof {
        lemma_views_empty(texts@);
        assert(all.skip(0) =~= all);
    }
    let mut i: usize = 0;
    while i < cells.len()
        invariant
            i <= cells.len(),
            all == views(cells@),
            cells_of(all) == cells_fold(all.skip(i as int), views(texts@)),
        decreases cells.len() - i,
    {
        proof {
            lemma_skip_step(all, i as int);
        }
        let content = unwrap_table_cell(&cells[i])?;
        let text = unwrap_text(content, StyleSet::new())?;
        proof {
            lemma_views_push(texts@, text);
        }
        texts.push(text);
        i += 1;
    }
    Ok(texts)
}

/// The table block for the children of a table tag.
fn table(children: &Vec<UnflattenedEvent>) -> (result: Result<Block, Failure>)
    ensures
        match table_of(views(children@)) {
            Ok(block) => result is Ok && result->Ok_0@ == block,
            Err(failure) => result == Err::<Block, Failure>(failure),
        },
{
    let ghost all = views(children@);
    if children.len() == 0 {
        return Err(Failure::Invariant(Violation::TableHead));
    }
    let headers = match &children[0] {
        UnflattenedEvent::Event(_) => {
            return Err(Failure::Invariant(Violation::TableHead));
        },
        UnflattenedEvent::Nested { tag, events } => {
            proof {
                lemma_nested_view(*tag, *events);
            }
            match tag {
                Element::TableHead => table_cells(events)?,
                _ => {
                    return Err(Failure::Invariant(Violation::TableHead));
                },
            }
        },
    };
    let mut rows: Vec<Vec<Text>> = Vec::new();
    proof {
        assert(rows_view(rows@) =~= Seq::empty());
        assert(all.drop_first() =~= all.skip(1));
    }
    let mut i: usize = 1;
    while i < children.len()
        invariant
            1 <= i <= children.len(),
            all == views(children@),
            all[0] is Nested,
            all[0]->tag == ElementView::TableHead,
            cells_of(all[0]->events) == Ok::<Seq<Seq<SpanView>>, Failure>(views(headers@)),
            rows_fold(all.drop_first(), Seq::empty()) == rows_fold(
                all.skip(i as int),
                rows_view(rows@),
            ),
        decreases children.len() - i,
    {
        proof {
            lemma_skip_step(all, i as int);
        }
        let row = match &children[i] {
            UnflattenedEvent::Event(_) => {
                return Err(Failure::Invariant(Violation::TableRow));
            },
            UnflattenedEvent::Nested { tag, events } => {
                proof {
                    lemma_nested_view(*tag, *events);
                }
                match tag {
                    Element::TableRow => table_cells(events)?,
                    _ => {
                        return Err(Failure::Invariant(Violation::TableRow));
                    },
                }
            },
        };
        proof {
            assert(rows_view(rows@.push(row)) =~= rows_view(rows@).push(views(row@)));
        }
        rows.push(row);
        i += 1;
    }
    Ok(Block::Table { headers, rows })
}

/// The items of a list. Each child must be a list item.
fn list_items(children: &Vec<UnflattenedEvent>) -> (result: Result<Vec<ListItem>, Failure>)
    ensures
        match items_fold(views(children@), Seq::empty()) {
            Ok(items) => result is Ok && views(result->Ok_0@) == items,
            Err(failure) => result == Err::<Vec<ListItem>, Failure>(failure),
        },
    decreases children, 0int,
{
    let ghost all = views(children@);
    let mut items: Vec<ListItem> = Vec::new();
    proof {
        lemma_views_empty(items@);
        assert(all.skip(0) =~= all);
    }
    let mut i: usize = 0;
    while i < children.len()
        invariant
            i <= children.len(),
            all == views(children@),
            items_fold(all, Seq::empty()) == items_fold(all.skip(i as int), views(items@)),
        decreases children.len() - i,
    {
        proof {
            lemma_skip_step(all, i as int);
        }
        match &children[i] {
            UnflattenedEvent::Event(_) => {
                return Err(Failure::Invariant(Violation::ListChild));
            },
            UnflattenedEvent::Nested { tag, events } => {
                proof {
                    lemma_nested_view(*tag, *events);
                }
                match tag {
                    Element::Item => {
                        let item = ListItem(events_to_blocks(events)?);
                        proof {
                            lemma_views_push(items@, item);
                        }
                        items.push(item);
                    },
                    _ => {
                        return Err(Failure::Invariant(Violation::ListChild));
                    },
                }
            },
        }
        i += 1;
    }
    Ok(items)
}

/// Turns the pending spans, if there are any, into a paragraph.
fn flush(complete: &mut Vec<Block>, text_spans: &mut Vec<TextSpan>)
    ensures
        (BuildState { complete: views(final(complete)@), pending: views(final(text_spans)@) })
            == (BuildState {
            complete: views(old(complete)@),
            pending: views(old(text_spans)@),
        }).flush(),
{
    if text_spans.len() > 0 {
        let mut spans: Vec<TextSpan> = Vec::new();
        std::mem::swap(&mut spans, text_spans);
        let block = Block::paragraph(spans);
        proof {
            lemma_views_push(complete@, block);
            lemma_views_empty(text_spans@);
        }
        complete.push(block);
    }
}

/// Advances the builder by one node: `complete` and `text_spans` hold the
/// state before and after.
fn block_node(
    complete: &mut Vec<Block>,
    text_spans: &mut Vec<TextSpan>,
    event: &UnflattenedEvent,
) -> (result: Result<(), Failure>)
    ensures
        match block_step(
            BuildState { complete: views(old(complete)@), pending: views(old(text_spans)@) },
            event@,
        ) {
            Ok(next) => result is Ok && next == (BuildState {
                complete: views(final(complete)@),
                pending: views(final(text_spans)@),
            }),
            Err(failure) => result == Err::<(), Failure>(failure),
        },
    decreases event, 0int,
{
    if !is_inline(event)? {
        flush(complete, text_spans);
    }
    let ghost blocks = complete@;
    let ghost spans = text_spans@;
    match event {
        UnflattenedEvent::Event(event) => match event {
            Token::Start(_) | Token::End(_) => Err(Failure::Invariant(Violation::BareTagEvent)),
            Token::Text(text) => {
                let span = TextSpan::Text(text.clone(), StyleSet::new());
                proof {
                    lemma_views_push(spans, span);
                }
                text_spans.push(span);
                Ok(())
            },
            Token::Code(code) => {
                let span = TextSpan::Code(code.clone());
                proof {
                    lemma_views_push(spans, span);
                }
                text_spans.push(span);
                Ok(())
            },
            Token::SoftBreak => {
                proof {
                    lemma_views_push(spans, TextSpan::SoftBreak);
                }
                text_spans.push(TextSpan::SoftBreak);
                Ok(())
            },
            Token::HardBreak => {
                proof {
                    lemma_views_push(spans, TextSpan::HardBreak);
                }
                text_spans.push(TextSpan::HardBreak);
                Ok(())
            },
            Token::Html(_) => Ok(()),
            Token::Rule => {
                proof {
                    lemma_views_push(blocks, Block::Rule);
                }
                complete.push(Block::Rule);
                Ok(())
            },
            Token::TaskListMarker(_) => Err(Failure::Unsupported(Unsupported::TaskListMarker)),
            Token::FootnoteReference(_) => Err(
                Failure::Unsupported(Unsupported::FootnoteReference),
            ),
        },
        UnflattenedEvent::Nested { tag, events } => {
            proof {
                lemma_nested_view(*tag, *events);
            }
            match tag {
                Element::Emphasis => {
                    let Text(mut inner) = unwrap_text(
                        events,
                        StyleSet::new().with(TextStyle::Emphasis),
                    )?;
                    proof {
                        lemma_views_add(spans, inner@);
                    }
                    text_spans.append(&mut inner);
                    Ok(())
                },
                Element::Strong => {
                    let Text(mut inner) = unwrap_text(
                        events,
                        StyleSet::new().with(TextStyle::Strong),
                    )?;
                    proof {
                        lemma_views_add(spans, inner@);
                    }
                    text_spans.append(&mut inner);
                    Ok(())
                },
                Element::Strikethrough => {
                    let Text(mut inner) = unwrap_text(
                        events,
                        StyleSet::new().with(TextStyle::Strikethrough),
                    )?;
                    proof {
                        lemma_views_add(spans, inner@);
                    }
                    text_spans.append(&mut inner);
                    Ok(())
                },
                Element::Link(link_type, destination, _) => {
                    let label = unwrap_text(events, StyleSet::new())?;
                    let span = TextSpan::from_link(*link_type, label, destination.clone())?;
                    proof {
                        lemma_views_push(spans, span);
                    }
                    text_spans.push(span);
                    Ok(())
                },
                Element::Heading(level) => {
                    let block = Block::Heading(*level, unwrap_text(events, StyleSet::new())?);
                    proof {
                        lemma_views_push(blocks, block);
                    }
                    complete.push(block);
                    Ok(())
                },
                Element::Paragraph => {
                    let Text(mut inner) = unwrap_text(events, StyleSet::new())?;
                    proof {
                        lemma_views_add(spans, inner@);
                    }
                    text_spans.append(&mut inner);
                    Ok(())
                },
                Element::List(_) => {
                    let items = list_items(events)?;
                    let block = Block::List(items);
                    proof {
                        lemma_list_view(items);
                        lemma_views_push(blocks, block);
                    }
                    complete.push(block);
                    Ok(())
                },
                Element::Item => {
                    let mut inner = events_to_blocks(events)?;
                    proof {
                        lemma_views_add(blocks, inner@);
                    }
                    complete.append(&mut inner);
                    Ok(())
                },
                Element::CodeBlock(kind) => {
                    let info_string = match kind {
                        None => None,
                        Some(label) => Some(label.clone()),
                    };
                    let text = unwrap_text(events, StyleSet::new())?;
                    let code = text_to_string(&text)?;
                    let block = Block::CodeBlock { info_string, code };
                    proof {
                        lemma_views_push(blocks, block);
                    }
                    complete.push(block);
                    Ok(())
                },
                Element::BlockQuote => {
                    let quoted = events_to_blocks(events)?;
                    let block = Block::BlockQuote(quoted);
                    proof {
                        lemma_quote_view(quoted);
                        lemma_views_push(blocks, block);
                    }
                    complete.push(block);
                    Ok(())
                },
                Element::Table(_) => {
                    let block = table(events)?;
                    proof {
                        lemma_views_push(blocks, block);
                    }
                    complete.push(block);
                    Ok(())
                },
                _ => Err(Failure::Unsupported(Unsupported::Element(tag.kind()))),
            }
        },
    }
}

/// The blocks of a sequence of nodes.
///
/// Inline nodes between two blocks gather into one paragraph. Fails on an
/// unsupported construct and on a tree that no tokenizer produces; no
/// partial result is given.
pub fn events_to_blocks(events: &Vec<UnflattenedEvent>) -> (result: Result<Vec<Block>, Failure>)
    ensures
        blocks_result_view(result) == blocks_of(views(events@)),
    decreases events, 1int,
{
    let ghost all = views(events@);
    let mut complete: Vec<Block> = Vec::new();
    let mut text_spans: Vec<TextSpan> = Vec::new();
    proof {
        lemma_views_empty(complete@);
        lemma_views_empty(text_spans@);
        assert(all.skip(0) =~= all);
    }
    let mut i: usize = 0;
    while i < events.len()
        invariant
            i <= events.len(),
            all == views(events@),
            blocks_fold(all, BuildState::empty()) == blocks_fold(
                all.skip(i as int),
                BuildState { complete: views(complete@), pending: views(text_spans@) },
            ),
        decreases events.len() - i,
    {
        proof {
            lemma_skip_step(all, i as int);
        }
        block_node(&mut complete, &mut text_spans, &events[i])?;
        i += 1;
    }
    flush(&mut complete, &mut text_spans);
    Ok(complete)
}

/// The blocks of a flat event stream.
///
/// Fails where the stream implies no tree, and where
/// [`events_to_blocks`] fails on the tree.
pub fn events_to_ast(events: Vec<Token>) -> (result: Result<Vec<Block>, Failure>)
    ensures
        blocks_result_view(result) == ast_of(views(events@)),
{
    let nodes = unflatten(events)?;
    events_to_blocks(&nodes)
}

/// The blocks of a Markdown text.
///
/// The text is tokenized with strikethrough and tables enabled. The
/// conversion gives the whole document or fails: there is no partial
/// result.
pub fn parse_markdown_to_ast(input: &str) -> (result: Result<Vec<Block>, Failure>)
    ensures
        blocks_result_view(result) == markdown_ast(input@),
{
    events_to_ast(tokenize(input))
}

} // verus!
