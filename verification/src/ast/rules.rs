//! What the blocks of a tree are.
//!
//! The functions here are the meaning of the builder, over views. A
//! sequence of nodes is read from left to right by a small state machine:
//! it holds the blocks that are complete and the inline spans that are
//! pending, and each node either extends the pending spans or, being
//! block-breaking, first turns them into a paragraph.
use vstd::prelude::*;

use crate::ast::{BlockView, SpanView, TextStyle};
use crate::ast::unflatten::{unflatten_spec, NodeView};
use crate::failure::{Failure, Unsupported, Violation};
use crate::token::{ElementView, LinkForm, TokenView};
use crate::tokenizer::markdown_events;

verus! {

/// The style that a tag adds to the text inside it, if it is a style tag.
pub open spec fn tag_style(tag: ElementView) -> Option<TextStyle> {
    match tag {
        ElementView::Emphasis => Some(TextStyle::Emphasis),
        ElementView::Strong => Some(TextStyle::Strong),
        ElementView::Strikethrough => Some(TextStyle::Strikethrough),
        _ => None,
    }
}

/// Whether a node can extend the paragraph in progress (`true`) or starts
/// a new block (`false`).
///
/// Text, inline code, line breaks, footnote references, style tags and
/// links are inline. Headings, paragraphs, lists, items, code blocks, block
/// quotes, tables, HTML, task markers and thematic breaks are
/// block-breaking. The other nodes have no place in a sequence of blocks.
pub open spec fn inline_compatible(node: NodeView) -> Result<bool, Failure> {
    match node {
        NodeView::Event(event) => match event {
            TokenView::Start(_) | TokenView::End(_) => Err(
                Failure::Invariant(Violation::BareTagEvent),
            ),
            TokenView::Text(_) => Ok(true),
            TokenView::Code(_) => Ok(true),
            TokenView::SoftBreak => Ok(true),
            TokenView::HardBreak => Ok(true),
            TokenView::Html(_) => Ok(false),
            TokenView::Rule => Ok(false),
            TokenView::TaskListMarker(_) => Ok(false),
            TokenView::FootnoteReference(_) => Ok(true),
        },
        NodeView::Nested { tag, events } => match tag {
            ElementView::Emphasis | ElementView::Strong | ElementView::Strikethrough => Ok(true),
            ElementView::Link(_, _, _) => Ok(true),
            ElementView::Heading(_) => Ok(false),
            ElementView::Paragraph => Ok(false),
            ElementView::List(_) => Ok(false),
            ElementView::Item => Ok(false),
            ElementView::CodeBlock(_) => Ok(false),
            ElementView::BlockQuote => Ok(false),
            ElementView::Table(_) => Ok(false),
            ElementView::TableHead | ElementView::TableRow => Err(
                Failure::Invariant(Violation::StrayTablePart),
            ),
            ElementView::TableCell | ElementView::Image(_, _, _) | ElementView::FootnoteDefinition(_) => Err(
                Failure::Unsupported(Unsupported::Element(tag.kind())),
            ),
        },
    }
}

/// The span for a link. Only a link written inline is accepted.
pub open spec fn link_span(
    link_type: LinkForm,
    label: Seq<SpanView>,
    destination: Seq<char>,
) -> Result<SpanView, Failure> {
    if link_type == LinkForm::Inline {
        Ok(SpanView::Link { label, destination })
    } else {
        Err(Failure::Unsupported(Unsupported::LinkForm(link_type)))
    }
}

/// The spans gathered so far, extended by one node of inline text.
///
/// `styles` is the set of styles active around the node. A style tag adds
/// its style for its own children only. A paragraph that follows other
/// content is set off by two hard breaks. The label of a link starts from
/// no style.
pub open spec fn text_step(spans: Seq<SpanView>, styles: Set<TextStyle>, node: NodeView) -> Result<
    Seq<SpanView>,
    Failure,
>
    decreases node, 0int,
{
    match node {
        NodeView::Event(event) => match event {
            TokenView::Start(_) | TokenView::End(_) => Err(
                Failure::Invariant(Violation::BareTagEvent),
            ),
            TokenView::Text(text) => Ok(spans.push(SpanView::Text(text, styles))),
            TokenView::Code(code) => Ok(spans.push(SpanView::Code(code))),
            TokenView::SoftBreak => Ok(spans.push(SpanView::SoftBreak)),
            TokenView::HardBreak => Ok(spans.push(SpanView::HardBreak)),
            TokenView::Html(_) => Ok(spans),
            TokenView::TaskListMarker(_) => Err(Failure::Unsupported(Unsupported::TaskListMarker)),
            TokenView::Rule => Err(Failure::Unsupported(Unsupported::RuleInText)),
            TokenView::FootnoteReference(_) => Err(
                Failure::Unsupported(Unsupported::FootnoteReference),
            ),
        },
        NodeView::Nested { tag, events } => match tag {
            ElementView::Emphasis | ElementView::Strong | ElementView::Strikethrough => match text_of(
                events,
                styles.insert(tag_style(tag)->0),
            ) {
                Ok(inner) => Ok(spans + inner),
                Err(failure) => Err(failure),
            },
            ElementView::Paragraph => match text_of(events, styles) {
                Ok(inner) => if spans.len() == 0 {
                    Ok(inner)
                } else {
                    Ok(spans.push(SpanView::HardBreak).push(SpanView::HardBreak) + inner)
                },
                Err(failure) => Err(failure),
            },
            ElementView::Link(link_type, destination, _) => match text_of(events, Set::empty()) {
                Ok(label) => match link_span(link_type, label, destination) {
                    Ok(span) => Ok(spans.push(span)),
                    Err(failure) => Err(failure),
                },
                Err(failure) => Err(failure),
            },
            _ => Err(Failure::Unsupported(Unsupported::Element(tag.kind()))),
        },
    }
}

/// The spans gathered so far, extended by a sequence of nodes from left to
/// right, or the first failure.
pub open spec fn text_fold(nodes: Seq<NodeView>, styles: Set<TextStyle>, spans: Seq<SpanView>) -> Result<
    Seq<SpanView>,
    Failure,
>
    decreases nodes, 0int,
{
    if nodes.len() == 0 {
        Ok(spans)
    } else {
        match text_step(spans, styles, nodes[0]) {
            Ok(next) => text_fold(nodes.drop_first(), styles, next),
            Err(failure) => Err(failure),
        }
    }
}

/// The inline text of a sequence of nodes under the given active styles.
pub open spec fn text_of(nodes: Seq<NodeView>, styles: Set<TextStyle>) -> Result<
    Seq<SpanView>,
    Failure,
>
    decreases nodes, 1int,
{
    text_fold(nodes, styles, Seq::empty())
}

/// The code gathered so far, extended by the spans of a code block.
///
/// Each span must be a run of text without styles; it contributes its
/// content.
pub open spec fn code_fold(spans: Seq<SpanView>, code: Seq<char>) -> Result<Seq<char>, Failure>
    decreases spans.len(),
{
    if spans.len() == 0 {
        Ok(code)
    } else {
        match spans[0] {
            SpanView::Text(text, styles) => if styles == Set::<TextStyle>::empty() {
                code_fold(spans.drop_first(), code + text)
            } else {
                Err(Failure::Invariant(Violation::StyledCode))
            },
            _ => Err(Failure::Unsupported(Unsupported::SpanInCode)),
        }
    }
}

/// The literal text of a code block: its runs, concatenated.
pub open spec fn code_text(spans: Seq<SpanView>) -> Result<Seq<char>, Failure> {
    code_fold(spans, Seq::empty())
}

/// What a table cell encloses. The node must be a table cell.
pub open spec fn cell_content(node: NodeView) -> Result<Seq<NodeView>, Failure> {
    match node {
        NodeView::Nested { tag: ElementView::TableCell, events } => Ok(events),
        _ => Err(Failure::Invariant(Violation::TableCell)),
    }
}

/// The texts gathered so far, extended by the text of each cell.
pub open spec fn cells_fold(nodes: Seq<NodeView>, cells: Seq<Seq<SpanView>>) -> Result<
    Seq<Seq<SpanView>>,
    Failure,
>
    decreases nodes.len(),
{
    if nodes.len() == 0 {
        Ok(cells)
    } else {
        match cell_content(nodes[0]) {
            Ok(content) => match text_of(content, Set::empty()) {
                Ok(text) => cells_fold(nodes.drop_first(), cells.push(text)),
                Err(failure) => Err(failure),
            },
            Err(failure) => Err(failure),
        }
    }
}

/// The text of each cell of a table head or row.
pub open spec fn cells_of(nodes: Seq<NodeView>) -> Result<Seq<Seq<SpanView>>, Failure> {
    cells_fold(nodes, Seq::empty())
}

/// The rows gathered so far, extended by each node, which must be a table
/// row.
pub open spec fn rows_fold(nodes: Seq<NodeView>, rows: Seq<Seq<Seq<SpanView>>>) -> Result<
    Seq<Seq<Seq<SpanView>>>,
    Failure,
>
    decreases nodes.len(),
{
    if nodes.len() == 0 {
        Ok(rows)
    } else {
        match nodes[0] {
            NodeView::Nested { tag: ElementView::TableRow, events } => match cells_of(events) {
                Ok(row) => rows_fold(nodes.drop_first(), rows.push(row)),
                Err(failure) => Err(failure),
            },
            _ => Err(Failure::Invariant(Violation::TableRow)),
        }
    }
}

/// The table block for the children of a table tag: a head first, then
/// rows. Rows are not held to the head's number of cells.
pub open spec fn table_of(nodes: Seq<NodeView>) -> Result<BlockView, Failure> {
    if nodes.len() == 0 {
        Err(Failure::Invariant(Violation::TableHead))
    } else {
        match nodes[0] {
            NodeView::Nested { tag: ElementView::TableHead, events } => match cells_of(events) {
                Ok(headers) => match rows_fold(nodes.drop_first(), Seq::empty()) {
                    Ok(rows) => Ok(BlockView::Table { headers, rows }),
                    Err(failure) => Err(failure),
                },
                Err(failure) => Err(failure),
            },
            _ => Err(Failure::Invariant(Violation::TableHead)),
        }
    }
}

/// The state of the builder between two nodes.
pub struct BuildState {
    /// The blocks that are complete, in order.
    pub complete: Seq<BlockView>,
    /// The inline spans that no block holds yet.
    pub pending: Seq<SpanView>,
}

impl BuildState {
    /// Nothing complete, nothing pending.
    pub open spec fn empty() -> BuildState {
        BuildState { complete: Seq::empty(), pending: Seq::empty() }
    }

    /// Turns the pending spans, if there are any, into a paragraph.
    pub open spec fn flush(self) -> BuildState {
        if self.pending.len() == 0 {
            self
        } else {
            BuildState {
                complete: self.complete.push(BlockView::Paragraph(self.pending)),
                pending: Seq::empty(),
            }
        }
    }

    /// Adds spans to the pending ones.
    pub open spec fn spans(self, spans: Seq<SpanView>) -> BuildState {
        BuildState { complete: self.complete, pending: self.pending + spans }
    }

    /// Adds one span to the pending ones.
    pub open spec fn span(self, span: SpanView) -> BuildState {
        BuildState { complete: self.complete, pending: self.pending.push(span) }
    }

    /// Adds blocks to the complete ones.
    pub open spec fn blocks(self, blocks: Seq<BlockView>) -> BuildState {
        BuildState { complete: self.complete + blocks, pending: self.pending }
    }

    /// Adds one block to the complete ones.
    pub open spec fn block(self, block: BlockView) -> BuildState {
        BuildState { complete: self.complete.push(block), pending: self.pending }
    }
}

/// The state after one node.
///
/// A block-breaking node first flushes the pending spans. Then the node is
/// handled by its kind: inline content extends the pending spans, a
/// paragraph's text opens them anew, and every other block is added to the
/// complete ones.
pub open spec fn block_step(state: BuildState, node: NodeView) -> Result<BuildState, Failure>
    decreases node, 0int,
{
    match inline_compatible(node) {
        Err(failure) => Err(failure),
        Ok(inline) => {
            let state = if inline {
                state
            } else {
                state.flush()
            };
            match node {
                NodeView::Event(event) => match event {
                    TokenView::Start(_) | TokenView::End(_) => Err(
                        Failure::Invariant(Violation::BareTagEvent),
                    ),
                    TokenView::Text(text) => Ok(state.span(SpanView::Text(text, Set::empty()))),
                    TokenView::Code(code) => Ok(state.span(SpanView::Code(code))),
                    TokenView::SoftBreak => Ok(state.span(SpanView::SoftBreak)),
                    TokenView::HardBreak => Ok(state.span(SpanView::HardBreak)),
                    TokenView::Html(_) => Ok(state),
                    TokenView::Rule => Ok(state.block(BlockView::Rule)),
                    TokenView::TaskListMarker(_) => Err(
                        Failure::Unsupported(Unsupported::TaskListMarker),
                    ),
                    TokenView::FootnoteReference(_) => Err(
                        Failure::Unsupported(Unsupported::FootnoteReference),
                    ),
                },
                NodeView::Nested { tag, events } => match tag {
                    ElementView::Emphasis | ElementView::Strong | ElementView::Strikethrough => match text_of(
                        events,
                        Set::empty().insert(tag_style(tag)->0),
                    ) {
                        Ok(spans) => Ok(state.spans(spans)),
                        Err(failure) => Err(failure),
                    },
                    ElementView::Link(link_type, destination, _) => match text_of(
                        events,
                        Set::empty(),
                    ) {
                        Ok(label) => match link_span(link_type, label, destination) {
                            Ok(span) => Ok(state.span(span)),
                            Err(failure) => Err(failure),
                        },
                        Err(failure) => Err(failure),
                    },
                    ElementView::Heading(level) => match text_of(events, Set::empty()) {
                        Ok(text) => Ok(state.block(BlockView::Heading(level, text))),
                        Err(failure) => Err(failure),
                    },
                    ElementView::Paragraph => match text_of(events, Set::empty()) {
                        Ok(spans) => Ok(state.spans(spans)),
                        Err(failure) => Err(failure),
                    },
                    ElementView::List(_) => match items_fold(events, Seq::empty()) {
                        Ok(items) => Ok(state.block(BlockView::List(items))),
                        Err(failure) => Err(failure),
                    },
                    ElementView::Item => match blocks_of(events) {
                        Ok(blocks) => Ok(state.blocks(blocks)),
                        Err(failure) => Err(failure),
                    },
                    ElementView::CodeBlock(info_string) => match text_of(events, Set::empty()) {
                        Ok(spans) => match code_text(spans) {
                            Ok(code) => Ok(state.block(BlockView::CodeBlock { info_string, code })),
                            Err(failure) => Err(failure),
                        },
                        Err(failure) => Err(failure),
                    },
                    ElementView::BlockQuote => match blocks_of(events) {
                        Ok(blocks) => Ok(state.block(BlockView::BlockQuote(blocks))),
                        Err(failure) => Err(failure),
                    },
                    ElementView::Table(_) => match table_of(events) {
                        Ok(table) => Ok(state.block(table)),
                        Err(failure) => Err(failure),
                    },
                    _ => Err(Failure::Unsupported(Unsupported::Element(tag.kind()))),
                },
            }
        },
    }
}

/// The state after a sequence of nodes from left to right, or the first
/// failure.
pub open spec fn blocks_fold(nodes: Seq<NodeView>, state: BuildState) -> Result<BuildState, Failure>
    decreases nodes, 0int,
{
    if nodes.len() == 0 {
        Ok(state)
    } else {
        match block_step(state, nodes[0]) {
            Ok(next) => blocks_fold(nodes.drop_first(), next),
            Err(failure) => Err(failure),
        }
    }
}

/// The blocks of a sequence of nodes: what is complete after the last node,
/// with what is still pending as a last paragraph.
pub open spec fn blocks_of(nodes: Seq<NodeView>) -> Result<Seq<BlockView>, Failure>
    decreases nodes, 1int,
{
    match blocks_fold(nodes, BuildState::empty()) {
        Ok(state) => Ok(state.flush().complete),
        Err(failure) => Err(failure),
    }
}

/// The items gathered so far, extended by each child of a list. Each child
/// must be a list item; its blocks are those of what it encloses.
pub open spec fn items_fold(nodes: Seq<NodeView>, items: Seq<Seq<BlockView>>) -> Result<
    Seq<Seq<BlockView>>,
    Failure,
>
    decreases nodes, 0int,
{
    if nodes.len() == 0 {
        Ok(items)
    } else {
        match nodes[0] {
            NodeView::Nested { tag: ElementView::Item, events } => match blocks_of(events) {
                Ok(blocks) => items_fold(nodes.drop_first(), items.push(blocks)),
                Err(failure) => Err(failure),
            },
            _ => Err(Failure::Invariant(Violation::ListChild)),
        }
    }
}

/// The blocks of a flat event stream: those of the tree that it implies.
pub open spec fn ast_of(events: Seq<TokenView>) -> Result<Seq<BlockView>, Failure> {
    match unflatten_spec(events) {
        Ok(nodes) => blocks_of(nodes),
        Err(failure) => Err(failure),
    }
}

/// The blocks of a Markdown text: those of the events that the tokenizer
/// yields for it. The result is a function of the text alone.
pub open spec fn markdown_ast(input: Seq<char>) -> Result<Seq<BlockView>, Failure> {
    ast_of(markdown_events(input))
}

} // verus!
