//! Markdown as a sequence of typed blocks.
//!
//! A document is a sequence of [`Block`]s. A block holds [`Text`], a
//! sequence of [`TextSpan`]s in reading order, or other blocks. Every node
//! owns its children: the model is a strict tree.
use vstd::prelude::*;

use crate::view::{lemma_views_empty, lemma_views_push, views};

pub use crate::ast::builder::{
    events_to_ast, events_to_blocks, is_inline, parse_markdown_to_ast, text_to_string,
    unwrap_table_cell, unwrap_text,
};
pub use crate::token::Level;

pub mod builder;
pub mod flatten;
pub mod laws;
pub mod rules;
pub mod unflatten;

verus! {

/// A style that a run of text can carry.
#[derive(Debug, Clone, Copy, PartialEq, Eq, Hash, Structural)]
pub enum TextStyle {
    Emphasis,
    Strong,
    Strikethrough,
}

/// A set of [`TextStyle`]s. Only membership matters, not order.
#[derive(Debug, Clone, Copy, PartialEq, Eq, Hash)]
pub struct StyleSet {
    emphasis: bool,
    strong: bool,
    strikethrough: bool,
}

impl View for StyleSet {
    type V = Set<TextStyle>;

    closed spec fn view(&self) -> Set<TextStyle> {
        Set::new(
            |style: TextStyle|
                match style {
                    TextStyle::Emphasis => self.emphasis,
                    TextStyle::Strong => self.strong,
                    TextStyle::Strikethrough => self.strikethrough,
                },
        )
    }
}

impl StyleSet {
    /// The empty set.
    pub fn new() -> (styles: StyleSet)
        ensures
            styles@ == Set::<TextStyle>::empty(),
    {
        let styles = StyleSet { emphasis: false, strong: false, strikethrough: false };
        assert(styles@ =~= Set::<TextStyle>::empty());
        styles
    }

    /// The set holding exactly the given styles.
    pub fn from_styles(list: &[TextStyle]) -> (styles: StyleSet)
        ensures
            styles@ == list@.to_set(),
    {
        let mut styles = StyleSet::new();
        let mut i: usize = 0;
        while i < list.len()
            invariant
                i <= list.len(),
                styles@ == list@.take(i as int).to_set(),
            decreases list.len() - i,
        {
            assert(list@.take(i + 1) =~= list@.take(i as int).push(list@[i as int]));
            assert(list@.take(i + 1).to_set() =~= list@.take(i as int).to_set().insert(
                list@[i as int],
            )) by {
                let shorter = list@.take(i as int);
                let longer = list@.take(i + 1);
                assert forall|s: TextStyle| longer.to_set().contains(s) implies shorter.to_set().insert(
                    list@[i as int],
                ).contains(s) by {
                    let j = choose|j: int| 0 <= j < longer.len() && longer[j] == s;
                    if j < i {
                        assert(shorter[j] == s);
                    }
                }
                assert forall|s: TextStyle|
                    shorter.to_set().insert(list@[i as int]).contains(
                        s,
                    ) implies longer.to_set().contains(s) by {
                    if s == list@[i as int] {
                        assert(longer[i as int] == s);
                    } else {
                        let j = choose|j: int| 0 <= j < shorter.len() && shorter[j] == s;
                        assert(longer[j] == s);
                    }
                }
            }
            styles.insert(list[i]);
            i += 1;
        }
        assert(list@.take(list.len() as int) =~= list@);
        styles
    }

    /// Adds `style` to the set.
    pub fn insert(&mut self, style: TextStyle)
        ensures
            final(self)@ == old(self)@.insert(style),
    {
        match style {
            TextStyle::Emphasis => {
                self.emphasis = true;
            },
            TextStyle::Strong => {
                self.strong = true;
            },
            TextStyle::Strikethrough => {
                self.strikethrough = true;
            },
        }
        assert(self@ =~= old(self)@.insert(style));
    }

    /// This set with `style` added.
    pub fn with(self, style: TextStyle) -> (styles: StyleSet)
        ensures
            styles@ == self@.insert(style),
    {
        let mut styles = self;
        styles.insert(style);
        styles
    }

    /// Whether `style` is in the set.
    pub fn contains(&self, style: TextStyle) -> (found: bool)
        ensures
            found == self@.contains(style),
    {
        match style {
            TextStyle::Emphasis => self.emphasis,
            TextStyle::Strong => self.strong,
            TextStyle::Strikethrough => self.strikethrough,
        }
    }

    /// Whether the set holds no style.
    pub fn is_empty(&self) -> (empty: bool)
        ensures
            empty == (self@ == Set::<TextStyle>::empty()),
    {
        let empty = !self.emphasis && !self.strong && !self.strikethrough;
        proof {
            if empty {
                assert(self@ =~= Set::<TextStyle>::empty());
            } else {
                assert(self@.contains(TextStyle::Emphasis) || self@.contains(TextStyle::Strong)
                    || self@.contains(TextStyle::Strikethrough));
            }
        }
        empty
    }
}

/// A piece of inline content.
#[derive(Debug, PartialEq)]
pub enum TextSpan {
    /// A run of text with every style that was active where it occurred.
    Text(String, StyleSet),
    /// Inline code, verbatim. It carries no styles.
    Code(String),
    /// An inline link. The label is itself styled text.
    Link { label: Text, destination: String },
    /// A line wrap that does not end the paragraph.
    SoftBreak,
    /// An explicit line break.
    HardBreak,
}

/// A sequence of [`TextSpan`]s in reading order.
#[derive(Debug, PartialEq)]
pub struct Text(pub Vec<TextSpan>);

/// One item of a list: a sequence of blocks.
#[derive(Debug, PartialEq)]
pub struct ListItem(pub Vec<Block>);

/// A structural unit of a document.
#[derive(Debug, PartialEq)]
pub enum Block {
    Paragraph(Text),
    List(Vec<ListItem>),
    Heading(Level, Text),
    /// An indented or fenced code block. A fenced block has an info string.
    CodeBlock { info_string: Option<String>, code: String },
    BlockQuote(Vec<Block>),
    Table { headers: Vec<Text>, rows: Vec<Vec<Text>> },
    /// A thematic break.
    Rule,
}

/// The mathematical value of a [`TextSpan`].
pub enum SpanView {
    Text(Seq<char>, Set<TextStyle>),
    Code(Seq<char>),
    Link { label: Seq<SpanView>, destination: Seq<char> },
    SoftBreak,
    HardBreak,
}

/// The mathematical value of a [`Block`]. A text is the sequence of its
/// spans, a list item the sequence of its blocks.
pub enum BlockView {
    Paragraph(Seq<SpanView>),
    List(Seq<Seq<BlockView>>),
    Heading(Level, Seq<SpanView>),
    CodeBlock { info_string: Option<Seq<char>>, code: Seq<char> },
    BlockQuote(Seq<BlockView>),
    Table { headers: Seq<Seq<SpanView>>, rows: Seq<Seq<Seq<SpanView>>> },
    Rule,
}

/// The view of one span.
pub open spec fn span_view(span: TextSpan) -> SpanView
    decreases span,
{
    match span {
        TextSpan::Text(text, styles) => SpanView::Text(text@, styles@),
        TextSpan::Code(code) => SpanView::Code(code@),
        TextSpan::Link { label, destination } => SpanView::Link {
            label: Seq::new(
                label.0@.len(),
                |i: int|
                    if 0 <= i < label.0@.len() {
                        span_view(label.0@[i])
                    } else {
                        arbitrary()
                    },
            ),
            destination: destination@,
        },
        TextSpan::SoftBreak => SpanView::SoftBreak,
        TextSpan::HardBreak => SpanView::HardBreak,
    }
}

/// The views of the rows of a table, in order.
pub open spec fn rows_view(rows: Seq<Vec<Text>>) -> Seq<Seq<Seq<SpanView>>> {
    Seq::new(rows.len(), |i: int| views(rows[i]@))
}

/// The view of one block.
pub open spec fn block_view(block: Block) -> BlockView
    decreases block,
{
    match block {
        Block::Paragraph(text) => BlockView::Paragraph(text@),
        Block::List(items) => BlockView::List(
            Seq::new(
                items@.len(),
                |i: int|
                    if 0 <= i < items@.len() {
                        Seq::new(
                            items@[i].0@.len(),
                            |j: int|
                                if 0 <= j < items@[i].0@.len() {
                                    block_view(items@[i].0@[j])
                                } else {
                                    arbitrary()
                                },
                        )
                    } else {
                        arbitrary()
                    },
            ),
        ),
        Block::Heading(level, text) => BlockView::Heading(level, text@),
        Block::CodeBlock { info_string, code } => BlockView::CodeBlock {
            info_string: crate::token::option_view(info_string),
            code: code@,
        },
        Block::BlockQuote(blocks) => BlockView::BlockQuote(
            Seq::new(
                blocks@.len(),
                |i: int|
                    if 0 <= i < blocks@.len() {
                        block_view(blocks@[i])
                    } else {
                        arbitrary()
                    },
            ),
        ),
        Block::Table { headers, rows } => BlockView::Table {
            headers: views(headers@),
            rows: rows_view(rows@),
        },
        Block::Rule => BlockView::Rule,
    }
}

impl View for TextSpan {
    type V = SpanView;

    open spec fn view(&self) -> SpanView {
        span_view(*self)
    }
}

impl View for Text {
    type V = Seq<SpanView>;

    open spec fn view(&self) -> Seq<SpanView> {
        views(self.0@)
    }
}

impl View for ListItem {
    type V = Seq<BlockView>;

    open spec fn view(&self) -> Seq<BlockView> {
        views(self.0@)
    }
}

impl View for Block {
    type V = BlockView;

    open spec fn view(&self) -> BlockView {
        block_view(*self)
    }
}

/// The view of a link is its label's view beside its destination.
pub proof fn lemma_link_view(label: Text, destination: String)
    ensures
        span_view(TextSpan::Link { label, destination }) == (SpanView::Link {
            label: label@,
            destination: destination@,
        }),
{
    let inner = span_view(TextSpan::Link { label, destination })->label;
    assert(inner =~= label@);
}

/// The view of a list holds the view of each item.
pub proof fn lemma_list_view(items: Vec<ListItem>)
    ensures
        block_view(Block::List(items)) == BlockView::List(views(items@)),
{
    let inner = block_view(Block::List(items))->List_0;
    assert(inner.len() == items@.len());
    assert forall|i: int| 0 <= i < inner.len() implies inner[i] == views(items@)[i] by {
        assert(inner[i] =~= items@[i]@);
    }
    assert(inner =~= views(items@));
}

/// The view of a block quote holds the view of each quoted block.
pub proof fn lemma_quote_view(blocks: Vec<Block>)
    ensures
        block_view(Block::BlockQuote(blocks)) == BlockView::BlockQuote(views(blocks@)),
{
    let inner = block_view(Block::BlockQuote(blocks))->BlockQuote_0;
    assert(inner =~= views(blocks@));
}

impl Block {
    /// A paragraph holding the given spans.
    pub fn paragraph(text: Vec<TextSpan>) -> (block: Block)
        ensures
            block@ == BlockView::Paragraph(views(text@)),
    {
        Block::Paragraph(Text(text))
    }
}

fn clone_span(span: &TextSpan) -> (copy: TextSpan)
    ensures
        copy@ == span@,
    decreases span, 0int,
{
    match span {
        TextSpan::Text(text, styles) => TextSpan::Text(text.clone(), *styles),
        TextSpan::Code(code) => TextSpan::Code(code.clone()),
        TextSpan::Link { label, destination } => {
            let copy = TextSpan::Link { label: clone_text(label), destination: destination.clone() };
            proof {
                lemma_link_view(*label, *destination);
                lemma_link_view(copy->label, copy->destination);
            }
            copy
        },
        TextSpan::SoftBreak => TextSpan::SoftBreak,
        TextSpan::HardBreak => TextSpan::HardBreak,
    }
}

fn clone_text(text: &Text) -> (copy: Text)
    ensures
        copy@ == text@,
    decreases text, 1int,
{
    let mut spans: Vec<TextSpan> = Vec::new();
    proof {
        lemma_views_empty(spans@);
    }
    let mut i: usize = 0;
    while i < text.0.len()
        invariant
            i <= text.0.len(),
            views(spans@) == views(text.0@.take(i as int)),
        decreases text.0.len() - i,
    {
        let span = clone_span(&text.0[i]);
        proof {
            lemma_views_push(spans@, span);
            lemma_views_push(text.0@.take(i as int), text.0@[i as int]);
            assert(text.0@.take(i + 1) =~= text.0@.take(i as int).push(text.0@[i as int]));
        }
        spans.push(span);
        i += 1;
    }
    proof {
        assert(text.0@.take(text.0.len() as int) =~= text.0@);
    }
    Text(spans)
}

fn clone_texts(texts: &Vec<Text>) -> (copy: Vec<Text>)
    ensures
        views(copy@) == views(texts@),
{
    let mut copy: Vec<Text> = Vec::new();
    proof {
        lemma_views_empty(copy@);
    }
    let mut i: usize = 0;
    while i < texts.len()
        invariant
            i <= texts.len(),
            views(copy@) == views(texts@.take(i as int)),
        decreases texts.len() - i,
    {
        let text = clone_text(&texts[i]);
        proof {
            lemma_views_push(copy@, text);
            lemma_views_push(texts@.take(i as int), texts@[i as int]);
            assert(texts@.take(i + 1) =~= texts@.take(i as int).push(texts@[i as int]));
        }
        copy.push(text);
        i += 1;
    }
    proof {
        assert(texts@.take(texts.len() as int) =~= texts@);
    }
    copy
}

fn clone_rows(rows: &Vec<Vec<Text>>) -> (copy: Vec<Vec<Text>>)
    ensures
        rows_view(copy@) == rows_view(rows@),
{
    let mut copy: Vec<Vec<Text>> = Vec::new();
    proof {
        assert(rows_view(copy@) =~= rows_view(rows@.take(0)));
    }
    let mut i: usize = 0;
    while i < rows.len()
        invariant
            i <= rows.len(),
            rows_view(copy@) == rows_view(rows@.take(i as int)),
        decreases rows.len() - i,
    {
        let row = clone_texts(&rows[i]);
        proof {
            assert(rows@.take(i + 1) =~= rows@.take(i as int).push(rows@[i as int]));
            assert(rows_view(copy@.push(row)) =~= rows_view(copy@).push(views(row@)));
            assert(rows_view(rows@.take(i as int).push(rows@[i as int])) =~= rows_view(
                rows@.take(i as int),
            ).push(views(rows@[i as int]@)));
        }
        copy.push(row);
        i += 1;
    }
    proof {
        assert(rows@.take(rows.len() as int) =~= rows@);
    }
    copy
}

fn clone_block(block: &Block) -> (copy: Block)
    ensures
        copy@ == block@,
    decreases block, 0int,
{
    match block {
        Block::Paragraph(text) => Block::Paragraph(clone_text(text)),
        Block::List(items) => {
            let copy = clone_items(items);
            proof {
                lemma_list_view(*items);
                lemma_list_view(copy);
            }
            Block::List(copy)
        },
        Block::Heading(level, text) => Block::Heading(*level, clone_text(text)),
        Block::CodeBlock { info_string, code } => Block::CodeBlock {
            info_string: match info_string {
                Some(info) => Some(info.clone()),
                None => None,
            },
            code: code.clone(),
        },
        Block::BlockQuote(blocks) => {
            let copy = clone_blocks(blocks);
            proof {
                lemma_quote_view(*blocks);
                lemma_quote_view(copy);
            }
            Block::BlockQuote(copy)
        },
        Block::Table { headers, rows } => Block::Table {
            headers: clone_texts(headers),
            rows: clone_rows(rows),
        },
        Block::Rule => Block::Rule,
    }
}

fn clone_items(items: &Vec<ListItem>) -> (copy: Vec<ListItem>)
    ensures
        views(copy@) == views(items@),
    decreases items, 1int,
{
    let mut copy: Vec<ListItem> = Vec::new();
    proof {
        lemma_views_empty(copy@);
    }
    let mut i: usize = 0;
    while i < items.len()
        invariant
            i <= items.len(),
            views(copy@) == views(items@.take(i as int)),
        decreases items.len() - i,
    {
        let item = ListItem(clone_blocks(&items[i].0));
        proof {
            lemma_views_push(copy@, item);
            lemma_views_push(items@.take(i as int), items@[i as int]);
            assert(items@.take(i + 1) =~= items@.take(i as int).push(items@[i as int]));
        }
        copy.push(item);
        i += 1;
    }
    proof {
        assert(items@.take(items.len() as int) =~= items@);
    }
    copy
}

fn clone_blocks(blocks: &Vec<Block>) -> (copy: Vec<Block>)
    ensures
        views(copy@) == views(blocks@),
    decreases blocks, 1int,
{
    let mut copy: Vec<Block> = Vec::new();
    proof {
        lemma_views_empty(copy@);
    }
    let mut i: usize = 0;
    while i < blocks.len()
        invariant
            i <= blocks.len(),
            views(copy@) == views(blocks@.take(i as int)),
        decreases blocks.len() - i,
    {
        let block = clone_block(&blocks[i]);
        proof {
            lemma_views_push(copy@, block);
            lemma_views_push(blocks@.take(i as int), blocks@[i as int]);
            assert(blocks@.take(i + 1) =~= blocks@.take(i as int).push(blocks@[i as int]));
        }
        copy.push(block);
        i += 1;
    }
    proof {
        assert(blocks@.take(blocks.len() as int) =~= blocks@);
    }
    copy
}

impl Clone for TextSpan {
    /// A copy with the same view.
    fn clone(&self) -> (copy: TextSpan)
        ensures
            copy@ == self@,
    {
        clone_span(self)
    }
}

impl Clone for Text {
    /// A copy with the same view.
    fn clone(&self) -> (copy: Text)
        ensures
            copy@ == self@,
    {
        clone_text(self)
    }
}

impl Clone for ListItem {
    /// A copy with the same view.
    fn clone(&self) -> (copy: ListItem)
        ensures
            copy@ == self@,
    {
        ListItem(clone_blocks(&self.0))
    }
}

impl Clone for Block {
    /// A copy with the same view.
    fn clone(&self) -> (copy: Block)
        ensures
            copy@ == self@,
    {
        clone_block(self)
    }
}

} // verus!
