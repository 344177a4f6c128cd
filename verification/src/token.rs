//! The vocabulary of the tokenizer: the tokens of a flat stream, and the
//! elements that they open and close.
//!
//! These types hold as plain values what the later stages read. Each has a
//! view in which strings are `Seq<char>` and vectors are `Seq`.
use vstd::prelude::*;

verus! {

/// The level of a heading, from `H1` (outermost) to `H6`.
#[derive(Debug, Clone, Copy, PartialEq, Eq, Hash, Structural)]
pub enum Level {
    H1,
    H2,
    H3,
    H4,
    H5,
    H6,
}

impl Level {
    /// The level as a number from 1 to 6.
    pub open spec fn level(self) -> int {
        match self {
            Level::H1 => 1,
            Level::H2 => 2,
            Level::H3 => 3,
            Level::H4 => 4,
            Level::H5 => 5,
            Level::H6 => 6,
        }
    }

    /// The level as a number from 1 to 6.
    pub fn number(self) -> (n: u8)
        ensures
            n == self.level(),
            1 <= n <= 6,
    {
        match self {
            Level::H1 => 1,
            Level::H2 => 2,
            Level::H3 => 3,
            Level::H4 => 4,
            Level::H5 => 5,
            Level::H6 => 6,
        }
    }
}

/// How a link was written in the source.
#[derive(Debug, Clone, Copy, PartialEq, Eq, Structural)]
pub enum LinkForm {
    /// `[label](destination)`
    Inline,
    /// `[label][reference]`
    Reference,
    /// A reference link whose reference is not defined in the document.
    ReferenceUnknown,
    /// `[label][]`
    Collapsed,
    /// A collapsed link whose reference is not defined in the document.
    CollapsedUnknown,
    /// `[label]`
    Shortcut,
    /// A shortcut link whose reference is not defined in the document.
    ShortcutUnknown,
    /// `<http://example.org>`
    Autolink,
    /// `<someone@example.org>`
    Email,
}

/// The text alignment of a table column.
#[derive(Debug, Clone, Copy, PartialEq, Eq, Structural)]
pub enum ColumnAlignment {
    /// No alignment was given.
    Unspecified,
    Left,
    Center,
    Right,
}

/// The kind of an [`Element`], without its payload.
#[derive(Debug, Clone, Copy, PartialEq, Eq, Structural)]
pub enum ElementKind {
    Paragraph,
    Heading,
    BlockQuote,
    CodeBlock,
    List,
    Item,
    FootnoteDefinition,
    Table,
    TableHead,
    TableRow,
    TableCell,
    Emphasis,
    Strong,
    Strikethrough,
    Link,
    Image,
}

/// The tag of an element that encloses other content.
#[derive(Debug, Clone, PartialEq)]
pub enum Element {
    Paragraph,
    Heading(Level),
    BlockQuote,
    /// A code block: the info string of a fenced block, nothing for an
    /// indented one.
    CodeBlock(Option<String>),
    /// A list: the number of the first item if the list is ordered.
    List(Option<u64>),
    Item,
    /// A footnote definition, with the footnote's label.
    FootnoteDefinition(String),
    /// A table, with the alignment of each column.
    Table(Vec<ColumnAlignment>),
    TableHead,
    TableRow,
    TableCell,
    Emphasis,
    Strong,
    Strikethrough,
    /// A link: how it was written, its destination and its title.
    Link(LinkForm, String, String),
    /// An image: how it was written, its destination and its title.
    Image(LinkForm, String, String),
}

/// The mathematical value of an [`Element`].
pub enum ElementView {
    Paragraph,
    Heading(Level),
    BlockQuote,
    CodeBlock(Option<Seq<char>>),
    List(Option<u64>),
    Item,
    FootnoteDefinition(Seq<char>),
    Table(Seq<ColumnAlignment>),
    TableHead,
    TableRow,
    TableCell,
    Emphasis,
    Strong,
    Strikethrough,
    Link(LinkForm, Seq<char>, Seq<char>),
    Image(LinkForm, Seq<char>, Seq<char>),
}

impl ElementView {
    /// The kind of this element.
    pub open spec fn kind(self) -> ElementKind {
        match self {
            ElementView::Paragraph => ElementKind::Paragraph,
            ElementView::Heading(_) => ElementKind::Heading,
            ElementView::BlockQuote => ElementKind::BlockQuote,
            ElementView::CodeBlock(_) => ElementKind::CodeBlock,
            ElementView::List(_) => ElementKind::List,
            ElementView::Item => ElementKind::Item,
            ElementView::FootnoteDefinition(_) => ElementKind::FootnoteDefinition,
            ElementView::Table(_) => ElementKind::Table,
            ElementView::TableHead => ElementKind::TableHead,
            ElementView::TableRow => ElementKind::TableRow,
            ElementView::TableCell => ElementKind::TableCell,
            ElementView::Emphasis => ElementKind::Emphasis,
            ElementView::Strong => ElementKind::Strong,
            ElementView::Strikethrough => ElementKind::Strikethrough,
            ElementView::Link(_, _, _) => ElementKind::Link,
            ElementView::Image(_, _, _) => ElementKind::Image,
        }
    }
}

/// The view of an optional string.
pub open spec fn option_view(s: Option<String>) -> Option<Seq<char>> {
    match s {
        Some(s) => Some(s@),
        None => None,
    }
}

impl View for Element {
    type V = ElementView;

    open spec fn view(&self) -> ElementView {
        match *self {
            Element::Paragraph => ElementView::Paragraph,
            Element::Heading(level) => ElementView::Heading(level),
            Element::BlockQuote => ElementView::BlockQuote,
            Element::CodeBlock(info) => ElementView::CodeBlock(option_view(info)),
            Element::List(first) => ElementView::List(first),
            Element::Item => ElementView::Item,
            Element::FootnoteDefinition(label) => ElementView::FootnoteDefinition(label@),
            Element::Table(alignments) => ElementView::Table(alignments@),
            Element::TableHead => ElementView::TableHead,
            Element::TableRow => ElementView::TableRow,
            Element::TableCell => ElementView::TableCell,
            Element::Emphasis => ElementView::Emphasis,
            Element::Strong => ElementView::Strong,
            Element::Strikethrough => ElementView::Strikethrough,
            Element::Link(link_type, destination, title) => ElementView::Link(
                link_type,
                destination@,
                title@,
            ),
            Element::Image(link_type, destination, title) => ElementView::Image(
                link_type,
                destination@,
                title@,
            ),
        }
    }
}

/// Whether two alignment lists are equal, column by column.
fn same_alignments(a: &Vec<ColumnAlignment>, b: &Vec<ColumnAlignment>) -> (same: bool)
    ensures
        same == (a@ == b@),
{
    if a.len() != b.len() {
        return false;
    }
    let mut i: usize = 0;
    while i < a.len()
        invariant
            a.len() == b.len(),
            i <= a.len(),
            forall|j: int| 0 <= j < i ==> a@[j] == b@[j],
        decreases a.len() - i,
    {
        if a[i] != b[i] {
            return false;
        }
        i += 1;
    }
    assert(a@ =~= b@);
    true
}

impl Element {
    /// The kind of this element.
    pub fn kind(&self) -> (kind: ElementKind)
        ensures
            kind == self@.kind(),
    {
        match self {
            Element::Paragraph => ElementKind::Paragraph,
            Element::Heading(_) => ElementKind::Heading,
            Element::BlockQuote => ElementKind::BlockQuote,
            Element::CodeBlock(_) => ElementKind::CodeBlock,
            Element::List(_) => ElementKind::List,
            Element::Item => ElementKind::Item,
            Element::FootnoteDefinition(_) => ElementKind::FootnoteDefinition,
            Element::Table(_) => ElementKind::Table,
            Element::TableHead => ElementKind::TableHead,
            Element::TableRow => ElementKind::TableRow,
            Element::TableCell => ElementKind::TableCell,
            Element::Emphasis => ElementKind::Emphasis,
            Element::Strong => ElementKind::Strong,
            Element::Strikethrough => ElementKind::Strikethrough,
            Element::Link(_, _, _) => ElementKind::Link,
            Element::Image(_, _, _) => ElementKind::Image,
        }
    }

    /// Whether `self` and `other` are the same element with the same
    /// payload.
    pub fn same_as(&self, other: &Element) -> (same: bool)
        ensures
            same == (self@ == other@),
    {
        match (self, other) {
            (Element::Paragraph, Element::Paragraph) => true,
            (Element::Heading(a), Element::Heading(b)) => *a == *b,
            (Element::BlockQuote, Element::BlockQuote) => true,
            (Element::CodeBlock(a), Element::CodeBlock(b)) => match (a, b) {
                (None, None) => true,
                (Some(a), Some(b)) => *a == *b,
                _ => false,
            },
            (Element::List(a), Element::List(b)) => match (a, b) {
                (None, None) => true,
                (Some(a), Some(b)) => *a == *b,
                _ => false,
            },
            (Element::Item, Element::Item) => true,
            (Element::FootnoteDefinition(a), Element::FootnoteDefinition(b)) => *a == *b,
            (Element::Table(a), Element::Table(b)) => same_alignments(a, b),
            (Element::TableHead, Element::TableHead) => true,
            (Element::TableRow, Element::TableRow) => true,
            (Element::TableCell, Element::TableCell) => true,
            (Element::Emphasis, Element::Emphasis) => true,
            (Element::Strong, Element::Strong) => true,
            (Element::Strikethrough, Element::Strikethrough) => true,
            (Element::Link(ta, da, la), Element::Link(tb, db, lb)) => *ta == *tb && *da == *db && *la == *lb,
            (Element::Image(ta, da, la), Element::Image(tb, db, lb)) => *ta == *tb && *da == *db && *la
                == *lb,
            _ => false,
        }
    }
}

/// One token of the flat stream that a tokenizer emits: an event of its
/// walk through the document.
#[derive(Debug, Clone, PartialEq)]
pub enum Token {
    /// An element opens. The tokens up to the matching `End` lie inside
    /// it.
    Start(Element),
    /// An element closes.
    End(Element),
    /// Literal text.
    Text(String),
    /// Inline code.
    Code(String),
    /// Raw HTML.
    Html(String),
    /// A reference to a footnote, by its label.
    FootnoteReference(String),
    /// A line wrap inside a paragraph.
    SoftBreak,
    /// An explicit line break.
    HardBreak,
    /// A thematic break.
    Rule,
    /// A task list marker; `true` when it is checked.
    TaskListMarker(bool),
}

/// The mathematical value of a [`Token`].
pub enum TokenView {
    Start(ElementView),
    End(ElementView),
    Text(Seq<char>),
    Code(Seq<char>),
    Html(Seq<char>),
    FootnoteReference(Seq<char>),
    SoftBreak,
    HardBreak,
    Rule,
    TaskListMarker(bool),
}

impl View for Token {
    type V = TokenView;

    open spec fn view(&self) -> TokenView {
        match *self {
            Token::Start(tag) => TokenView::Start(tag@),
            Token::End(tag) => TokenView::End(tag@),
            Token::Text(text) => TokenView::Text(text@),
            Token::Code(code) => TokenView::Code(code@),
            Token::Html(html) => TokenView::Html(html@),
            Token::FootnoteReference(label) => TokenView::FootnoteReference(label@),
            Token::SoftBreak => TokenView::SoftBreak,
            Token::HardBreak => TokenView::HardBreak,
            Token::Rule => TokenView::Rule,
            Token::TaskListMarker(checked) => TokenView::TaskListMarker(checked),
        }
    }
}

} // verus!
