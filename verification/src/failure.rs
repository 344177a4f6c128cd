//! Why a conversion stopped.
//!
//! Two classes are kept apart. [`Unsupported`] says that the input is valid
//! and uses a feature that is not handled. [`Violation`] says that a stream
//! or tree has a shape that the stage before never produces: a defect in
//! that stage, which callers should treat as fatal.
use vstd::prelude::*;

use crate::token::{ElementKind, LinkForm};

verus! {

/// A valid construct that the conversion does not handle.
#[derive(Debug, Clone, Copy, PartialEq, Eq, Structural)]
pub enum Unsupported {
    /// A task list marker (`[ ]` or `[x]`).
    TaskListMarker,
    /// A reference to a footnote.
    FootnoteReference,
    /// A thematic break in the middle of inline text.
    RuleInText,
    /// A tag of this kind in a position where it is not handled.
    Element(ElementKind),
    /// A link that is not written inline, of the given form.
    LinkForm(LinkForm),
    /// A span other than plain text inside a code block.
    SpanInCode,
    /// Struck-through text, which has no rendering in a notebook.
    StrikethroughText,
    /// A thematic break, which has no rendering in a notebook.
    RuleBlock,
    /// A paragraph in lists nested more than three deep.
    ListDepth,
    /// A block of this kind inside a list item. Only paragraphs and lists
    /// are rendered there.
    InListItem(BlockKind),
}

/// The kind of a block, without what it holds.
#[derive(Debug, Clone, Copy, PartialEq, Eq, Structural)]
pub enum BlockKind {
    Paragraph,
    List,
    Heading,
    CodeBlock,
    BlockQuote,
    Table,
    Rule,
}

/// A shape that contradicts what the tokenizer promises.
#[derive(Debug, Clone, Copy, PartialEq, Eq, Structural)]
pub enum Violation {
    /// A close event with no tag open.
    UnmatchedEnd,
    /// A close event whose tag differs from the innermost open tag.
    MismatchedEnd,
    /// The stream ended with a tag still open.
    UnclosedTag,
    /// An open or close event stored as a leaf of the tree.
    BareTagEvent,
    /// A table head or table row outside of a table.
    StrayTablePart,
    /// A child of a list that is not a list item.
    ListChild,
    /// A table whose first child is not a table head.
    TableHead,
    /// A later child of a table that is not a table row.
    TableRow,
    /// A child of a table head or row that is not a table cell.
    TableCell,
    /// Styled text inside a code block.
    StyledCode,
    /// The blocks of a list item met outside of any list.
    ListDepth,
}

/// The reason a conversion produced no result.
#[derive(Debug, Clone, Copy, PartialEq, Eq, Structural)]
pub enum Failure {
    /// Valid input, unsupported feature.
    Unsupported(Unsupported),
    /// Impossible state: the stage before this one is broken.
    Invariant(Violation),
}

impl Failure {
    /// Whether this failure reports an unsupported feature of valid input.
    pub open spec fn is_unsupported(self) -> bool {
        self is Unsupported
    }

    /// `true` for an unsupported feature, `false` for a broken invariant.
    pub fn unsupported(&self) -> (b: bool)
        ensures
            b == self.is_unsupported(),
    {
        match self {
            Failure::Unsupported(_) => true,
            Failure::Invariant(_) => false,
        }
    }
}

} // verus!
