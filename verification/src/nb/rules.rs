//! What the cells of a block are.
//!
//! A block becomes a sequence of `Cell[...]` expressions of a Wolfram
//! notebook. The functions here say, over views, which expression each
//! block and each span of text becomes.
use vstd::prelude::*;

use crate::ast::{BlockView, SpanView, TextStyle};
use crate::failure::{BlockKind, Failure, Unsupported, Violation};
use crate::nb::{lowercase, ExprView};
use crate::token::Level;

verus! {

/// The symbol of the given full name.
pub open spec fn symbol(name: Seq<char>) -> ExprView {
    ExprView::Symbol(name)
}

/// The string expression of the given text.
pub open spec fn string(text: Seq<char>) -> ExprView {
    ExprView::String(text)
}

/// The expression `head[contents...]`.
pub open spec fn normal(head: Seq<char>, contents: Seq<ExprView>) -> ExprView {
    ExprView::Normal { head, contents }
}

/// The expression `lhs -> rhs`.
pub open spec fn rule(lhs: ExprView, rhs: ExprView) -> ExprView {
    normal("System`Rule"@, seq![lhs, rhs])
}

/// The expression `{elements...}`.
pub open spec fn list(elements: Seq<ExprView>) -> ExprView {
    normal("System`List"@, elements)
}

/// The expression `Cell[content, "style"]`.
pub open spec fn cell(content: ExprView, style: Seq<char>) -> ExprView {
    normal("System`Cell"@, seq![content, string(style)])
}

/// The kind of a block.
pub open spec fn block_kind(block: BlockView) -> BlockKind {
    match block {
        BlockView::Paragraph(_) => BlockKind::Paragraph,
        BlockView::List(_) => BlockKind::List,
        BlockView::Heading(_, _) => BlockKind::Heading,
        BlockView::CodeBlock { .. } => BlockKind::CodeBlock,
        BlockView::BlockQuote(_) => BlockKind::BlockQuote,
        BlockView::Table { .. } => BlockKind::Table,
        BlockView::Rule => BlockKind::Rule,
    }
}

/// The font options for a set of styles: slant for emphasis, then weight
/// for strong. Strikethrough has no rendering.
pub open spec fn style_rules(styles: Set<TextStyle>) -> Result<Seq<ExprView>, Failure> {
    if styles.contains(TextStyle::Strikethrough) {
        Err(Failure::Unsupported(Unsupported::StrikethroughText))
    } else {
        let slant = if styles.contains(TextStyle::Emphasis) {
            seq![rule(symbol("System`FontSlant"@), string("Italic"@))]
        } else {
            Seq::empty()
        };
        let weight = if styles.contains(TextStyle::Strong) {
            seq![rule(symbol("System`FontWeight"@), string("Bold"@))]
        } else {
            Seq::empty()
        };
        Ok(slant + weight)
    }
}

/// The box for a run of text: the bare string when it has no style, else a
/// `StyleBox` of the string and its font options.
pub open spec fn run_box(text: Seq<char>, styles: Set<TextStyle>) -> Result<ExprView, Failure> {
    match style_rules(styles) {
        Ok(rules) => if rules.len() == 0 {
            Ok(string(text))
        } else {
            Ok(normal("System`StyleBox"@, seq![string(text)] + rules))
        },
        Err(failure) => Err(failure),
    }
}

/// The box for inline code.
pub open spec fn code_box(code: Seq<char>) -> ExprView {
    normal("System`StyleBox"@, seq![string(code), string("Code"@)])
}

/// The hyperlink button around the boxes of a label.
pub open spec fn link_box(label: ExprView, destination: Seq<char>) -> ExprView {
    normal(
        "System`ButtonBox"@,
        seq![
            label,
            rule(symbol("System`BaseStyle"@), string("Hyperlink"@)),
            rule(
                symbol("System`ButtonData"@),
                list(
                    seq![
                        normal("System`URL"@, seq![string(destination)]),
                        symbol("System`None"@),
                    ],
                ),
            ),
            rule(symbol("System`ButtonNote"@), string(destination)),
        ],
    )
}

/// The box for one span.
pub open spec fn span_box(span: SpanView) -> Result<ExprView, Failure>
    decreases span, 0int,
{
    match span {
        SpanView::Text(text, styles) => run_box(text, styles),
        SpanView::Code(code) => Ok(code_box(code)),
        SpanView::Link { label, destination } => match text_boxes(label) {
            Ok(boxes) => Ok(link_box(boxes, destination)),
            Err(failure) => Err(failure),
        },
        SpanView::SoftBreak => Ok(string(" "@)),
        SpanView::HardBreak => Ok(string("\n"@)),
    }
}

/// The boxes gathered so far, extended by the box of each span.
pub open spec fn boxes_fold(spans: Seq<SpanView>, boxes: Seq<ExprView>) -> Result<
    Seq<ExprView>,
    Failure,
>
    decreases spans, 0int,
{
    if spans.len() == 0 {
        Ok(boxes)
    } else {
        match span_box(spans[0]) {
            Ok(next) => boxes_fold(spans.drop_first(), boxes.push(next)),
            Err(failure) => Err(failure),
        }
    }
}

/// The `RowBox[{...}]` of a text: one box for each span, in order.
pub open spec fn text_boxes(spans: Seq<SpanView>) -> Result<ExprView, Failure>
    decreases spans, 1int,
{
    match boxes_fold(spans, Seq::empty()) {
        Ok(boxes) => Ok(normal("System`RowBox"@, seq![list(boxes)])),
        Err(failure) => Err(failure),
    }
}

/// The `TextData[...]` of a text.
pub open spec fn text_data(spans: Seq<SpanView>) -> Result<ExprView, Failure> {
    match text_boxes(spans) {
        Ok(boxes) => Ok(normal("System`TextData"@, seq![boxes])),
        Err(failure) => Err(failure),
    }
}

/// The cell of the given style that holds a text.
pub open spec fn text_cell(spans: Seq<SpanView>, style: Seq<char>) -> Result<ExprView, Failure> {
    match text_data(spans) {
        Ok(data) => Ok(cell(data, style)),
        Err(failure) => Err(failure),
    }
}

/// The cell style of a heading of the given level.
pub open spec fn heading_style(level: Level) -> Seq<char> {
    match level {
        Level::H1 => "Title"@,
        Level::H2 => "Chapter"@,
        Level::H3 => "Section"@,
        Level::H4 => "Subsection"@,
        Level::H5 => "Subsubsection"@,
        Level::H6 => "Subsubsubsection"@,
    }
}

/// The cell style of a paragraph inside lists nested `depth` deep. There
/// are styles for three depths. No paragraph is at depth zero.
pub open spec fn item_style(depth: nat) -> Result<Seq<char>, Failure> {
    if depth == 0 {
        Err(Failure::Invariant(Violation::ListDepth))
    } else if depth == 1 {
        Ok("Item"@)
    } else if depth == 2 {
        Ok("Subitem"@)
    } else if depth == 3 {
        Ok("Subsubitem"@)
    } else {
        Err(Failure::Unsupported(Unsupported::ListDepth))
    }
}

/// The depth one list further in. Every depth beyond three counts as four:
/// all of them are without a style.
pub open spec fn deeper(depth: nat) -> nat {
    if depth < 4 {
        depth + 1
    } else {
        4
    }
}

/// The language that external evaluation knows under a lower-case label.
pub open spec fn external_language(label: Seq<char>) -> Option<Seq<char>> {
    if label == "python"@ {
        Some("Python"@)
    } else if label == "shell"@ || label == "bash"@ || label == "sh"@ || label == "zsh"@ {
        Some("Shell"@)
    } else if label == "julia"@ {
        Some("Julia"@)
    } else if label == "r"@ {
        Some("R"@)
    } else if label == "octave"@ {
        Some("Octave"@)
    } else if label == "java"@ {
        Some("Java"@)
    } else if label == "node"@ || label == "nodejs"@ || label == "js"@ || label
        == "javascript"@ {
        Some("NodeJS"@)
    } else if label == "jupyter"@ {
        Some("Jupyter"@)
    } else if label == "sql"@ {
        Some("SQL"@)
    } else if label == "sql-jdbc"@ {
        Some("SQL-JDBC"@)
    } else {
        None
    }
}

/// The language in which the code of a block is to be evaluated, if any:
/// the one that its info string names, whatever its case, provided that
/// external language cells are asked for.
pub open spec fn cell_language(info_string: Option<Seq<char>>, create_external: bool) -> Option<
    Seq<char>,
> {
    match info_string {
        Some(label) => if create_external {
            external_language(lowercase(label))
        } else {
            None
        },
        None => None,
    }
}

/// The cell of a code block: an `"ExternalLanguage"` cell where there is a
/// language to evaluate it in, else an inert `"Program"` cell.
pub open spec fn code_cell(
    info_string: Option<Seq<char>>,
    code: Seq<char>,
    create_external: bool,
) -> ExprView {
    match cell_language(info_string, create_external) {
        Some(language) => normal(
            "System`Cell"@,
            seq![
                string(code),
                string("ExternalLanguage"@),
                rule(symbol("System`CellEvaluationLanguage"@), string(language)),
            ],
        ),
        None => cell(string(code), "Program"@),
    }
}

/// `GrayLevel[level]`, the level given in hundredths.
pub open spec fn gray_level(hundredths: i64) -> ExprView {
    normal("System`GrayLevel"@, seq![ExprView::Real { digits: hundredths, decimals: 2 }])
}

/// The cell of a block quote around the cells of what is quoted: a text
/// cell with a gray frame on its left and a light gray background.
pub open spec fn quote_cell(cells: Seq<ExprView>) -> ExprView {
    normal(
        "System`Cell"@,
        seq![
            normal("System`BoxData"@, seq![list(cells)]),
            string("Text"@),
            rule(
                symbol("System`CellFrame"@),
                list(
                    seq![
                        list(seq![ExprView::Integer(4), ExprView::Integer(0)]),
                        list(seq![ExprView::Integer(0), ExprView::Integer(0)]),
                    ],
                ),
            ),
            rule(symbol("System`CellFrameColor"@), gray_level(80)),
            rule(symbol("System`Background"@), gray_level(95)),
        ],
    )
}

/// The cells gathered so far, extended by one cell of the given style for
/// each text.
pub open spec fn row_fold(texts: Seq<Seq<SpanView>>, style: Seq<char>, cells: Seq<ExprView>) -> Result<
    Seq<ExprView>,
    Failure,
>
    decreases texts.len(),
{
    if texts.len() == 0 {
        Ok(cells)
    } else {
        match text_cell(texts[0], style) {
            Ok(next) => row_fold(texts.drop_first(), style, cells.push(next)),
            Err(failure) => Err(failure),
        }
    }
}

/// The rows of a grid gathered so far, extended by one list of text cells
/// for each row of a table.
pub open spec fn grid_fold(rows: Seq<Seq<Seq<SpanView>>>, grid: Seq<ExprView>) -> Result<
    Seq<ExprView>,
    Failure,
>
    decreases rows.len(),
{
    if rows.len() == 0 {
        Ok(grid)
    } else {
        match row_fold(rows[0], "Text"@, Seq::empty()) {
            Ok(row) => grid_fold(rows.drop_first(), grid.push(list(row))),
            Err(failure) => Err(failure),
        }
    }
}

/// The option that lets a grid size its columns and rows by itself.
pub open spec fn grid_item_size() -> ExprView {
    rule(
        symbol("System`GridBoxItemSize"@),
        list(
            seq![
                rule(string("Columns"@), list(seq![list(seq![symbol("System`Automatic"@)])])),
                rule(string("Rows"@), list(seq![list(seq![symbol("System`Automatic"@)])])),
            ],
        ),
    )
}

/// The cell of a table: a grid whose first row holds the headers.
pub open spec fn table_cell(headers: Seq<Seq<SpanView>>, rows: Seq<Seq<Seq<SpanView>>>) -> Result<
    ExprView,
    Failure,
> {
    match row_fold(headers, "Subsubsubsection"@, Seq::empty()) {
        Ok(header_row) => match grid_fold(rows, seq![list(header_row)]) {
            Ok(grid) => Ok(
                cell(
                    normal(
                        "System`BoxData"@,
                        seq![normal("System`GridBox"@, seq![list(grid), grid_item_size()])],
                    ),
                    "Text"@,
                ),
            ),
            Err(failure) => Err(failure),
        },
        Err(failure) => Err(failure),
    }
}

/// The cells gathered so far, extended by those of the blocks of a list
/// item at the given depth. A paragraph becomes an item cell, a list goes
/// one level deeper, and no other block has a place in a list item.
pub open spec fn item_fold(depth: nat, blocks: Seq<BlockView>, cells: Seq<ExprView>) -> Result<
    Seq<ExprView>,
    Failure,
>
    decreases blocks, 0int,
{
    if blocks.len() == 0 {
        Ok(cells)
    } else {
        match blocks[0] {
            BlockView::Paragraph(text) => match item_style(depth) {
                Ok(style) => match text_cell(text, style) {
                    Ok(next) => item_fold(depth, blocks.drop_first(), cells.push(next)),
                    Err(failure) => Err(failure),
                },
                Err(failure) => Err(failure),
            },
            BlockView::List(items) => match items_fold(deeper(depth), items, cells) {
                Ok(next) => item_fold(depth, blocks.drop_first(), next),
                Err(failure) => Err(failure),
            },
            other => Err(Failure::Unsupported(Unsupported::InListItem(block_kind(other)))),
        }
    }
}

/// The cells gathered so far, extended by those of each item of a list at
/// the given depth.
pub open spec fn items_fold(depth: nat, items: Seq<Seq<BlockView>>, cells: Seq<ExprView>) -> Result<
    Seq<ExprView>,
    Failure,
>
    decreases items, 0int,
{
    if items.len() == 0 {
        Ok(cells)
    } else {
        match item_fold(depth, items[0], cells) {
            Ok(next) => items_fold(depth, items.drop_first(), next),
            Err(failure) => Err(failure),
        }
    }
}

/// The cells of one block.
pub open spec fn block_cells(block: BlockView, create_external: bool) -> Result<
    Seq<ExprView>,
    Failure,
>
    decreases block, 0int,
{
    match block {
        BlockView::Heading(level, text) => match text_cell(text, heading_style(level)) {
            Ok(heading) => Ok(seq![heading]),
            Err(failure) => Err(failure),
        },
        BlockView::Paragraph(text) => match text_cell(text, "Text"@) {
            Ok(paragraph) => Ok(seq![paragraph]),
            Err(failure) => Err(failure),
        },
        BlockView::List(items) => items_fold(1, items, Seq::empty()),
        BlockView::CodeBlock { info_string, code } => Ok(
            seq![code_cell(info_string, code, create_external)],
        ),
        BlockView::BlockQuote(blocks) => match blocks_fold(blocks, create_external, Seq::empty()) {
            Ok(cells) => Ok(seq![quote_cell(cells)]),
            Err(failure) => Err(failure),
        },
        BlockView::Table { headers, rows } => match table_cell(headers, rows) {
            Ok(table) => Ok(seq![table]),
            Err(failure) => Err(failure),
        },
        BlockView::Rule => Err(Failure::Unsupported(Unsupported::RuleBlock)),
    }
}

/// The cells gathered so far, extended by those of each block.
pub open spec fn blocks_fold(blocks: Seq<BlockView>, create_external: bool, cells: Seq<ExprView>) -> Result<
    Seq<ExprView>,
    Failure,
>
    decreases blocks, 0int,
{
    if blocks.len() == 0 {
        Ok(cells)
    } else {
        match block_cells(blocks[0], create_external) {
            Ok(next) => blocks_fold(blocks.drop_first(), create_external, cells + next),
            Err(failure) => Err(failure),
        }
    }
}

/// The cells of a document: those of each of its blocks, in order.
pub open spec fn document_cells(blocks: Seq<BlockView>, create_external: bool) -> Result<
    Seq<ExprView>,
    Failure,
> {
    blocks_fold(blocks, create_external, Seq::empty())
}

} // verus!
