//! Blocks as the cells of a Wolfram notebook.
//!
//! Each [`Block`] becomes one or more `Cell[...]` expressions. The
//! expressions are built as values of [`Expr`], which a caller hands to
//! whatever writes the notebook.
use vstd::prelude::*;

use crate::ast::{
    lemma_link_view, lemma_list_view, lemma_quote_view, rows_view, Block, ListItem, Text,
    TextSpan, TextStyle,
};
use crate::failure::{BlockKind, Failure, Unsupported, Violation};
use crate::nb::rules::{
    block_cells, block_kind, blocks_fold, boxes_fold, cell, code_cell, document_cells,
    external_language, gray_level, grid_fold, grid_item_size, heading_style, item_fold,
    item_style, items_fold, link_box, list, normal, quote_cell, row_fold, rule, run_box,
    span_box, string, style_rules, symbol, table_cell, text_boxes, text_cell, text_data,
};
use crate::token::Level;
use crate::view::{lemma_skip_step, lemma_views_add, lemma_views_empty, lemma_views_push, views};

pub mod rules;

verus! {

/// How blocks are turned into cells.
#[derive(Debug, Clone, Copy)]
pub struct Options {
    /// Whether a code block in a known language becomes an
    /// `"ExternalLanguage"` cell, which can be evaluated. Otherwise every
    /// code block becomes an inert `"Program"` cell.
    pub create_external_language_cells: bool,
}

/// A Wolfram Language expression, as far as cells are made of them.
#[derive(Debug, PartialEq, Eq)]
pub enum Expr {
    /// A symbol, by its full name: ``System`Cell``.
    Symbol(String),
    /// A string.
    String(String),
    /// A machine integer.
    Integer(i64),
    /// A real number, written as a decimal fraction: `digits` with the
    /// last `decimals` of them behind the point.
    Real { digits: i64, decimals: u8 },
    /// The application `head[contents...]` of the symbol named `head`.
    Normal { head: String, contents: Vec<Expr> },
}

/// The mathematical value of an [`Expr`].
pub enum ExprView {
    Symbol(Seq<char>),
    String(Seq<char>),
    Integer(i64),
    Real { digits: i64, decimals: u8 },
    Normal { head: Seq<char>, contents: Seq<ExprView> },
}

/// The view of one expression.
pub open spec fn expr_view(expr: Expr) -> ExprView
    decreases expr,
{
    match expr {
        Expr::Symbol(name) => ExprView::Symbol(name@),
        Expr::String(text) => ExprView::String(text@),
        Expr::Integer(value) => ExprView::Integer(value),
        Expr::Real { digits, decimals } => ExprView::Real { digits, decimals },
        Expr::Normal { head, contents } => ExprView::Normal {
            head: head@,
            contents: Seq::new(
                contents@.len(),
                |i: int|
                    if 0 <= i < contents@.len() {
                        expr_view(contents@[i])
                    } else {
                        arbitrary()
                    },
            ),
        },
    }
}

impl View for Expr {
    type V = ExprView;

    open spec fn view(&self) -> ExprView {
        expr_view(*self)
    }
}

/// The lower-case form of a text, as `str::to_lowercase` gives it.
pub uninterp spec fn lowercase(text: Seq<char>) -> Seq<char>;

/// The lower-case form of `text`, by `str::to_lowercase` of the standard
/// library. The contract gives the result its name and claims no more.
#[verifier::external_body]
fn to_lowercase(text: &str) -> (lower: String)
    ensures
        lower@ == lowercase(text@),
{
    text.to_lowercase()
}

/// The view of an expression or of the failure in its place.
pub open spec fn expr_result_view(result: Result<Expr, Failure>) -> Result<ExprView, Failure> {
    match result {
        Ok(expr) => Ok(expr@),
        Err(failure) => Err(failure),
    }
}

/// The view of a sequence of expressions or of the failure in its place.
pub open spec fn exprs_result_view(result: Result<Vec<Expr>, Failure>) -> Result<
    Seq<ExprView>,
    Failure,
> {
    match result {
        Ok(exprs) => Ok(views(exprs@)),
        Err(failure) => Err(failure),
    }
}

/// The view of an optional string slice.
pub open spec fn option_str_view(text: Option<&str>) -> Option<Seq<char>> {
    match text {
        Some(text) => Some(text@),
        None => None,
    }
}

fn one(first: Expr) -> (exprs: Vec<Expr>)
    ensures
        views(exprs@) == seq![first@],
{
    let mut exprs: Vec<Expr> = Vec::new();
    exprs.push(first);
    assert(views(exprs@) =~= seq![first@]);
    exprs
}

fn two(first: Expr, second: Expr) -> (exprs: Vec<Expr>)
    ensures
        views(exprs@) == seq![first@, second@],
{
    let mut exprs: Vec<Expr> = Vec::new();
    exprs.push(first);
    exprs.push(second);
    assert(views(exprs@) =~= seq![first@, second@]);
    exprs
}

impl Expr {
    /// The symbol of the given full name.
    pub fn symbol(name: &str) -> (expr: Expr)
        ensures
            expr@ == symbol(name@),
    {
        Expr::Symbol(name.to_owned())
    }

    /// The string expression of the given text.
    pub fn string(text: &str) -> (expr: Expr)
        ensures
            expr@ == string(text@),
    {
        Expr::String(text.to_owned())
    }

    /// The expression `head[contents...]`.
    pub fn normal(head: &str, contents: Vec<Expr>) -> (expr: Expr)
        ensures
            expr@ == normal(head@, views(contents@)),
    {
        let expr = Expr::Normal { head: head.to_owned(), contents };
        assert(expr@->contents =~= views(contents@));
        expr
    }

    /// The expression `lhs -> rhs`.
    pub fn rule(lhs: Expr, rhs: Expr) -> (expr: Expr)
        ensures
            expr@ == rule(lhs@, rhs@),
    {
        Expr::normal("System`Rule", two(lhs, rhs))
    }

    /// The expression `{elements...}`.
    pub fn list(elements: Vec<Expr>) -> (expr: Expr)
        ensures
            expr@ == list(views(elements@)),
    {
        Expr::normal("System`List", elements)
    }
}

/// The expression `Cell[content, "style"]`.
fn styled_cell(content: Expr, style: &str) -> (expr: Expr)
    ensures
        expr@ == cell(content@, style@),
{
    Expr::normal("System`Cell", two(content, Expr::string(style)))
}

/// The box for a run of text with the given styles.
fn run_to_box(text: &str, styles: &crate::ast::StyleSet) -> (result: Result<Expr, Failure>)
    ensures
        expr_result_view(result) == run_box(text@, styles@),
{
    if styles.contains(TextStyle::Strikethrough) {
        return Err(Failure::Unsupported(Unsupported::StrikethroughText));
    }
    let mut contents = one(Expr::string(text));
    let ghost bare = contents@;
    if styles.contains(TextStyle::Emphasis) {
        let slant = Expr::rule(Expr::symbol("System`FontSlant"), Expr::string("Italic"));
        proof {
            lemma_views_push(contents@, slant);
        }
        contents.push(slant);
    }
    if styles.contains(TextStyle::Strong) {
        let weight = Expr::rule(Expr::symbol("System`FontWeight"), Expr::string("Bold"));
        proof {
            lemma_views_push(contents@, weight);
        }
        contents.push(weight);
    }
    proof {
        assert(views(contents@) =~= seq![string(text@)] + style_rules(styles@)->Ok_0);
    }
    if contents.len() == 1 {
        Ok(Expr::string(text))
    } else {
        Ok(Expr::normal("System`StyleBox", contents))
    }
}

/// The hyperlink button around the boxes of a label.
fn link_to_box(label: Expr, destination: &str) -> (expr: Expr)
    ensures
        expr@ == link_box(label@, destination@),
{
    let base_style = Expr::rule(Expr::symbol("System`BaseStyle"), Expr::string("Hyperlink"));
    let url = Expr::normal("System`URL", one(Expr::string(destination)));
    let data = Expr::rule(
        Expr::symbol("System`ButtonData"),
        Expr::list(two(url, Expr::symbol("System`None"))),
    );
    let note = Expr::rule(Expr::symbol("System`ButtonNote"), Expr::string(destination));
    let mut contents = two(label, base_style);
    proof {
        lemma_views_push(contents@, data);
        lemma_views_push(contents@.push(data), note);
    }
    contents.push(data);
    contents.push(note);
    assert(views(contents@) =~= seq![label@, base_style@, data@, note@]);
    Expr::normal("System`ButtonBox", contents)
}

/// The box for one span.
fn span_to_box(span: &TextSpan) -> (result: Result<Expr, Failure>)
    ensures
        expr_result_view(result) == span_box(span@),
    decreases span, 0int,
{
    match span {
        TextSpan::Text(text, styles) => run_to_box(text.as_str(), styles),
        TextSpan::Code(code) => Ok(
            Expr::normal("System`StyleBox", two(Expr::string(code.as_str()), Expr::string("Code"))),
        ),
        TextSpan::Link { label, destination } => {
            proof {
                lemma_link_view(*label, *destination);
            }
            let boxes = text_to_boxes(label)?;
            Ok(link_to_box(boxes, destination.as_str()))
        },
        TextSpan::SoftBreak => Ok(Expr::string(" ")),
        TextSpan::HardBreak => Ok(Expr::string("\n")),
    }
}

/// The `RowBox[{...}]` of a text: one box for each span, in order.
///
/// Fails on struck-through text.
pub fn text_to_boxes(text: &Text) -> (result: Result<Expr, Failure>)
    ensures
        expr_result_view(result) == text_boxes(text@),
    decreases text, 1int,
{
    let ghost all = text@;
    let mut row: Vec<Expr> = Vec::new();
    proof {
        lemma_views_empty(row@);
        assert(all.skip(0) =~= all);
    }
    let mut i: usize = 0;
    while i < text.0.len()
        invariant
            i <= text.0.len(),
            all == views(text.0@),
            boxes_fold(all, Seq::empty()) == boxes_fold(all.skip(i as int), views(row@)),
        decreases text.0.len() - i,
    {
        proof {
            lemma_skip_step(all, i as int);
        }
        let next = span_to_box(&text.0[i])?;
        proof {
            lemma_views_push(row@, next);
        }
        row.push(next);
        i += 1;
    }
    Ok(Expr::normal("System`RowBox", one(Expr::list(row))))
}

/// The `TextData[...]` of a text.
///
/// Fails on struck-through text.
pub fn text_to_text_data(text: &Text) -> (result: Result<Expr, Failure>)
    ensures
        expr_result_view(result) == text_data(text@),
{
    Ok(Expr::normal("System`TextData", one(text_to_boxes(text)?)))
}

/// The cell of the given style that holds `text`.
fn text_to_cell(text: &Text, style: &str) -> (result: Result<Expr, Failure>)
    ensures
        expr_result_view(result) == text_cell(text@, style@),
{
    Ok(styled_cell(text_to_text_data(text)?, style))
}

/// The cell style of a heading of the given level.
pub fn heading_to_style(level: Level) -> (style: &'static str)
    ensures
        style@ == heading_style(level),
{
    match level {
        Level::H1 => "Title",
        Level::H2 => "Chapter",
        Level::H3 => "Section",
        Level::H4 => "Subsection",
        Level::H5 => "Subsubsection",
        Level::H6 => "Subsubsubsection",
    }
}

/// The cell style of a paragraph inside lists nested `depth` deep.
///
/// Fails beyond three levels, and at depth zero, where no list item is.
pub fn item_to_style(depth: u8) -> (result: Result<&'static str, Failure>)
    ensures
        match item_style(depth as nat) {
            Ok(style) => result is Ok && result->Ok_0@ == style,
            Err(failure) => result == Err::<&'static str, Failure>(failure),
        },
{
    match depth {
        0 => Err(Failure::Invariant(Violation::ListDepth)),
        1 => Ok("Item"),
        2 => Ok("Subitem"),
        3 => Ok("Subsubitem"),
        _ => Err(Failure::Unsupported(Unsupported::ListDepth)),
    }
}

fn is(text: &String, word: &str) -> (same: bool)
    ensures
        same == (text@ == word@),
{
    *text == word.to_owned()
}

/// The language that external evaluation knows under `label`, whatever the
/// case of its letters.
pub fn language_of(label: &str) -> (language: Option<&'static str>)
    ensures
        option_str_view(language) == external_language(lowercase(label@)),
{
    let lower = to_lowercase(label);
    if is(&lower, "python") {
        Some("Python")
    } else if is(&lower, "shell") || is(&lower, "bash") || is(&lower, "sh") || is(&lower, "zsh") {
        Some("Shell")
    } else if is(&lower, "julia") {
        Some("Julia")
    } else if is(&lower, "r") {
        Some("R")
    } else if is(&lower, "octave") {
        Some("Octave")
    } else if is(&lower, "java") {
        Some("Java")
    } else if is(&lower, "node") || is(&lower, "nodejs") || is(&lower, "js") || is(
        &lower,
        "javascript",
    ) {
        Some("NodeJS")
    } else if is(&lower, "jupyter") {
        Some("Jupyter")
    } else if is(&lower, "sql") {
        Some("SQL")
    } else if is(&lower, "sql-jdbc") {
        Some("SQL-JDBC")
    } else {
        None
    }
}

/// The cell of a code block.
fn code_to_cell(info_string: &Option<String>, code: &str, opts: &Options) -> (expr: Expr)
    ensures
        expr@ == code_cell(
            crate::token::option_view(*info_string),
            code@,
            opts.create_external_language_cells,
        ),
{
    let language = match info_string {
        Some(label) => if opts.create_external_language_cells {
            language_of(label.as_str())
        } else {
            None
        },
        None => None,
    };
    match language {
        Some(language) => {
            let evaluation = Expr::rule(
                Expr::symbol("System`CellEvaluationLanguage"),
                Expr::string(language),
            );
            let mut contents = two(Expr::string(code), Expr::string("ExternalLanguage"));
            proof {
                lemma_views_push(contents@, evaluation);
            }
            contents.push(evaluation);
            assert(views(contents@) =~= seq![
                string(code@),
                string("ExternalLanguage"@),
                evaluation@,
            ]);
            Expr::normal("System`Cell", contents)
        },
        None => styled_cell(Expr::string(code), "Program"),
    }
}

/// `GrayLevel[level]`, the level given in hundredths.
fn gray(hundredths: i64) -> (expr: Expr)
    ensures
        expr@ == gray_level(hundredths),
{
    Expr::normal("System`GrayLevel", one(Expr::Real { digits: hundredths, decimals: 2 }))
}

/// The cell of a block quote around the cells of what is quoted.
fn quote_to_cell(cells: Vec<Expr>) -> (expr: Expr)
    ensures
        expr@ == quote_cell(views(cells@)),
{
    let data = Expr::normal("System`BoxData", one(Expr::list(cells)));
    // Only the left side has a frame: CellFrame -> {{4, 0}, {0, 0}}
    let frame = Expr::rule(
        Expr::symbol("System`CellFrame"),
        Expr::list(
            two(
                Expr::list(two(Expr::Integer(4), Expr::Integer(0))),
                Expr::list(two(Expr::Integer(0), Expr::Integer(0))),
            ),
        ),
    );
    let frame_color = Expr::rule(Expr::symbol("System`CellFrameColor"), gray(80));
    let background = Expr::rule(Expr::symbol("System`Background"), gray(95));
    let mut contents = two(data, Expr::string("Text"));
    proof {
        lemma_views_push(contents@, frame);
        lemma_views_push(contents@.push(frame), frame_color);
        lemma_views_push(contents@.push(frame).push(frame_color), background);
    }
    contents.push(frame);
    contents.push(frame_color);
    contents.push(background);
    assert(views(contents@) =~= seq![
        data@,
        string("Text"@),
        frame@,
        frame_color@,
        background@,
    ]);
    Expr::normal("System`Cell", contents)
}

/// One cell of the given style for each text.
fn texts_to_row(texts: &Vec<Text>, style: &str) -> (result: Result<Vec<Expr>, Failure>)
    ensures
        exprs_result_view(result) == row_fold(views(texts@), style@, Seq::empty()),
{
    let ghost all = views(texts@);
    let mut row: Vec<Expr> = Vec::new();
    proof {
        lemma_views_empty(row@);
        assert(all.skip(0) =~= all);
    }
    let mut i: usize = 0;
    while i < texts.len()
        invariant
            i <= texts.len(),
            all == views(texts@),
            row_fold(all, style@, Seq::empty()) == row_fold(all.skip(i as int), style@, views(row@)),
        decreases texts.len() - i,
    {
        proof {
            lemma_skip_step(all, i as int);
        }
        let next = text_to_cell(&texts[i], style)?;
        proof {
            lemma_views_push(row@, next);
        }
        row.push(next);
        i += 1;
    }
    Ok(row)
}

/// The option that lets a grid size its columns and rows by itself.
fn grid_size() -> (expr: Expr)
    ensures
        expr@ == grid_item_size(),
{
    let columns = Expr::rule(
        Expr::string("Columns"),
        Expr::list(one(Expr::list(one(Expr::symbol("System`Automatic"))))),
    );
    let rows = Expr::rule(
        Expr::string("Rows"),
        Expr::list(one(Expr::list(one(Expr::symbol("System`Automatic"))))),
    );
    Expr::rule(Expr::symbol("System`GridBoxItemSize"), Expr::list(two(columns, rows)))
}

/// The cell of a table.
fn table_to_cell(headers: &Vec<Text>, rows: &Vec<Vec<Text>>) -> (result: Result<Expr, Failure>)
    ensures
        expr_result_view(result) == table_cell(views(headers@), rows_view(rows@)),
{
    let ghost all = rows_view(rows@);
    let header_row = Expr::list(texts_to_row(headers, "Subsubsubsection")?);
    let mut grid = one(header_row);
    let ghost start = views(grid@);
    proof {
        assert(all.skip(0) =~= all);
    }
    let mut i: usize = 0;
    while i < rows.len()
        invariant
            i <= rows.len(),
            all == rows_view(rows@),
            row_fold(views(headers@), "Subsubsubsection"@, Seq::empty()) is Ok,
            start == seq![
                list(row_fold(views(headers@), "Subsubsubsection"@, Seq::empty())->Ok_0),
            ],
            grid_fold(all, start) == grid_fold(all.skip(i as int), views(grid@)),
        decreases rows.len() - i,
    {
        proof {
            lemma_skip_step(all, i as int);
        }
        let row = Expr::list(texts_to_row(&rows[i], "Text")?);
        proof {
            lemma_views_push(grid@, row);
        }
        grid.push(row);
        i += 1;
    }
    let grid_box = Expr::normal("System`GridBox", two(Expr::list(grid), grid_size()));
    Ok(styled_cell(Expr::normal("System`BoxData", one(grid_box)), "Text"))
}

/// The kind of a block.
pub fn kind_of(block: &Block) -> (kind: BlockKind)
    ensures
        kind == block_kind(block@),
{
    match block {
        Block::Paragraph(_) => BlockKind::Paragraph,
        Block::List(items) => {
            proof {
                lemma_list_view(*items);
            }
            BlockKind::List
        },
        Block::Heading(_, _) => BlockKind::Heading,
        Block::CodeBlock { .. } => BlockKind::CodeBlock,
        Block::BlockQuote(blocks) => {
            proof {
                lemma_quote_view(*blocks);
            }
            BlockKind::BlockQuote
        },
        Block::Table { .. } => BlockKind::Table,
        Block::Rule => BlockKind::Rule,
    }
}

/// Extends `cells` by the cells of a list item at the given depth.
fn list_item_to_cells(depth: u8, item: &ListItem, cells: &mut Vec<Expr>) -> (result: Result<
    (),
    Failure,
>)
    requires
        depth <= 4,
    ensures
        match item_fold(depth as nat, item@, views(old(cells)@)) {
            Ok(next) => result is Ok && views(final(cells)@) == next,
            Err(failure) => result == Err::<(), Failure>(failure),
        },
    decreases item, 1int,
{
    let ghost all = item@;
    proof {
        assert(all.skip(0) =~= all);
    }
    let mut i: usize = 0;
    while i < item.0.len()
        invariant
            i <= item.0.len(),
            depth <= 4,
            all == views(item.0@),
            item_fold(depth as nat, all, views(old(cells)@)) == item_fold(
                depth as nat,
                all.skip(i as int),
                views(cells@),
            ),
        decreases item.0.len() - i,
    {
        proof {
            lemma_skip_step(all, i as int);
        }
        match &item.0[i] {
            Block::Paragraph(text) => {
                let style = item_to_style(depth)?;
                let next = text_to_cell(text, style)?;
                proof {
                    lemma_views_push(cells@, next);
                }
                cells.push(next);
            },
            Block::List(items) => {
                proof {
                    lemma_list_view(*items);
                }
                let inner = if depth < 4 {
                    depth + 1
                } else {
                    4
                };
                list_to_cells(inner, items, cells)?;
            },
            other => {
                return Err(Failure::Unsupported(Unsupported::InListItem(kind_of(other))));
            },
        }
        i += 1;
    }
    Ok(())
}

/// Extends `cells` by the cells of each item of a list at the given depth.
fn list_to_cells(depth: u8, items: &Vec<ListItem>, cells: &mut Vec<Expr>) -> (result: Result<
    (),
    Failure,
>)
    requires
        depth <= 4,
    ensures
        match items_fold(depth as nat, views(items@), views(old(cells)@)) {
            Ok(next) => result is Ok && views(final(cells)@) == next,
            Err(failure) => result == Err::<(), Failure>(failure),
        },
    decreases items, 0int,
{
    let ghost all = views(items@);
    proof {
        assert(all.skip(0) =~= all);
    }
    let mut i: usize = 0;
    while i < items.len()
        invariant
            i <= items.len(),
            depth <= 4,
            all == views(items@),
            items_fold(depth as nat, all, views(old(cells)@)) == items_fold(
                depth as nat,
                all.skip(i as int),
                views(cells@),
            ),
        decreases items.len() - i,
    {
        proof {
            lemma_skip_step(all, i as int);
        }
        list_item_to_cells(depth, &items[i], cells)?;
        i += 1;
    }
    Ok(())
}

/// The cells of one block.
///
/// Fails on a thematic break, on struck-through text, on a paragraph in
/// lists nested more than three deep, and on a list item that holds a
/// block other than a paragraph or a list.
pub fn block_to_cells(block: &Block, opts: &Options) -> (result: Result<Vec<Expr>, Failure>)
    ensures
        exprs_result_view(result) == block_cells(block@, opts.create_external_language_cells),
    decreases block, 0int,
{
    match block {
        Block::Heading(level, text) => Ok(one(text_to_cell(text, heading_to_style(*level))?)),
        Block::Paragraph(text) => Ok(one(text_to_cell(text, "Text")?)),
        Block::List(items) => {
            proof {
                lemma_list_view(*items);
            }
            let mut cells: Vec<Expr> = Vec::new();
            proof {
                lemma_views_empty(cells@);
            }
            list_to_cells(1, items, &mut cells)?;
            Ok(cells)
        },
        Block::CodeBlock { info_string, code } => Ok(
            one(code_to_cell(info_string, code.as_str(), opts)),
        ),
        Block::BlockQuote(blocks) => {
            proof {
                lemma_quote_view(*blocks);
            }
            Ok(one(quote_to_cell(blocks_to_cells(blocks, opts)?)))
        },
        Block::Table { headers, rows } => Ok(one(table_to_cell(headers, rows)?)),
        Block::Rule => Err(Failure::Unsupported(Unsupported::RuleBlock)),
    }
}

/// The cells of a document: those of each of its blocks, in order.
///
/// Fails where [`block_to_cells`] fails on one of the blocks.
pub fn blocks_to_cells(blocks: &Vec<Block>, opts: &Options) -> (result: Result<Vec<Expr>, Failure>)
    ensures
        exprs_result_view(result) == document_cells(
            views(blocks@),
            opts.create_external_language_cells,
        ),
    decreases blocks, 1int,
{
    let ghost all = views(blocks@);
    let mut cells: Vec<Expr> = Vec::new();
    proof {
        lemma_views_empty(cells@);
        assert(all.skip(0) =~= all);
    }
    let mut i: usize = 0;
    while i < blocks.len()
        invariant
            i <= blocks.len(),
            all == views(blocks@),
            blocks_fold(all, opts.create_external_language_cells, Seq::empty()) == blocks_fold(
                all.skip(i as int),
                opts.create_external_language_cells,
                views(cells@),
            ),
        decreases blocks.len() - i,
    {
        proof {
            lemma_skip_step(all, i as int);
        }
        let mut next = block_to_cells(&blocks[i], opts)?;
        proof {
            lemma_views_add(cells@, next@);
        }
        cells.append(&mut next);
        i += 1;
    }
    Ok(cells)
}

} // verus!
