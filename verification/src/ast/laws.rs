//! Laws of the conversion.
//!
//! Each public proof function here states, over the functions of
//! [`crate::ast::rules`], something that holds of every tree or stream.
use vstd::prelude::*;

use crate::ast::{Block, BlockView, SpanView, TextStyle};
use crate::ast::builder::blocks_result_view;
use crate::ast::flatten::{
    flatten, flatten_node, law_flatten_unflatten, law_unflatten_flatten, leaves_atomic,
    node_atomic,
};
use crate::ast::rules::{
    ast_of, block_step, blocks_fold, blocks_of, cell_content, cells_fold, cells_of, code_fold,
    code_text, items_fold, markdown_ast, rows_fold, table_of, tag_style, text_fold, text_of,
    text_step, BuildState,
};
use crate::ast::unflatten::{unflatten_spec, NodeView};
use crate::failure::Failure;
use crate::token::{ElementView, LinkForm, TokenView};

verus! {

/// Reading a sequence of inline nodes is reading its first part, then its
/// second part from where the first ended.
pub proof fn law_text_fold_concat(
    first: Seq<NodeView>,
    second: Seq<NodeView>,
    styles: Set<TextStyle>,
    spans: Seq<SpanView>,
)
    ensures
        text_fold(first + second, styles, spans) == match text_fold(first, styles, spans) {
            Ok(next) => text_fold(second, styles, next),
            Err(failure) => Err(failure),
        },
    decreases first.len(),
{
    if first.len() == 0 {
        assert(first + second =~= second);
    } else {
        assert((first + second).drop_first() =~= first.drop_first() + second);
        match text_step(spans, styles, first[0]) {
            Ok(next) => {
                law_text_fold_concat(first.drop_first(), second, styles, next);
            },
            Err(_) => {},
        }
    }
}

/// Building from a sequence of nodes is building from its first part, then
/// from its second part in the state that the first left.
pub proof fn law_blocks_fold_concat(first: Seq<NodeView>, second: Seq<NodeView>, state: BuildState)
    ensures
        blocks_fold(first + second, state) == match blocks_fold(first, state) {
            Ok(next) => blocks_fold(second, next),
            Err(failure) => Err(failure),
        },
    decreases first.len(),
{
    if first.len() == 0 {
        assert(first + second =~= second);
    } else {
        assert((first + second).drop_first() =~= first.drop_first() + second);
        match block_step(state, first[0]) {
            Ok(next) => {
                law_blocks_fold_concat(first.drop_first(), second, next);
            },
            Err(_) => {},
        }
    }
}

proof fn lemma_text_fold_one(node: NodeView, styles: Set<TextStyle>, spans: Seq<SpanView>)
    ensures
        text_fold(seq![node], styles, spans) == text_step(spans, styles, node),
{
    let rest = seq![node].drop_first();
    assert(rest =~= Seq::<NodeView>::empty());
    match text_step(spans, styles, node) {
        Ok(next) => {
            assert(text_fold(rest, styles, next) == Ok::<Seq<SpanView>, Failure>(next));
        },
        Err(_) => {},
    }
}

proof fn lemma_blocks_fold_one(node: NodeView, state: BuildState)
    ensures
        blocks_fold(seq![node], state) == block_step(state, node),
{
    let rest = seq![node].drop_first();
    assert(rest =~= Seq::<NodeView>::empty());
    match block_step(state, node) {
        Ok(next) => {
            assert(blocks_fold(rest, next) == Ok::<BuildState, Failure>(next));
        },
        Err(_) => {},
    }
}

proof fn lemma_items_fold_one(node: NodeView, items: Seq<Seq<BlockView>>)
    ensures
        items_fold(seq![node], items) == match node {
            NodeView::Nested { tag: ElementView::Item, events } => match blocks_of(events) {
                Ok(blocks) => Ok(items.push(blocks)),
                Err(failure) => Err(failure),
            },
            _ => Err(Failure::Invariant(crate::failure::Violation::ListChild)),
        },
{
    let rest = seq![node].drop_first();
    assert(rest =~= Seq::<NodeView>::empty());
    match node {
        NodeView::Nested { tag: ElementView::Item, events } => match blocks_of(events) {
            Ok(blocks) => {
                assert(items_fold(rest, items.push(blocks)) == Ok::<Seq<Seq<BlockView>>, Failure>(
                    items.push(blocks),
                ));
            },
            Err(_) => {},
        },
        _ => {},
    }
}

/// A style tag hands its children the styles around it and its own: the
/// text of the tag alone is the text of its children under the larger set.
pub proof fn law_style_scope(
    tag: ElementView,
    events: Seq<NodeView>,
    styles: Set<TextStyle>,
)
    requires
        tag_style(tag) is Some,
    ensures
        text_of(seq![NodeView::Nested { tag, events }], styles) == text_of(
            events,
            styles.insert(tag_style(tag)->0),
        ),
{
    let node = NodeView::Nested { tag, events };
    lemma_text_fold_one(node, styles, Seq::empty());
    match text_of(events, styles.insert(tag_style(tag)->0)) {
        Ok(inner) => {
            assert(Seq::<SpanView>::empty() + inner =~= inner);
        },
        Err(_) => {},
    }
}

/// A style ends with its tag: what follows a style tag is read under the
/// styles that were active before it.
pub proof fn law_style_ends_with_tag(
    tag: ElementView,
    events: Seq<NodeView>,
    after: Seq<NodeView>,
    styles: Set<TextStyle>,
)
    requires
        tag_style(tag) is Some,
    ensures
        text_of(seq![NodeView::Nested { tag, events }] + after, styles) == match text_of(
            events,
            styles.insert(tag_style(tag)->0),
        ) {
            Ok(inner) => text_fold(after, styles, inner),
            Err(failure) => Err(failure),
        },
{
    law_text_fold_concat(seq![NodeView::Nested { tag, events }], after, styles, Seq::empty());
    law_style_scope(tag, events, styles);
}

/// The stream of a paragraph of plain text becomes one paragraph holding
/// one run without styles.
pub proof fn law_plain_text(text: Seq<char>)
    ensures
        ast_of(
            seq![
                TokenView::Start(ElementView::Paragraph),
                TokenView::Text(text),
                TokenView::End(ElementView::Paragraph),
            ],
        ) == Ok::<Seq<BlockView>, Failure>(
            seq![BlockView::Paragraph(seq![SpanView::Text(text, Set::empty())])],
        ),
{
    let leaf = NodeView::Event(TokenView::Text(text));
    let paragraph = NodeView::Nested { tag: ElementView::Paragraph, events: seq![leaf] };
    let events = seq![
        TokenView::Start(ElementView::Paragraph),
        TokenView::Text(text),
        TokenView::End(ElementView::Paragraph),
    ];
    lemma_flatten_one(paragraph);
    lemma_flatten_one(leaf);
    assert(flatten(seq![paragraph]) =~= events);
    law_unflatten_flatten(seq![paragraph]);
    lemma_text_fold_one(leaf, Set::empty(), Seq::empty());
    lemma_blocks_fold_one(paragraph, BuildState::empty());
    let run = SpanView::Text(text, Set::empty());
    assert(Seq::<SpanView>::empty().push(run) =~= seq![run]);
    assert(Seq::<SpanView>::empty() + seq![run] =~= seq![run]);
    assert(Seq::<BlockView>::empty().push(BlockView::Paragraph(seq![run])) =~= seq![
        BlockView::Paragraph(seq![run]),
    ]);
}

proof fn lemma_flatten_one(node: NodeView)
    ensures
        flatten(seq![node]) == flatten_node(node),
        leaves_atomic(seq![node]) == node_atomic(node),
{
    let rest = seq![node].drop_first();
    assert(rest =~= Seq::<NodeView>::empty());
    assert(flatten(rest) =~= Seq::<TokenView>::empty());
    assert(leaves_atomic(rest));
    assert(flatten(seq![node]) =~= flatten_node(node));
}

/// The stream of a paragraph holding one piece of text inside one style
/// tag becomes one paragraph holding one run with exactly that style.
pub proof fn law_styled_text(tag: ElementView, text: Seq<char>)
    requires
        tag_style(tag) is Some,
    ensures
        ast_of(
            seq![
                TokenView::Start(ElementView::Paragraph),
                TokenView::Start(tag),
                TokenView::Text(text),
                TokenView::End(tag),
                TokenView::End(ElementView::Paragraph),
            ],
        ) == Ok::<Seq<BlockView>, Failure>(
            seq![
                BlockView::Paragraph(
                    seq![SpanView::Text(text, Set::empty().insert(tag_style(tag)->0))],
                ),
            ],
        ),
{
    let style = tag_style(tag)->0;
    let leaf = NodeView::Event(TokenView::Text(text));
    let styled = NodeView::Nested { tag, events: seq![leaf] };
    let paragraph = NodeView::Nested { tag: ElementView::Paragraph, events: seq![styled] };
    let events = seq![
        TokenView::Start(ElementView::Paragraph),
        TokenView::Start(tag),
        TokenView::Text(text),
        TokenView::End(tag),
        TokenView::End(ElementView::Paragraph),
    ];
    lemma_flatten_one(paragraph);
    lemma_flatten_one(styled);
    lemma_flatten_one(leaf);
    assert(flatten(seq![paragraph]) =~= events);
    law_unflatten_flatten(seq![paragraph]);
    let run = SpanView::Text(text, Set::empty().insert(style));
    lemma_text_fold_one(leaf, Set::empty().insert(style), Seq::empty());
    assert(Seq::<SpanView>::empty().push(run) =~= seq![run]);
    law_style_scope(tag, seq![leaf], Set::empty());
    lemma_blocks_fold_one(paragraph, BuildState::empty());
    assert(Seq::<SpanView>::empty() + seq![run] =~= seq![run]);
    assert(Seq::<BlockView>::empty().push(BlockView::Paragraph(seq![run])) =~= seq![
        BlockView::Paragraph(seq![run]),
    ]);
}

/// A list node becomes one list block, whatever was pending before it is
/// closed as a paragraph first, and nothing is pending after it.
pub proof fn law_list_is_one_block(
    state: BuildState,
    first: Option<u64>,
    children: Seq<NodeView>,
    items: Seq<Seq<BlockView>>,
)
    requires
        items_fold(children, Seq::empty()) == Ok::<Seq<Seq<BlockView>>, Failure>(items),
    ensures
        block_step(state, NodeView::Nested { tag: ElementView::List(first), events: children })
            == Ok::<BuildState, Failure>(
            BuildState {
                complete: state.flush().complete.push(BlockView::List(items)),
                pending: Seq::empty(),
            },
        ),
{
    assert(state.flush().pending =~= Seq::<SpanView>::empty());
}

/// A list after any nodes adds exactly one list block to the blocks of
/// those nodes: it merges with nothing before it.
pub proof fn law_list_after(
    before: Seq<NodeView>,
    first: Option<u64>,
    children: Seq<NodeView>,
    blocks: Seq<BlockView>,
    items: Seq<Seq<BlockView>>,
)
    requires
        blocks_of(before) == Ok::<Seq<BlockView>, Failure>(blocks),
        items_fold(children, Seq::empty()) == Ok::<Seq<Seq<BlockView>>, Failure>(items),
    ensures
        blocks_of(
            before.push(NodeView::Nested { tag: ElementView::List(first), events: children }),
        ) == Ok::<Seq<BlockView>, Failure>(blocks.push(BlockView::List(items))),
{
    let node = NodeView::Nested { tag: ElementView::List(first), events: children };
    let state = blocks_fold(before, BuildState::empty())->Ok_0;
    assert(before.push(node) =~= before + seq![node]);
    law_blocks_fold_concat(before, seq![node], BuildState::empty());
    lemma_blocks_fold_one(node, state);
    law_list_is_one_block(state, first, children, items);
}

/// Two lists that follow one another stay two list blocks: neither is
/// merged into the other.
pub proof fn law_sibling_lists_stay_apart(
    state: BuildState,
    first: NodeView,
    second: NodeView,
    first_items: Seq<Seq<BlockView>>,
    second_items: Seq<Seq<BlockView>>,
)
    requires
        first is Nested,
        first->tag is List,
        second is Nested,
        second->tag is List,
        items_fold(first->events, Seq::empty()) == Ok::<Seq<Seq<BlockView>>, Failure>(first_items),
        items_fold(second->events, Seq::empty()) == Ok::<Seq<Seq<BlockView>>, Failure>(
            second_items,
        ),
    ensures
        blocks_fold(seq![first, second], state) == Ok::<BuildState, Failure>(
            BuildState {
                complete: state.flush().complete.push(BlockView::List(first_items)).push(
                    BlockView::List(second_items),
                ),
                pending: Seq::empty(),
            },
        ),
{
    let after_first = BuildState {
        complete: state.flush().complete.push(BlockView::List(first_items)),
        pending: Seq::empty(),
    };
    law_list_is_one_block(state, first->tag->List_0, first->events, first_items);
    law_list_is_one_block(after_first, second->tag->List_0, second->events, second_items);
    assert(seq![first, second] =~= seq![first] + seq![second]);
    law_blocks_fold_concat(seq![first], seq![second], state);
    lemma_blocks_fold_one(first, state);
    lemma_blocks_fold_one(second, after_first);
}

/// The items of a list match its children one for one: each child is a list
/// item, and each item holds the blocks of what its child encloses.
pub proof fn law_list_items(
    children: Seq<NodeView>,
    before: Seq<Seq<BlockView>>,
    items: Seq<Seq<BlockView>>,
)
    requires
        items_fold(children, before) == Ok::<Seq<Seq<BlockView>>, Failure>(items),
    ensures
        items.len() == before.len() + children.len(),
        items.take(before.len() as int) == before,
        forall|i: int|
            0 <= i < children.len() ==> {
                &&& #[trigger] children[i] is Nested
                &&& children[i]->tag == ElementView::Item
                &&& blocks_of(children[i]->events) == Ok::<Seq<BlockView>, Failure>(
                    items[before.len() + i],
                )
            },
    decreases children.len(),
{
    if children.len() == 0 {
        assert(items.take(before.len() as int) =~= before);
    } else {
        let blocks = blocks_of(children[0]->events)->Ok_0;
        law_list_items(children.drop_first(), before.push(blocks), items);
        assert(items.take(before.len() as int) =~= items.take(before.len() as int + 1).take(
            before.len() as int,
        ));
        assert(before.push(blocks).take(before.len() as int) =~= before);
        assert(items[before.len() as int] == items.take(before.len() as int + 1)[before.len() as int]);
        assert forall|i: int| 0 <= i < children.len() implies {
            &&& #[trigger] children[i] is Nested
            &&& children[i]->tag == ElementView::Item
            &&& blocks_of(children[i]->events) == Ok::<Seq<BlockView>, Failure>(
                items[before.len() + i],
            )
        } by {
            if i > 0 {
                assert(children[i] == children.drop_first()[i - 1]);
            }
        }
    }
}

/// A list of one item around `innermost`, wrapped `depth - 1` more times in
/// a list of one item.
pub open spec fn nested_list_node(depth: nat, innermost: Seq<NodeView>) -> NodeView
    decreases depth,
{
    let children = if depth <= 1 {
        innermost
    } else {
        seq![nested_list_node((depth - 1) as nat, innermost)]
    };
    NodeView::Nested {
        tag: ElementView::List(None),
        events: seq![NodeView::Nested { tag: ElementView::Item, events: children }],
    }
}

/// A list block of one item holding `innermost`, wrapped `depth - 1` more
/// times in a list block of one item.
pub open spec fn nested_list_block(depth: nat, innermost: Seq<BlockView>) -> BlockView
    decreases depth,
{
    let blocks = if depth <= 1 {
        innermost
    } else {
        seq![nested_list_block((depth - 1) as nat, innermost)]
    };
    BlockView::List(seq![blocks])
}

/// Lists nested to any depth become list blocks nested to the same depth.
pub proof fn law_nested_lists(depth: nat, innermost: Seq<NodeView>, blocks: Seq<BlockView>)
    requires
        depth >= 1,
        blocks_of(innermost) == Ok::<Seq<BlockView>, Failure>(blocks),
    ensures
        blocks_of(seq![nested_list_node(depth, innermost)]) == Ok::<Seq<BlockView>, Failure>(
            seq![nested_list_block(depth, blocks)],
        ),
    decreases depth,
{
    let children = if depth <= 1 {
        innermost
    } else {
        seq![nested_list_node((depth - 1) as nat, innermost)]
    };
    let inner_blocks = if depth <= 1 {
        blocks
    } else {
        seq![nested_list_block((depth - 1) as nat, blocks)]
    };
    if depth > 1 {
        law_nested_lists((depth - 1) as nat, innermost, blocks);
    }
    assert(blocks_of(children) == Ok::<Seq<BlockView>, Failure>(inner_blocks));
    let item = NodeView::Nested { tag: ElementView::Item, events: children };
    lemma_items_fold_one(item, Seq::empty());
    assert(Seq::<Seq<BlockView>>::empty().push(inner_blocks) =~= seq![inner_blocks]);
    let list = nested_list_node(depth, innermost);
    law_list_is_one_block(BuildState::empty(), None, seq![item], seq![inner_blocks]);
    lemma_blocks_fold_one(list, BuildState::empty());
    assert(Seq::<BlockView>::empty().push(nested_list_block(depth, blocks)) =~= seq![
        nested_list_block(depth, blocks),
    ]);
}

/// Whether a tag is a link that was not written inline.
pub open spec fn is_foreign_link(tag: ElementView) -> bool {
    tag matches ElementView::Link(form, _, _) && form != LinkForm::Inline
}

/// Whether the node is, or encloses at any depth, a link that was not
/// written inline.
pub open spec fn node_has_foreign_link(node: NodeView) -> bool
    decreases node,
{
    match node {
        NodeView::Event(_) => false,
        NodeView::Nested { tag, events } => is_foreign_link(tag) || has_foreign_link(events),
    }
}

/// Whether one of the trees holds, at any depth, a link that was not
/// written inline.
pub open spec fn has_foreign_link(nodes: Seq<NodeView>) -> bool
    decreases nodes,
{
    if nodes.len() == 0 {
        false
    } else {
        node_has_foreign_link(nodes[0]) || has_foreign_link(nodes.drop_first())
    }
}

/// Whether the stream opens a link that was not written inline.
pub open spec fn stream_has_foreign_link(events: Seq<TokenView>) -> bool {
    exists|i: int|
        0 <= i < events.len() && (#[trigger] events[i] matches TokenView::Start(tag)
            && is_foreign_link(tag))
}

proof fn lemma_text_step_foreign(spans: Seq<SpanView>, styles: Set<TextStyle>, node: NodeView)
    requires
        node_has_foreign_link(node),
    ensures
        text_step(spans, styles, node) is Err,
    decreases node, 0int,
{
    match node {
        NodeView::Event(_) => {},
        NodeView::Nested { tag, events } => {
            match tag {
                ElementView::Emphasis | ElementView::Strong | ElementView::Strikethrough => {
                    lemma_text_fold_foreign(
                        events,
                        styles.insert(tag_style(tag)->0),
                        Seq::empty(),
                    );
                },
                ElementView::Paragraph => {
                    lemma_text_fold_foreign(events, styles, Seq::empty());
                },
                ElementView::Link(form, _, _) => {
                    if has_foreign_link(events) {
                        lemma_text_fold_foreign(events, Set::empty(), Seq::empty());
                    }
                },
                _ => {},
            }
        },
    }
}

proof fn lemma_text_fold_foreign(nodes: Seq<NodeView>, styles: Set<TextStyle>, spans: Seq<SpanView>)
    requires
        has_foreign_link(nodes),
    ensures
        text_fold(nodes, styles, spans) is Err,
    decreases nodes, 1int,
{
    match text_step(spans, styles, nodes[0]) {
        Ok(next) => {
            if node_has_foreign_link(nodes[0]) {
                lemma_text_step_foreign(spans, styles, nodes[0]);
            } else {
                lemma_text_fold_foreign(nodes.drop_first(), styles, next);
            }
        },
        Err(_) => {},
    }
}

proof fn lemma_cells_fold_foreign(nodes: Seq<NodeView>, cells: Seq<Seq<SpanView>>)
    requires
        has_foreign_link(nodes),
    ensures
        cells_fold(nodes, cells) is Err,
    decreases nodes.len(),
{
    match cell_content(nodes[0]) {
        Ok(content) => {
            if node_has_foreign_link(nodes[0]) {
                lemma_text_fold_foreign(content, Set::empty(), Seq::empty());
            } else {
                match text_of(content, Set::empty()) {
                    Ok(text) => {
                        lemma_cells_fold_foreign(nodes.drop_first(), cells.push(text));
                    },
                    Err(_) => {},
                }
            }
        },
        Err(_) => {},
    }
}

proof fn lemma_rows_fold_foreign(nodes: Seq<NodeView>, rows: Seq<Seq<Seq<SpanView>>>)
    requires
        has_foreign_link(nodes),
    ensures
        rows_fold(nodes, rows) is Err,
    decreases nodes.len(),
{
    match nodes[0] {
        NodeView::Nested { tag: ElementView::TableRow, events } => {
            if node_has_foreign_link(nodes[0]) {
                lemma_cells_fold_foreign(events, Seq::empty());
            } else {
                match cells_of(events) {
                    Ok(row) => {
                        lemma_rows_fold_foreign(nodes.drop_first(), rows.push(row));
                    },
                    Err(_) => {},
                }
            }
        },
        _ => {},
    }
}

proof fn lemma_table_foreign(nodes: Seq<NodeView>)
    requires
        has_foreign_link(nodes),
    ensures
        table_of(nodes) is Err,
{
    match nodes[0] {
        NodeView::Nested { tag: ElementView::TableHead, events } => {
            if node_has_foreign_link(nodes[0]) {
                lemma_cells_fold_foreign(events, Seq::empty());
            } else {
                lemma_rows_fold_foreign(nodes.drop_first(), Seq::empty());
            }
        },
        _ => {},
    }
}

proof fn lemma_block_step_foreign(state: BuildState, node: NodeView)
    requires
        node_has_foreign_link(node),
    ensures
        block_step(state, node) is Err,
    decreases node, 0int,
{
    match node {
        NodeView::Event(_) => {},
        NodeView::Nested { tag, events } => {
            match tag {
                ElementView::Emphasis | ElementView::Strong | ElementView::Strikethrough => {
                    lemma_text_fold_foreign(
                        events,
                        Set::empty().insert(tag_style(tag)->0),
                        Seq::empty(),
                    );
                },
                ElementView::Link(form, _, _) => {
                    if has_foreign_link(events) {
                        lemma_text_fold_foreign(events, Set::empty(), Seq::empty());
                    }
                },
                ElementView::Heading(_) | ElementView::Paragraph | ElementView::CodeBlock(_) => {
                    lemma_text_fold_foreign(events, Set::empty(), Seq::empty());
                },
                ElementView::List(_) => {
                    lemma_items_fold_foreign(events, Seq::empty());
                },
                ElementView::Item | ElementView::BlockQuote => {
                    lemma_blocks_fold_foreign(events, BuildState::empty());
                },
                ElementView::Table(_) => {
                    lemma_table_foreign(events);
                },
                _ => {},
            }
        },
    }
}

proof fn lemma_blocks_fold_foreign(nodes: Seq<NodeView>, state: BuildState)
    requires
        has_foreign_link(nodes),
    ensures
        blocks_fold(nodes, state) is Err,
    decreases nodes, 0int,
{
    match block_step(state, nodes[0]) {
        Ok(next) => {
            if node_has_foreign_link(nodes[0]) {
                lemma_block_step_foreign(state, nodes[0]);
            } else {
                lemma_blocks_fold_foreign(nodes.drop_first(), next);
            }
        },
        Err(_) => {},
    }
}

proof fn lemma_items_fold_foreign(nodes: Seq<NodeView>, items: Seq<Seq<BlockView>>)
    requires
        has_foreign_link(nodes),
    ensures
        items_fold(nodes, items) is Err,
    decreases nodes, 0int,
{
    match nodes[0] {
        NodeView::Nested { tag: ElementView::Item, events } => {
            if node_has_foreign_link(nodes[0]) {
                lemma_blocks_fold_foreign(events, BuildState::empty());
            } else {
                match blocks_of(events) {
                    Ok(blocks) => {
                        lemma_items_fold_foreign(nodes.drop_first(), items.push(blocks));
                    },
                    Err(_) => {},
                }
            }
        },
        _ => {},
    }
}

/// A tree that holds, at any depth, a link that was not written inline has
/// no blocks: the conversion fails rather than make up a link.
pub proof fn law_foreign_link_fails(nodes: Seq<NodeView>)
    requires
        has_foreign_link(nodes),
    ensures
        blocks_of(nodes) is Err,
{
    lemma_blocks_fold_foreign(nodes, BuildState::empty());
}

proof fn lemma_flat_foreign_node(node: NodeView, i: int)
    requires
        node_atomic(node),
        0 <= i < flatten_node(node).len(),
        flatten_node(node)[i] matches TokenView::Start(tag) && is_foreign_link(tag),
    ensures
        node_has_foreign_link(node),
    decreases node, 0int,
{
    match node {
        NodeView::Event(_) => {},
        NodeView::Nested { tag, events } => {
            if 1 <= i <= flatten(events).len() {
                lemma_flat_foreign(events, i - 1);
            }
        },
    }
}

proof fn lemma_flat_foreign(nodes: Seq<NodeView>, i: int)
    requires
        leaves_atomic(nodes),
        0 <= i < flatten(nodes).len(),
        flatten(nodes)[i] matches TokenView::Start(tag) && is_foreign_link(tag),
    ensures
        has_foreign_link(nodes),
    decreases nodes, 1int,
{
    if nodes.len() > 0 {
        let head = flatten_node(nodes[0]);
        if i < head.len() {
            lemma_flat_foreign_node(nodes[0], i);
        } else {
            lemma_flat_foreign(nodes.drop_first(), i - head.len());
        }
    }
}

/// A stream that opens a link not written inline has no blocks: the
/// conversion fails rather than make up a link.
pub proof fn law_foreign_link_stream_fails(events: Seq<TokenView>)
    requires
        stream_has_foreign_link(events),
    ensures
        ast_of(events) is Err,
{
    if unflatten_spec(events) is Ok {
        let nodes = unflatten_spec(events)->Ok_0;
        law_flatten_unflatten(events);
        let i = choose|i: int|
            0 <= i < events.len() && (#[trigger] events[i] matches TokenView::Start(tag)
                && is_foreign_link(tag));
        lemma_flat_foreign(nodes, i);
        law_foreign_link_fails(nodes);
    }
}

/// Whether no paragraph in the block, at any depth, is empty.
pub open spec fn no_empty_paragraph(block: BlockView) -> bool
    decreases block,
{
    match block {
        BlockView::Paragraph(text) => text.len() > 0,
        BlockView::List(items) => forall|i: int, j: int|
            0 <= i < items.len() && 0 <= j < items[i].len() ==> no_empty_paragraph(
                #[trigger] items[i][j],
            ),
        BlockView::BlockQuote(blocks) => forall|i: int|
            0 <= i < blocks.len() ==> no_empty_paragraph(#[trigger] blocks[i]),
        _ => true,
    }
}

/// Whether no paragraph in the blocks, at any depth, is empty.
pub open spec fn no_empty_paragraphs(blocks: Seq<BlockView>) -> bool {
    forall|i: int| 0 <= i < blocks.len() ==> no_empty_paragraph(#[trigger] blocks[i])
}

proof fn lemma_block_step_paragraphs(state: BuildState, node: NodeView)
    requires
        no_empty_paragraphs(state.complete),
        block_step(state, node) is Ok,
    ensures
        no_empty_paragraphs(block_step(state, node)->Ok_0.complete),
    decreases node, 0int,
{
    let flushed = state.flush();
    assert(no_empty_paragraphs(flushed.complete));
    match node {
        NodeView::Event(_) => {},
        NodeView::Nested { tag, events } => {
            match tag {
                ElementView::List(_) => {
                    lemma_items_fold_paragraphs(events, Seq::empty());
                },
                ElementView::Item => {
                    lemma_blocks_of_paragraphs(events);
                },
                ElementView::BlockQuote => {
                    lemma_blocks_of_paragraphs(events);
                },
                _ => {},
            }
        },
    }
}

proof fn lemma_blocks_fold_paragraphs(nodes: Seq<NodeView>, state: BuildState)
    requires
        no_empty_paragraphs(state.complete),
        blocks_fold(nodes, state) is Ok,
    ensures
        no_empty_paragraphs(blocks_fold(nodes, state)->Ok_0.complete),
    decreases nodes, 0int,
{
    if nodes.len() > 0 {
        lemma_block_step_paragraphs(state, nodes[0]);
        lemma_blocks_fold_paragraphs(nodes.drop_first(), block_step(state, nodes[0])->Ok_0);
    }
}

proof fn lemma_blocks_of_paragraphs(nodes: Seq<NodeView>)
    requires
        blocks_of(nodes) is Ok,
    ensures
        no_empty_paragraphs(blocks_of(nodes)->Ok_0),
    decreases nodes, 1int,
{
    lemma_blocks_fold_paragraphs(nodes, BuildState::empty());
}

proof fn lemma_items_fold_paragraphs(nodes: Seq<NodeView>, items: Seq<Seq<BlockView>>)
    requires
        forall|i: int| 0 <= i < items.len() ==> no_empty_paragraphs(#[trigger] items[i]),
        items_fold(nodes, items) is Ok,
    ensures
        forall|i: int|
            0 <= i < items_fold(nodes, items)->Ok_0.len() ==> no_empty_paragraphs(
                #[trigger] items_fold(nodes, items)->Ok_0[i],
            ),
    decreases nodes, 0int,
{
    if nodes.len() > 0 {
        lemma_blocks_of_paragraphs(nodes[0]->events);
        lemma_items_fold_paragraphs(
            nodes.drop_first(),
            items.push(blocks_of(nodes[0]->events)->Ok_0),
        );
    }
}

/// No paragraph of a converted document is empty, at any depth: spans that
/// were never gathered are dropped, not emitted.
pub proof fn law_no_empty_paragraph(nodes: Seq<NodeView>)
    requires
        blocks_of(nodes) is Ok,
    ensures
        no_empty_paragraphs(blocks_of(nodes)->Ok_0),
{
    lemma_blocks_of_paragraphs(nodes);
}

/// Two paragraphs that follow one another stay two blocks: the second
/// closes the first.
pub proof fn law_paragraphs_stay_apart(
    first: Seq<NodeView>,
    second: Seq<NodeView>,
    first_text: Seq<SpanView>,
    second_text: Seq<SpanView>,
)
    requires
        text_of(first, Set::empty()) == Ok::<Seq<SpanView>, Failure>(first_text),
        text_of(second, Set::empty()) == Ok::<Seq<SpanView>, Failure>(second_text),
        first_text.len() > 0,
        second_text.len() > 0,
    ensures
        blocks_of(
            seq![
                NodeView::Nested { tag: ElementView::Paragraph, events: first },
                NodeView::Nested { tag: ElementView::Paragraph, events: second },
            ],
        ) == Ok::<Seq<BlockView>, Failure>(
            seq![BlockView::Paragraph(first_text), BlockView::Paragraph(second_text)],
        ),
{
    let one = NodeView::Nested { tag: ElementView::Paragraph, events: first };
    let two = NodeView::Nested { tag: ElementView::Paragraph, events: second };
    let after_one = BuildState { complete: Seq::empty(), pending: first_text };
    let after_two = BuildState {
        complete: seq![BlockView::Paragraph(first_text)],
        pending: second_text,
    };
    assert(seq![one, two] =~= seq![one] + seq![two]);
    law_blocks_fold_concat(seq![one], seq![two], BuildState::empty());
    lemma_blocks_fold_one(one, BuildState::empty());
    lemma_blocks_fold_one(two, after_one);
    assert(Seq::<SpanView>::empty() + first_text =~= first_text);
    assert(Seq::<SpanView>::empty() + second_text =~= second_text);
    assert(Seq::<BlockView>::empty().push(BlockView::Paragraph(first_text)) =~= seq![
        BlockView::Paragraph(first_text),
    ]);
    assert(block_step(BuildState::empty(), one) == Ok::<BuildState, Failure>(after_one));
    assert(block_step(after_one, two) == Ok::<BuildState, Failure>(after_two));
    assert(after_two.flush().complete =~= seq![
        BlockView::Paragraph(first_text),
        BlockView::Paragraph(second_text),
    ]);
}

/// A code block holding one piece of text becomes a code block with that
/// text as its code and with the info string of its fence, if it has one.
pub proof fn law_code_block(info_string: Option<Seq<char>>, code: Seq<char>)
    ensures
        blocks_of(
            seq![
                NodeView::Nested {
                    tag: ElementView::CodeBlock(info_string),
                    events: seq![NodeView::Event(TokenView::Text(code))],
                },
            ],
        ) == Ok::<Seq<BlockView>, Failure>(seq![BlockView::CodeBlock { info_string, code }]),
{
    let leaf = NodeView::Event(TokenView::Text(code));
    let block = NodeView::Nested { tag: ElementView::CodeBlock(info_string), events: seq![leaf] };
    let run = SpanView::Text(code, Set::empty());
    lemma_text_fold_one(leaf, Set::empty(), Seq::empty());
    assert(Seq::<SpanView>::empty().push(run) =~= seq![run]);
    assert(code_text(seq![run]) == Ok::<Seq<char>, Failure>(code)) by {
        let rest = seq![run].drop_first();
        assert(rest =~= Seq::<SpanView>::empty());
        assert(Seq::<char>::empty() + code =~= code);
        assert(code_fold(rest, code) == Ok::<Seq<char>, Failure>(code));
    }
    lemma_blocks_fold_one(block, BuildState::empty());
    assert(Seq::<BlockView>::empty().push(BlockView::CodeBlock { info_string, code }) =~= seq![
        BlockView::CodeBlock { info_string, code },
    ]);
}

/// A list of one item holding one piece of plain text becomes a list of
/// one item holding one paragraph with one run without styles.
pub proof fn law_single_item(first: Option<u64>, text: Seq<char>)
    ensures
        blocks_of(
            seq![
                NodeView::Nested {
                    tag: ElementView::List(first),
                    events: seq![
                        NodeView::Nested {
                            tag: ElementView::Item,
                            events: seq![NodeView::Event(TokenView::Text(text))],
                        },
                    ],
                },
            ],
        ) == Ok::<Seq<BlockView>, Failure>(
            seq![
                BlockView::List(
                    seq![seq![BlockView::Paragraph(seq![SpanView::Text(text, Set::empty())])]],
                ),
            ],
        ),
{
    let leaf = NodeView::Event(TokenView::Text(text));
    let item = NodeView::Nested { tag: ElementView::Item, events: seq![leaf] };
    let list = NodeView::Nested { tag: ElementView::List(first), events: seq![item] };
    let run = SpanView::Text(text, Set::empty());
    let paragraph = BlockView::Paragraph(seq![run]);
    lemma_blocks_fold_one(leaf, BuildState::empty());
    assert(Seq::<SpanView>::empty().push(run) =~= seq![run]);
    assert(Seq::<BlockView>::empty().push(paragraph) =~= seq![paragraph]);
    assert(blocks_of(seq![leaf]) == Ok::<Seq<BlockView>, Failure>(seq![paragraph]));
    lemma_items_fold_one(item, Seq::empty());
    assert(Seq::<Seq<BlockView>>::empty().push(seq![paragraph]) =~= seq![seq![paragraph]]);
    law_list_is_one_block(BuildState::empty(), first, seq![item], seq![seq![paragraph]]);
    lemma_blocks_fold_one(list, BuildState::empty());
    assert(Seq::<BlockView>::empty().push(BlockView::List(seq![seq![paragraph]])) =~= seq![
        BlockView::List(seq![seq![paragraph]]),
    ]);
}

/// Converting the same text twice gives the same blocks, or the same
/// failure: the conversion is a function of the text.
pub proof fn law_same_text_same_blocks(
    input: Seq<char>,
    first: Result<Vec<Block>, Failure>,
    second: Result<Vec<Block>, Failure>,
)
    requires
        blocks_result_view(first) == markdown_ast(input),
        blocks_result_view(second) == markdown_ast(input),
    ensures
        blocks_result_view(first) == blocks_result_view(second),
        first is Ok <==> second is Ok,
{
}

} // verus!
