//! Unflattening is the inverse of flattening.
//!
//! A tree flattens to the event stream that a walk of it emits: a leaf
//! gives its event, a nested node gives `Start`, its children and `End`. The
//! two laws at the end of this file say that unflattening a stream yields
//! exactly the tree that flattens to it.
use vstd::prelude::*;

use crate::ast::unflatten::{unflatten_spec, NodeView, UnflattenerView};
use crate::failure::Failure;
use crate::token::{ElementView, TokenView};

verus! {

/// Whether an event is neither `Start` nor `End`.
pub open spec fn is_atomic(event: TokenView) -> bool {
    !(event is Start) && !(event is End)
}

/// Whether every leaf of the node holds an atomic event.
pub open spec fn node_atomic(node: NodeView) -> bool
    decreases node,
{
    match node {
        NodeView::Event(event) => is_atomic(event),
        NodeView::Nested { tag, events } => leaves_atomic(events),
    }
}

/// Whether every leaf of the trees holds an atomic event.
pub open spec fn leaves_atomic(nodes: Seq<NodeView>) -> bool
    decreases nodes,
{
    if nodes.len() == 0 {
        true
    } else {
        node_atomic(nodes[0]) && leaves_atomic(nodes.drop_first())
    }
}

/// The events that a walk of one node emits.
pub open spec fn flatten_node(node: NodeView) -> Seq<TokenView>
    decreases node,
{
    match node {
        NodeView::Event(event) => seq![event],
        NodeView::Nested { tag, events } => seq![TokenView::Start(tag)] + flatten(events)
            + seq![TokenView::End(tag)],
    }
}

/// The events that a walk of the trees emits, from left to right.
pub open spec fn flatten(nodes: Seq<NodeView>) -> Seq<TokenView>
    decreases nodes,
{
    if nodes.len() == 0 {
        Seq::empty()
    } else {
        flatten_node(nodes[0]) + flatten(nodes.drop_first())
    }
}

/// The events that lead to a stack of open frames.
pub open spec fn flatten_frames(frames: Seq<(ElementView, Seq<NodeView>)>) -> Seq<TokenView>
    decreases frames.len(),
{
    if frames.len() == 0 {
        Seq::empty()
    } else {
        flatten_frames(frames.drop_last()) + seq![TokenView::Start(frames.last().0)] + flatten(
            frames.last().1,
        )
    }
}

/// Whether every leaf held in a stack of open frames is atomic.
pub open spec fn frames_atomic(frames: Seq<(ElementView, Seq<NodeView>)>) -> bool
    decreases frames.len(),
{
    if frames.len() == 0 {
        true
    } else {
        frames_atomic(frames.drop_last()) && leaves_atomic(frames.last().1)
    }
}

impl UnflattenerView {
    /// The state after appending each node in turn.
    pub open spec fn append_all(self, nodes: Seq<NodeView>) -> UnflattenerView
        decreases nodes.len(),
    {
        if nodes.len() == 0 {
            self
        } else {
            self.append(nodes[0]).append_all(nodes.drop_first())
        }
    }

    /// The events that lead to this state.
    pub open spec fn consumed(self) -> Seq<TokenView> {
        flatten(self.root) + flatten_frames(self.nested)
    }

    /// Whether every leaf held in this state is atomic.
    pub open spec fn atomic(self) -> bool {
        leaves_atomic(self.root) && frames_atomic(self.nested)
    }
}

proof fn lemma_flatten_push(nodes: Seq<NodeView>, node: NodeView)
    ensures
        flatten(nodes.push(node)) == flatten(nodes) + flatten_node(node),
        leaves_atomic(nodes.push(node)) == (leaves_atomic(nodes) && node_atomic(node)),
    decreases nodes.len(),
{
    if nodes.len() == 0 {
        let rest = nodes.push(node).drop_first();
        assert(rest =~= Seq::<NodeView>::empty());
        assert(flatten(rest) =~= Seq::<TokenView>::empty());
        assert(leaves_atomic(rest));
        assert(flatten(nodes.push(node)) =~= flatten(nodes) + flatten_node(node));
    } else {
        assert(nodes.push(node).drop_first() =~= nodes.drop_first().push(node));
        lemma_flatten_push(nodes.drop_first(), node);
        assert(flatten(nodes.push(node)) =~= flatten(nodes) + flatten_node(node));
    }
}

proof fn lemma_handle_all_concat(state: UnflattenerView, first: Seq<TokenView>, second: Seq<TokenView>)
    ensures
        state.handle_all(first + second) == match state.handle_all(first) {
            Ok(next) => next.handle_all(second),
            Err(failure) => Err(failure),
        },
    decreases first.len(),
{
    if first.len() == 0 {
        assert(first + second =~= second);
    } else {
        assert((first + second).drop_first() =~= first.drop_first() + second);
        match state.handle(first[0]) {
            Ok(next) => {
                lemma_handle_all_concat(next, first.drop_first(), second);
            },
            Err(_) => {},
        }
    }
}

proof fn lemma_handle_all_one(state: UnflattenerView, event: TokenView)
    ensures
        state.handle_all(seq![event]) == state.handle(event),
{
    assert(seq![event].drop_first() =~= Seq::<TokenView>::empty());
    match state.handle(event) {
        Ok(next) => {
            assert(next.handle_all(Seq::<TokenView>::empty()) == Ok::<UnflattenerView, Failure>(next));
        },
        Err(_) => {},
    }
}

proof fn lemma_append_all_open(
    root: Seq<NodeView>,
    outer: Seq<(ElementView, Seq<NodeView>)>,
    tag: ElementView,
    children: Seq<NodeView>,
    nodes: Seq<NodeView>,
)
    ensures
        (UnflattenerView { root, nested: outer.push((tag, children)) }).append_all(nodes) == (
        UnflattenerView { root, nested: outer.push((tag, children + nodes)) }),
    decreases nodes.len(),
{
    let state = UnflattenerView { root, nested: outer.push((tag, children)) };
    if nodes.len() == 0 {
        assert(children + nodes =~= children);
    } else {
        assert(state.nested.drop_last() =~= outer);
        assert(state.append(nodes[0]) == UnflattenerView {
            root,
            nested: outer.push((tag, children.push(nodes[0]))),
        });
        lemma_append_all_open(root, outer, tag, children.push(nodes[0]), nodes.drop_first());
        assert(children.push(nodes[0]) + nodes.drop_first() =~= children + nodes);
    }
}

proof fn lemma_append_all_root(root: Seq<NodeView>, nodes: Seq<NodeView>)
    ensures
        (UnflattenerView { root, nested: Seq::empty() }).append_all(nodes) == (UnflattenerView {
            root: root + nodes,
            nested: Seq::empty(),
        }),
    decreases nodes.len(),
{
    if nodes.len() == 0 {
        assert(root + nodes =~= root);
    } else {
        lemma_append_all_root(root.push(nodes[0]), nodes.drop_first());
        assert(root.push(nodes[0]) + nodes.drop_first() =~= root + nodes);
    }
}

proof fn lemma_handle_flat_node(state: UnflattenerView, node: NodeView)
    requires
        node_atomic(node),
    ensures
        state.handle_all(flatten_node(node)) == Ok::<UnflattenerView, Failure>(state.append(node)),
    decreases node, 0int,
{
    match node {
        NodeView::Event(event) => {
            lemma_handle_all_one(state, event);
        },
        NodeView::Nested { tag, events } => {
            let open = UnflattenerView {
                root: state.root,
                nested: state.nested.push((tag, Seq::empty())),
            };
            let filled = UnflattenerView { root: state.root, nested: state.nested.push((tag, events)) };
            lemma_handle_all_one(state, TokenView::Start(tag));
            lemma_handle_flat(open, events);
            lemma_append_all_open(state.root, state.nested, tag, Seq::empty(), events);
            assert(Seq::<NodeView>::empty() + events =~= events);
            lemma_handle_all_concat(state, seq![TokenView::Start(tag)], flatten(events));
            lemma_handle_all_one(filled, TokenView::End(tag));
            assert(filled.nested.drop_last() =~= state.nested);
            lemma_handle_all_concat(
                state,
                seq![TokenView::Start(tag)] + flatten(events),
                seq![TokenView::End(tag)],
            );
        },
    }
}

proof fn lemma_handle_flat(state: UnflattenerView, nodes: Seq<NodeView>)
    requires
        leaves_atomic(nodes),
    ensures
        state.handle_all(flatten(nodes)) == Ok::<UnflattenerView, Failure>(state.append_all(nodes)),
    decreases nodes, 1int,
{
    if nodes.len() > 0 {
        lemma_handle_flat_node(state, nodes[0]);
        lemma_handle_flat(state.append(nodes[0]), nodes.drop_first());
        lemma_handle_all_concat(state, flatten_node(nodes[0]), flatten(nodes.drop_first()));
    }
}

proof fn lemma_consumed_append(state: UnflattenerView, node: NodeView)
    ensures
        state.append(node).consumed() == state.consumed() + flatten_node(node),
        state.append(node).atomic() == (state.atomic() && node_atomic(node)),
{
    if state.nested.len() == 0 {
        lemma_flatten_push(state.root, node);
        assert(state.append(node).nested =~= Seq::empty());
        assert(state.append(node).consumed() =~= state.consumed() + flatten_node(node));
    } else {
        let top = state.nested.last();
        let grown = state.nested.drop_last().push((top.0, top.1.push(node)));
        lemma_flatten_push(top.1, node);
        assert(grown.drop_last() =~= state.nested.drop_last());
        assert(state.append(node).consumed() =~= state.consumed() + flatten_node(node));
    }
}

proof fn lemma_consumed_handle(state: UnflattenerView, event: TokenView)
    requires
        state.handle(event) is Ok,
    ensures
        state.handle(event)->Ok_0.consumed() == state.consumed().push(event),
        state.handle(event)->Ok_0.atomic() == state.atomic(),
{
    let next = state.handle(event)->Ok_0;
    match event {
        TokenView::Start(tag) => {
            assert(next.nested.drop_last() =~= state.nested);
            assert(flatten(Seq::<NodeView>::empty()) =~= Seq::<TokenView>::empty());
            assert(next.consumed() =~= state.consumed().push(event));
        },
        TokenView::End(tag) => {
            let outer = UnflattenerView { root: state.root, nested: state.nested.drop_last() };
            let node = NodeView::Nested { tag, events: state.nested.last().1 };
            lemma_consumed_append(outer, node);
            assert(next.consumed() =~= state.consumed().push(event));
        },
        _ => {
            lemma_consumed_append(state, NodeView::Event(event));
            assert(next.consumed() =~= state.consumed().push(event));
        },
    }
}

proof fn lemma_consumed_handle_all(state: UnflattenerView, events: Seq<TokenView>)
    requires
        state.handle_all(events) is Ok,
    ensures
        state.handle_all(events)->Ok_0.consumed() == state.consumed() + events,
        state.handle_all(events)->Ok_0.atomic() == state.atomic(),
    decreases events.len(),
{
    if events.len() == 0 {
        assert(state.consumed() + events =~= state.consumed());
    } else {
        let next = state.handle(events[0])->Ok_0;
        lemma_consumed_handle(state, events[0]);
        lemma_consumed_handle_all(next, events.drop_first());
        assert(state.consumed().push(events[0]) + events.drop_first() =~= state.consumed()
            + events);
    }
}

/// Unflattening the events of a walk gives back the trees that were
/// walked, provided that no leaf holds a `Start` or an `End`.
pub proof fn law_unflatten_flatten(nodes: Seq<NodeView>)
    requires
        leaves_atomic(nodes),
    ensures
        unflatten_spec(flatten(nodes)) == Ok::<Seq<NodeView>, Failure>(nodes),
{
    lemma_handle_flat(UnflattenerView::empty(), nodes);
    lemma_append_all_root(Seq::empty(), nodes);
    assert(Seq::<NodeView>::empty() + nodes =~= nodes);
}

/// Where unflattening succeeds, a walk of the trees it gives emits exactly
/// the events that went in, and no leaf holds a `Start` or an `End`.
pub proof fn law_flatten_unflatten(events: Seq<TokenView>)
    requires
        unflatten_spec(events) is Ok,
    ensures
        flatten(unflatten_spec(events)->Ok_0) == events,
        leaves_atomic(unflatten_spec(events)->Ok_0),
{
    let start = UnflattenerView::empty();
    lemma_consumed_handle_all(start, events);
    let end = start.handle_all(events)->Ok_0;
    assert(start.consumed() =~= Seq::<TokenView>::empty());
    assert(end.consumed() =~= flatten(end.root));
    assert(Seq::<TokenView>::empty() + events =~= events);
}

} // verus!
