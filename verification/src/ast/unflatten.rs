//! From a flat event stream back to the tree that it implies.
//!
//! A tokenizer emits open, close and atomic events in document order. The
//! unflattener keeps a stack of open tags, each with the children gathered so
//! far, and a root sequence. It gives tags no meaning: it only pairs each
//! close with the innermost open tag.
use vstd::prelude::*;

use crate::ast::flatten::{flatten, law_flatten_unflatten};
use crate::failure::{Failure, Violation};
use crate::token::{Element, ElementView, Token, TokenView};
use crate::tokenizer::{markdown_events, tokenize};
use crate::view::{lemma_views_push, views};

verus! {

/// A node of the tree: an atomic event, or a tag with what it encloses.
#[derive(Debug, PartialEq)]
pub enum UnflattenedEvent {
    /// An atomic event. The unflattener never stores `Start` or `End` here.
    Event(Token),
    /// A matched pair of `Start` and `End`, with the nodes between them.
    Nested { tag: Element, events: Vec<UnflattenedEvent> },
}

/// The mathematical value of an [`UnflattenedEvent`].
pub enum NodeView {
    Event(TokenView),
    Nested { tag: ElementView, events: Seq<NodeView> },
}

/// The view of one node.
pub open spec fn node_view(node: UnflattenedEvent) -> NodeView
    decreases node,
{
    match node {
        UnflattenedEvent::Event(event) => NodeView::Event(event@),
        UnflattenedEvent::Nested { tag, events } => NodeView::Nested {
            tag: tag@,
            events: Seq::new(
                events@.len(),
                |i: int|
                    if 0 <= i < events@.len() {
                        node_view(events@[i])
                    } else {
                        arbitrary()
                    },
            ),
        },
    }
}

impl View for UnflattenedEvent {
    type V = NodeView;

    open spec fn view(&self) -> NodeView {
        node_view(*self)
    }
}

/// The view of a nested node is its tag's view around its children's views.
pub proof fn lemma_nested_view(tag: Element, events: Vec<UnflattenedEvent>)
    ensures
        node_view(UnflattenedEvent::Nested { tag, events }) == (NodeView::Nested {
            tag: tag@,
            events: views(events@),
        }),
{
    let inner = node_view(UnflattenedEvent::Nested { tag, events })->events;
    assert(inner =~= views(events@));
}

/// The state of an unflattening: the finished top-level nodes, and the open
/// tags from outermost to innermost, each with its children so far.
pub struct UnflattenerView {
    pub root: Seq<NodeView>,
    pub nested: Seq<(ElementView, Seq<NodeView>)>,
}

impl UnflattenerView {
    /// The state before any event: nothing finished, nothing open.
    pub open spec fn empty() -> UnflattenerView {
        UnflattenerView { root: Seq::empty(), nested: Seq::empty() }
    }

    /// Appends `node` to the children of the innermost open tag, or to the
    /// root sequence when no tag is open.
    pub open spec fn append(self, node: NodeView) -> UnflattenerView {
        if self.nested.len() == 0 {
            UnflattenerView { root: self.root.push(node), nested: self.nested }
        } else {
            let top = self.nested.last();
            UnflattenerView {
                root: self.root,
                nested: self.nested.drop_last().push((top.0, top.1.push(node))),
            }
        }
    }

    /// The state after one event.
    ///
    /// `Start` opens a frame. `End` must name the innermost open tag; it
    /// closes that frame and appends it as a node one level out. Any other
    /// event becomes a leaf.
    pub open spec fn handle(self, event: TokenView) -> Result<UnflattenerView, Failure> {
        match event {
            TokenView::Start(tag) => Ok(
                UnflattenerView { root: self.root, nested: self.nested.push((tag, Seq::empty())) },
            ),
            TokenView::End(tag) => {
                if self.nested.len() == 0 {
                    Err(Failure::Invariant(Violation::UnmatchedEnd))
                } else if self.nested.last().0 != tag {
                    Err(Failure::Invariant(Violation::MismatchedEnd))
                } else {
                    let outer = UnflattenerView {
                        root: self.root,
                        nested: self.nested.drop_last(),
                    };
                    Ok(outer.append(NodeView::Nested { tag, events: self.nested.last().1 }))
                }
            },
            _ => Ok(self.append(NodeView::Event(event))),
        }
    }

    /// The state after a sequence of events, or the first failure.
    pub open spec fn handle_all(self, events: Seq<TokenView>) -> Result<UnflattenerView, Failure>
        decreases events.len(),
    {
        if events.len() == 0 {
            Ok(self)
        } else {
            match self.handle(events[0]) {
                Ok(next) => next.handle_all(events.drop_first()),
                Err(failure) => Err(failure),
            }
        }
    }

    /// The tree, once every tag has been closed.
    pub open spec fn finish(self) -> Result<Seq<NodeView>, Failure> {
        if self.nested.len() == 0 {
            Ok(self.root)
        } else {
            Err(Failure::Invariant(Violation::UnclosedTag))
        }
    }
}

/// The tree that a flat event sequence implies, or why it implies none.
pub open spec fn unflatten_spec(events: Seq<TokenView>) -> Result<Seq<NodeView>, Failure> {
    match UnflattenerView::empty().handle_all(events) {
        Ok(state) => state.finish(),
        Err(failure) => Err(failure),
    }
}

/// The view of a tree result.
pub open spec fn tree_result_view(result: Result<Vec<UnflattenedEvent>, Failure>) -> Result<
    Seq<NodeView>,
    Failure,
> {
    match result {
        Ok(nodes) => Ok(views(nodes@)),
        Err(failure) => Err(failure),
    }
}

/// The view of the stack of open frames.
pub open spec fn frames_view(frames: Seq<(Element, Vec<UnflattenedEvent>)>) -> Seq<
    (ElementView, Seq<NodeView>),
> {
    Seq::new(frames.len(), |i: int| (frames[i].0@, views(frames[i].1@)))
}

/// Rebuilds a tree from a stream of events, one event at a time.
pub struct Unflattener {
    root: Vec<UnflattenedEvent>,
    nested: Vec<(Element, Vec<UnflattenedEvent>)>,
}

impl View for Unflattener {
    type V = UnflattenerView;

    closed spec fn view(&self) -> UnflattenerView {
        UnflattenerView { root: views(self.root@), nested: frames_view(self.nested@) }
    }
}

impl Unflattener {
    /// An unflattener that has seen no event.
    pub fn new() -> (unflattener: Unflattener)
        ensures
            unflattener@ == UnflattenerView::empty(),
    {
        let unflattener = Unflattener { root: Vec::new(), nested: Vec::new() };
        assert(unflattener@.root =~= Seq::empty());
        assert(unflattener@.nested =~= Seq::empty());
        unflattener
    }

    /// Appends `node` where the next node belongs: to the innermost open
    /// tag, or to the root sequence when no tag is open.
    fn push_node(&mut self, node: UnflattenedEvent)
        ensures
            final(self)@ == old(self)@.append(node@),
    {
        match self.nested.pop() {
            Some((tag, mut events)) => {
                let ghost before = events@;
                events.push(node);
                proof {
                    lemma_views_push(before, node);
                }
                self.nested.push((tag, events));
                assert(self@.nested =~= old(self)@.append(node@).nested);
            },
            None => {
                proof {
                    lemma_views_push(self.root@, node);
                }
                self.root.push(node);
                assert(self@.nested =~= old(self)@.nested);
            },
        }
    }

    /// Takes the next event of the stream.
    ///
    /// Fails, and leaves the state as it was, on an `End` that does not
    /// close the innermost open tag.
    pub fn handle_event(&mut self, event: Token) -> (result: Result<(), Failure>)
        ensures
            match old(self)@.handle(event@) {
                Ok(next) => result is Ok && final(self)@ == next,
                Err(failure) => result == Err::<(), Failure>(failure) && final(self)@ == old(
                    self,
                )@,
            },
    {
        match event {
            Token::Start(tag) => {
                let children: Vec<UnflattenedEvent> = Vec::new();
                assert(views(children@) =~= Seq::empty());
                self.nested.push((tag, children));
                assert(self@.nested =~= old(self)@.nested.push((tag@, Seq::empty())));
                Ok(())
            },
            Token::End(tag) => {
                let depth = self.nested.len();
                if depth == 0 {
                    return Err(Failure::Invariant(Violation::UnmatchedEnd));
                }
                if !self.nested[depth - 1].0.same_as(&tag) {
                    return Err(Failure::Invariant(Violation::MismatchedEnd));
                }
                let (_, inner) = self.nested.pop().unwrap();
                proof {
                    lemma_nested_view(tag, inner);
                    assert(self@.nested =~= old(self)@.nested.drop_last());
                }
                self.push_node(UnflattenedEvent::Nested { tag, events: inner });
                Ok(())
            },
            event => {
                self.push_node(UnflattenedEvent::Event(event));
                Ok(())
            },
        }
    }

    /// Ends the stream and hands out the tree.
    ///
    /// Fails when a tag is still open.
    pub fn finish(self) -> (result: Result<Vec<UnflattenedEvent>, Failure>)
        ensures
            tree_result_view(result) == self@.finish(),
    {
        if self.nested.len() == 0 {
            Ok(self.root)
        } else {
            Err(Failure::Invariant(Violation::UnclosedTag))
        }
    }
}

/// Rebuilds the tree that `events` implies: the one whose walk emits
/// exactly `events`.
///
/// Fails on the first `End` that does not close the innermost open tag,
/// and at the end of the stream when a tag is still open.
pub fn unflatten(events: Vec<Token>) -> (result: Result<Vec<UnflattenedEvent>, Failure>)
    ensures
        tree_result_view(result) == unflatten_spec(views(events@)),
        result is Ok ==> flatten(views(result->Ok_0@)) == views(events@),
{
    let ghost all = views(events@);
    proof {
        if unflatten_spec(all) is Ok {
            law_flatten_unflatten(all);
        }
    }
    let mut unflattener = Unflattener::new();
    assert(all.skip(0) =~= all);
    for event in it: events
        invariant
            all == views(it.seq()),
            UnflattenerView::empty().handle_all(all) == unflattener@.handle_all(
                all.skip(it.index() as int),
            ),
    {
        let ghost rest = all.skip(it.index() as int);
        assert(rest[0] == event@);
        assert(rest.drop_first() =~= all.skip(it.index() + 1));
        match unflattener.handle_event(event) {
            Ok(()) => {},
            Err(failure) => {
                return Err(failure);
            },
        }
    }
    assert(all.skip(all.len() as int) =~= Seq::empty());
    unflattener.finish()
}

/// Tokenizes a Markdown text and rebuilds the tree of its events.
pub fn parse_markdown_to_unflattened_events(input: &str) -> (result: Result<
    Vec<UnflattenedEvent>,
    Failure,
>)
    ensures
        tree_result_view(result) == unflatten_spec(markdown_events(input@)),
{
    unflatten(tokenize(input))
}

} // verus!
