//! Views of sequences.
//!
//! A `Vec` of values views as the `Seq` of the values themselves. Contracts
//! here speak of the sequence of the values' own views, which [`views`]
//! gives.
use vstd::prelude::*;

verus! {

/// The view of each element, in order.
pub open spec fn views<T: View>(items: Seq<T>) -> Seq<T::V> {
    Seq::new(items.len(), |i: int| items[i]@)
}

/// The empty sequence views as the empty sequence.
pub proof fn lemma_views_empty<T: View>(items: Seq<T>)
    requires
        items.len() == 0,
    ensures
        views(items) == Seq::<T::V>::empty(),
{
    assert(views(items) =~= Seq::<T::V>::empty());
}

/// Pushing an element pushes its view.
pub proof fn lemma_views_push<T: View>(items: Seq<T>, item: T)
    ensures
        views(items.push(item)) == views(items).push(item@),
{
    assert(views(items.push(item)) =~= views(items).push(item@));
}

/// Concatenation commutes with taking views.
pub proof fn lemma_views_add<T: View>(left: Seq<T>, right: Seq<T>)
    ensures
        views(left + right) == views(left) + views(right),
{
    assert(views(left + right) =~= views(left) + views(right));
}

/// Skipping `n` elements and then dropping the first skips `n + 1`.
pub proof fn lemma_skip_step<T>(items: Seq<T>, n: int)
    requires
        0 <= n < items.len(),
    ensures
        items.skip(n).len() > 0,
        items.skip(n)[0] == items[n],
        items.skip(n).drop_first() == items.skip(n + 1),
{
    assert(items.skip(n).drop_first() =~= items.skip(n + 1));
}

} // verus!
