//! What a conversion drops without failing.
//!
//! Two things are left out of the blocks on purpose: raw HTML, and the
//! title of a link. Neither fails the conversion. [`warnings`] lists them
//! for the caller to report.
use vstd::prelude::*;

use crate::token::{Element, ElementView, Token, TokenView};
use crate::view::{lemma_views_empty, lemma_views_push, views};

verus! {

/// Something that the conversion leaves out.
#[derive(Debug, Clone, PartialEq, Eq)]
pub enum Warning {
    /// Raw HTML was skipped.
    SkippedHtml,
    /// The title of a link, given here, was ignored.
    IgnoredLinkTitle(String),
}

/// The mathematical value of a [`Warning`].
pub enum WarningView {
    SkippedHtml,
    IgnoredLinkTitle(Seq<char>),
}

impl View for Warning {
    type V = WarningView;

    open spec fn view(&self) -> WarningView {
        match *self {
            Warning::SkippedHtml => WarningView::SkippedHtml,
            Warning::IgnoredLinkTitle(title) => WarningView::IgnoredLinkTitle(title@),
        }
    }
}

/// The warning that one event gives rise to, if any: an HTML event is
/// skipped, and a link that closes with a title loses it.
pub open spec fn event_warning(event: TokenView) -> Option<WarningView> {
    match event {
        TokenView::Html(_) => Some(WarningView::SkippedHtml),
        TokenView::End(ElementView::Link(_, _, title)) => if title.len() > 0 {
            Some(WarningView::IgnoredLinkTitle(title))
        } else {
            None
        },
        _ => None,
    }
}

/// The warnings of a stream, in the order of the events that cause them.
pub open spec fn warnings_of(events: Seq<TokenView>) -> Seq<WarningView>
    decreases events.len(),
{
    if events.len() == 0 {
        Seq::empty()
    } else {
        match event_warning(events.last()) {
            Some(warning) => warnings_of(events.drop_last()).push(warning),
            None => warnings_of(events.drop_last()),
        }
    }
}

/// What converting `events` leaves out, in document order.
pub fn warnings(events: &Vec<Token>) -> (found: Vec<Warning>)
    ensures
        views(found@) == warnings_of(views(events@)),
{
    let ghost all = views(events@);
    let mut found: Vec<Warning> = Vec::new();
    proof {
        lemma_views_empty(found@);
    }
    let mut i: usize = 0;
    while i < events.len()
        invariant
            i <= events.len(),
            all == views(events@),
            views(found@) == warnings_of(all.take(i as int)),
        decreases events.len() - i,
    {
        proof {
            assert(all.take(i + 1).drop_last() =~= all.take(i as int));
            assert(all.take(i + 1).last() == events@[i as int]@);
        }
        match &events[i] {
            Token::Html(_) => {
                proof {
                    lemma_views_push(found@, Warning::SkippedHtml);
                }
                found.push(Warning::SkippedHtml);
            },
            Token::End(Element::Link(_, _, title)) => {
                if !title.as_str().is_empty() {
                    let warning = Warning::IgnoredLinkTitle(title.clone());
                    proof {
                        lemma_views_push(found@, warning);
                    }
                    found.push(warning);
                }
            },
            _ => {},
        }
        i += 1;
    }
    proof {
        assert(all.take(events.len() as int) =~= all);
    }
    found
}

} // verus!
