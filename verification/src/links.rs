//! The connecting lines between cards and their parents.

use vstd::prelude::*;
use crate::card::{Card, CardView};
use crate::edit::card_of;
use crate::geometry::Rect;
use crate::store::{cards_view, distinct_ids, has_id, lemma_filter_keeps_distinct, CardStore};

verus! {

/// One connecting line: from the rectangle of a card to the rectangle of the
/// card it names as parent. The line itself runs between the centres of the
/// two rectangles.
#[derive(Clone, Copy, Debug, PartialEq, Eq)]
pub struct Segment {
    pub child: isize,
    pub parent: isize,
    pub from: Rect,
    pub to: Rect,
}

/// The mathematical value of a [`Segment`].
pub struct SegmentView {
    pub child: int,
    pub parent: int,
    pub from: Rect,
    pub to: Rect,
}

impl View for Segment {
    type V = SegmentView;

    open spec fn view(&self) -> SegmentView {
        SegmentView {
            child: self.child as int,
            parent: self.parent as int,
            from: self.from,
            to: self.to,
        }
    }
}

/// The values of a sequence of segments, in the same order.
pub open spec fn segments_view(segments: Seq<Segment>) -> Seq<SegmentView> {
    segments.map_values(|s: Segment| s@)
}

/// Whether a line is drawn for `card`: it names a parent other than itself,
/// and that parent is among `cards`.
pub open spec fn draws(cards: Seq<CardView>, card: CardView) -> bool {
    !card.is_root() && has_id(cards, card.parent)
}

/// The line drawn for `card`.
pub open spec fn segment_of(cards: Seq<CardView>, card: CardView) -> SegmentView {
    SegmentView {
        child: card.id,
        parent: card.parent,
        from: card.rect,
        to: card_of(cards, card.parent).rect,
    }
}

/// The lines to draw: one for each card that draws one, in the order of the
/// cards.
pub open spec fn connectors(cards: Seq<CardView>) -> Seq<SegmentView> {
    cards.filter(|c: CardView| draws(cards, c)).map_values(|c: CardView| segment_of(cards, c))
}

impl CardStore {
    /// The lines to draw between the cards as they stand now.
    ///
    /// A card that names no parent but itself gets none, and neither does
    /// one whose parent is not in the store.
    pub fn connectors(&self) -> (segments: Vec<Segment>)
        ensures
            segments_view(segments@) == connectors(self@),
    {
        let cards: &Vec<Card> = self.all();
        let ghost all = self@;
        let ghost linked = |c: CardView| draws(all, c);
        let ghost line = |c: CardView| segment_of(all, c);
        let mut segments: Vec<Segment> = Vec::new();
        let mut i: usize = 0;
        while i < cards.len()
            invariant
                i <= cards.len(),
                all == self@,
                all == cards_view(cards@),
                distinct_ids(all),
                linked == (|c: CardView| draws(all, c)),
                line == (|c: CardView| segment_of(all, c)),
                segments_view(segments@) == all.take(i as int).filter(linked).map_values(line),
            decreases cards.len() - i,
        {
            let card = &cards[i];
            let ghost upto = all.take(i as int);
            let ghost next = all.take(i as int + 1);
            proof {
                assert(next.drop_last() =~= upto);
                reveal_with_fuel(Seq::filter, 1);
            }
            if card.parent != card.id {
                match self.find(card.parent) {
                    Some(parent) => {
                        let segment = Segment {
                            child: card.id,
                            parent: card.parent,
                            from: card.rect,
                            to: parent.rect,
                        };
                        proof {
                            let drawn = upto.filter(linked);
                            let grown = segments_view(segments@.push(segment));
                            assert(segments_view(segments@).len() == drawn.len());
                            assert forall|k: int| 0 <= k < grown.len() implies grown[k]
                                == drawn.push(card@).map_values(line)[k] by {
                                if k < drawn.len() {
                                    assert(grown[k] == segments_view(segments@)[k]);
                                }
                            }
                        }
                        segments.push(segment);
                    },
                    None => {},
                }
            }
            i += 1;
        }
        proof {
            assert(all.take(i as int) =~= all);
        }
        segments
    }
}

/// Every line belongs to a card that draws one: the card is not its own
/// parent, its parent is among the cards, and the line runs from the card's
/// rectangle to the parent's.
pub proof fn lemma_connector_is_link(cards: Seq<CardView>, k: int)
    requires
        0 <= k < connectors(cards).len(),
    ensures
        has_id(cards, connectors(cards)[k].child),
        has_id(cards, connectors(cards)[k].parent),
        connectors(cards)[k].child != connectors(cards)[k].parent,
        distinct_ids(cards) ==> connectors(cards)[k] == segment_of(
            cards,
            card_of(cards, connectors(cards)[k].child),
        ) && draws(cards, card_of(cards, connectors(cards)[k].child)),
{
    let linked = |c: CardView| draws(cards, c);
    let drawn = cards.filter(linked);
    let card = drawn[k];
    cards.lemma_filter_contains_rev(linked, card);
}

/// A card draws at most one line, and draws one exactly if it names a
/// parent other than itself that is among the cards. So neither a card
/// without parent nor one whose parent is missing has a line.
pub proof fn lemma_connectors_of_card(cards: Seq<CardView>, i: int)
    requires
        distinct_ids(cards),
        0 <= i < cards.len(),
    ensures
        draws(cards, cards[i]) <==> exists|k: int|
            0 <= k < connectors(cards).len() && (#[trigger] connectors(cards)[k]).child
                == cards[i].id,
        forall|k: int, l: int|
            0 <= k < l < connectors(cards).len() && (#[trigger] connectors(cards)[k]).child
                == cards[i].id ==> (#[trigger] connectors(cards)[l]).child != cards[i].id,
        cards[i].is_root() || !has_id(cards, cards[i].parent) ==> forall|k: int|
            0 <= k < connectors(cards).len() ==> (#[trigger] connectors(cards)[k]).child
                != cards[i].id,
{
    let linked = |c: CardView| draws(cards, c);
    let drawn = cards.filter(linked);
    let lines = connectors(cards);
    if draws(cards, cards[i]) {
        cards.lemma_filter_contains(linked, i);
        let k = choose|k: int| 0 <= k < drawn.len() && drawn[k] == cards[i];
        assert(lines[k].child == cards[i].id);
    }
    if exists|k: int| 0 <= k < lines.len() && (#[trigger] lines[k]).child == cards[i].id {
        let k = choose|k: int| 0 <= k < lines.len() && (#[trigger] lines[k]).child == cards[i].id;
        lemma_connector_is_link(cards, k);
    }
    lemma_filter_keeps_distinct(cards, linked);
}

} // verus!
