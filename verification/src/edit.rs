//! Changing one card of the store: its link, its texts, its rectangle.

use vstd::prelude::*;
use crate::card::CardView;
use crate::geometry::Rect;
use crate::store::{cards_view, distinct_ids, has_id, position_of, CardStore};

verus! {

/// The card with identifier `id`, where there is one.
pub open spec fn card_of(cards: Seq<CardView>, id: int) -> CardView {
    cards[position_of(cards, id)]
}

/// The cards with `card` in the place of the card with identifier `id`;
/// unchanged where no card has that identifier.
pub open spec fn replaced(cards: Seq<CardView>, id: int, card: CardView) -> Seq<CardView> {
    if has_id(cards, id) {
        cards.update(position_of(cards, id), card)
    } else {
        cards
    }
}

/// The cards after card `child` was linked to card `target`: `child` names
/// `target` as its parent. Linking a card to itself leaves it without
/// parent. Unchanged unless both are cards of the collection.
pub open spec fn linked(cards: Seq<CardView>, child: int, target: int) -> Seq<CardView> {
    if has_id(cards, child) && has_id(cards, target) {
        replaced(cards, child, CardView { parent: target, ..card_of(cards, child) })
    } else {
        cards
    }
}

/// The cards after the editing mode of card `id` was flipped.
pub open spec fn toggled(cards: Seq<CardView>, id: int) -> Seq<CardView> {
    replaced(cards, id, CardView { editing: !card_of(cards, id).editing, ..card_of(cards, id) })
}

/// Whether the texts of card `id` can be changed: it is a card of the
/// collection and is being edited.
pub open spec fn editable(cards: Seq<CardView>, id: int) -> bool {
    has_id(cards, id) && card_of(cards, id).editing
}

/// The cards after card `id`, which is being edited, got the title `title`.
pub open spec fn retitled(cards: Seq<CardView>, id: int, title: Seq<char>) -> Seq<CardView> {
    if editable(cards, id) {
        replaced(cards, id, CardView { title, ..card_of(cards, id) })
    } else {
        cards
    }
}

/// The cards after card `id`, which is being edited, got the description
/// `description`.
pub open spec fn described(cards: Seq<CardView>, id: int, description: Seq<char>) -> Seq<
    CardView,
> {
    if editable(cards, id) {
        replaced(cards, id, CardView { description, ..card_of(cards, id) })
    } else {
        cards
    }
}

/// The cards after the toolkit reported `rect` for the window of card `id`.
pub open spec fn placed(cards: Seq<CardView>, id: int, rect: Rect) -> Seq<CardView> {
    replaced(cards, id, CardView { rect, ..card_of(cards, id) })
}

/// The cards after card `id` was marked collapsed or not.
pub open spec fn folded(cards: Seq<CardView>, id: int, collapsed: bool) -> Seq<CardView> {
    replaced(cards, id, CardView { collapsed, ..card_of(cards, id) })
}

impl CardStore {
    /// Makes card `target` the parent of card `child`; with `target` equal
    /// to `child`, the card is left without parent. Does nothing unless both
    /// are cards of the store, and says whether it did anything.
    pub fn link(&mut self, child: isize, target: isize) -> (done: bool)
        ensures
            distinct_ids(final(self)@),
            done == (has_id(old(self)@, child as int) && has_id(old(self)@, target as int)),
            final(self)@ == linked(old(self)@, child as int, target as int),
    {
        if !self.contains(target) {
            return false;
        }
        match self.position(child) {
            Some(i) => {
                let ghost before = self@;
                let mut cards = self.take_cards();
                cards[i].parent = target;
                proof {
                    assert(cards_view(cards@) =~= linked(before, child as int, target as int));
                }
                self.put_cards(cards);
                true
            },
            None => false,
        }
    }

    /// Flips the editing mode of card `id`. Says whether there is such a
    /// card.
    pub fn toggle_editing(&mut self, id: isize) -> (done: bool)
        ensures
            distinct_ids(final(self)@),
            done == has_id(old(self)@, id as int),
            final(self)@ == toggled(old(self)@, id as int),
    {
        match self.position(id) {
            Some(i) => {
                let ghost before = self@;
                let mut cards = self.take_cards();
                let editing = cards[i].editing;
                cards[i].editing = !editing;
                proof {
                    assert(cards_view(cards@) =~= toggled(before, id as int));
                }
                self.put_cards(cards);
                true
            },
            None => false,
        }
    }

    /// Gives card `id` the title `title`, if the card is being edited. Says
    /// whether it was.
    pub fn set_title(&mut self, id: isize, title: String) -> (done: bool)
        ensures
            distinct_ids(final(self)@),
            done == editable(old(self)@, id as int),
            final(self)@ == retitled(old(self)@, id as int, title@),
    {
        match self.position(id) {
            Some(i) => {
                let ghost before = self@;
                let ghost text = title@;
                let mut cards = self.take_cards();
                if !cards[i].editing {
                    self.put_cards(cards);
                    return false;
                }
                cards[i].title = title;
                proof {
                    assert(cards_view(cards@) =~= retitled(before, id as int, text));
                }
                self.put_cards(cards);
                true
            },
            None => false,
        }
    }

    /// Gives card `id` the description `description`, if the card is being
    /// edited. Says whether it was.
    pub fn set_description(&mut self, id: isize, description: String) -> (done: bool)
        ensures
            distinct_ids(final(self)@),
            done == editable(old(self)@, id as int),
            final(self)@ == described(old(self)@, id as int, description@),
    {
        match self.position(id) {
            Some(i) => {
                let ghost before = self@;
                let ghost text = description@;
                let mut cards = self.take_cards();
                if !cards[i].editing {
                    self.put_cards(cards);
                    return false;
                }
                cards[i].description = description;
                proof {
                    assert(cards_view(cards@) =~= described(before, id as int, text));
                }
                self.put_cards(cards);
                true
            },
            None => false,
        }
    }

    /// Records `rect` as the rectangle of card `id`. Says whether there is
    /// such a card.
    pub fn set_rect(&mut self, id: isize, rect: Rect) -> (done: bool)
        ensures
            distinct_ids(final(self)@),
            done == has_id(old(self)@, id as int),
            final(self)@ == placed(old(self)@, id as int, rect),
    {
        match self.position(id) {
            Some(i) => {
                let ghost before = self@;
                let mut cards = self.take_cards();
                cards[i].rect = rect;
                proof {
                    assert(cards_view(cards@) =~= placed(before, id as int, rect));
                }
                self.put_cards(cards);
                true
            },
            None => false,
        }
    }

    /// Marks card `id` as collapsed or not. Says whether there is such a
    /// card.
    pub fn set_collapsed(&mut self, id: isize, collapsed: bool) -> (done: bool)
        ensures
            distinct_ids(final(self)@),
            done == has_id(old(self)@, id as int),
            final(self)@ == folded(old(self)@, id as int, collapsed),
    {
        match self.position(id) {
            Some(i) => {
                let ghost before = self@;
                let mut cards = self.take_cards();
                cards[i].collapsed = collapsed;
                proof {
                    assert(cards_view(cards@) =~= folded(before, id as int, collapsed));
                }
                self.put_cards(cards);
                true
            },
            None => false,
        }
    }
}

} // verus!
