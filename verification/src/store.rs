//! The ordered collection of cards, with pairwise distinct identifiers.

use vstd::prelude::*;
use crate::card::{Card, CardView};

verus! {

/// The values of a sequence of cards, in the same order.
pub open spec fn cards_view(cards: Seq<Card>) -> Seq<CardView> {
    cards.map_values(|c: Card| c@)
}

/// Whether some card in `cards` has the identifier `id`.
pub open spec fn has_id(cards: Seq<CardView>, id: int) -> bool {
    exists|i: int| 0 <= i < cards.len() && (#[trigger] cards[i]).id == id
}

/// Whether no two cards in `cards` share an identifier.
pub open spec fn distinct_ids(cards: Seq<CardView>) -> bool {
    forall|i: int, j: int|
        0 <= i < j < cards.len() ==> (#[trigger] cards[i]).id != (#[trigger] cards[j]).id
}

/// The identifiers in use.
pub open spec fn ids_of(cards: Seq<CardView>) -> Set<int> {
    Set::new(|id: int| has_id(cards, id))
}

/// The place of the card with identifier `id`, where there is one.
pub open spec fn position_of(cards: Seq<CardView>, id: int) -> int {
    choose|i: int| 0 <= i < cards.len() && (#[trigger] cards[i]).id == id
}

/// With distinct identifiers, a card's identifier gives its place.
pub proof fn lemma_position_of(cards: Seq<CardView>, i: int)
    requires
        distinct_ids(cards),
        0 <= i < cards.len(),
    ensures
        has_id(cards, cards[i].id),
        position_of(cards, cards[i].id) == i,
{
}

/// The last card adds its identifier to those of the cards before it, and
/// the identifiers are distinct exactly if they are distinct before it and
/// none of them is the last card's.
pub proof fn lemma_ids_with_last(cards: Seq<CardView>)
    requires
        cards.len() > 0,
    ensures
        forall|id: int|
            has_id(cards, id) <==> has_id(cards.drop_last(), id) || id == cards.last().id,
        distinct_ids(cards) <==> distinct_ids(cards.drop_last()) && !has_id(
            cards.drop_last(),
            cards.last().id,
        ),
{
    let init = cards.drop_last();
    let n = cards.len() - 1;
    assert forall|id: int| has_id(cards, id) <==> has_id(init, id) || id == cards.last().id by {
        if has_id(cards, id) {
            let i = choose|i: int| 0 <= i < cards.len() && (#[trigger] cards[i]).id == id;
            if i < n {
                assert(init[i].id == id);
            }
        }
    }
    if distinct_ids(init) && !has_id(init, cards.last().id) {
        assert forall|i: int, j: int| 0 <= i < j < cards.len() implies (#[trigger] cards[i]).id != (
        #[trigger] cards[j]).id by {
            if j < n {
                assert(init[i].id != init[j].id);
            } else {
                assert(init[i].id == cards[i].id);
            }
        }
    }
}

/// Cards picked out of cards with distinct identifiers have distinct
/// identifiers, and each of them is one of the cards.
pub proof fn lemma_filter_keeps_distinct(cards: Seq<CardView>, keep: spec_fn(CardView) -> bool)
    requires
        distinct_ids(cards),
    ensures
        distinct_ids(cards.filter(keep)),
        forall|id: int| has_id(cards.filter(keep), id) ==> has_id(cards, id),
    decreases cards.len(),
{
    reveal(Seq::filter);
    if cards.len() > 0 {
        let init = cards.drop_last();
        lemma_ids_with_last(cards);
        lemma_filter_keeps_distinct(init, keep);
    }
}

/// Why an insertion was refused.
#[derive(Clone, Copy, Debug, PartialEq, Eq, Structural)]
pub enum StoreError {
    /// A card with this identifier is in the store already.
    DuplicateId(isize),
}

/// The cards of a mind-map, in insertion order.
pub struct CardStore {
    cards: Vec<Card>,
}

impl View for CardStore {
    type V = Seq<CardView>;

    closed spec fn view(&self) -> Seq<CardView> {
        cards_view(self.cards@)
    }
}

impl CardStore {
    #[verifier::type_invariant]
    spec fn ids_are_distinct(&self) -> bool {
        distinct_ids(cards_view(self.cards@))
    }

    /// A store without cards.
    pub fn new() -> (s: CardStore)
        ensures
            s@ == Seq::<CardView>::empty(),
    {
        CardStore { cards: Vec::new() }
    }

    /// Moves the cards out and leaves the store empty.
    pub(crate) fn take_cards(&mut self) -> (cards: Vec<Card>)
        ensures
            cards_view(cards@) == old(self)@,
            distinct_ids(cards_view(cards@)),
            final(self)@ == Seq::<CardView>::empty(),
    {
        proof {
            use_type_invariant(&*self);
        }
        let mut cards: Vec<Card> = Vec::new();
        core::mem::swap(&mut cards, &mut self.cards);
        cards
    }

    /// Makes `cards` the cards of the store.
    pub(crate) fn put_cards(&mut self, cards: Vec<Card>)
        requires
            distinct_ids(cards_view(cards@)),
        ensures
            final(self)@ == cards_view(cards@),
            distinct_ids(final(self)@),
    {
        self.cards = cards;
    }

    /// The number of cards.
    pub fn len(&self) -> (n: usize)
        ensures
            n == self@.len(),
    {
        self.cards.len()
    }

    /// Whether the store holds no card.
    pub fn is_empty(&self) -> (b: bool)
        ensures
            b == (self@.len() == 0),
    {
        self.cards.len() == 0
    }

    /// The cards in order. No two of them share an identifier.
    pub fn all(&self) -> (cards: &Vec<Card>)
        ensures
            cards_view(cards@) == self@,
            distinct_ids(self@),
    {
        proof {
            use_type_invariant(self);
        }
        &self.cards
    }

    /// The place of the card with identifier `id`, or `None` where no card
    /// has it.
    pub fn position(&self, id: isize) -> (p: Option<usize>)
        ensures
            distinct_ids(self@),
            match p {
                Some(i) => i < self@.len() && self@[i as int].id == id && i == position_of(
                    self@,
                    id as int,
                ),
                None => !has_id(self@, id as int),
            },
    {
        proof {
            use_type_invariant(self);
        }
        let mut i: usize = 0;
        while i < self.cards.len()
            invariant
                i <= self.cards.len(),
                distinct_ids(self@),
                forall|k: int| 0 <= k < i ==> (#[trigger] self@[k]).id != id,
            decreases self.cards.len() - i,
        {
            if self.cards[i].id == id {
                proof {
                    lemma_position_of(self@, i as int);
                }
                return Some(i);
            }
            i += 1;
        }
        None
    }

    /// The card with identifier `id`, or `None` where no card has it.
    pub fn find(&self, id: isize) -> (found: Option<&Card>)
        ensures
            match found {
                Some(c) => has_id(self@, id as int) && c@ == self@[position_of(self@, id as int)],
                None => !has_id(self@, id as int),
            },
    {
        match self.position(id) {
            Some(i) => Some(&self.cards[i]),
            None => None,
        }
    }

    /// Whether a card has the identifier `id`.
    pub fn contains(&self, id: isize) -> (b: bool)
        ensures
            distinct_ids(self@),
            b == has_id(self@, id as int),
    {
        self.position(id).is_some()
    }

    /// Appends `card`, unless its identifier is taken: then the store stays
    /// as it is and the card is dropped.
    pub fn insert(&mut self, card: Card) -> (r: Result<(), StoreError>)
        ensures
            distinct_ids(final(self)@),
            match r {
                Ok(()) => !has_id(old(self)@, card.id as int) && final(self)@ == old(self)@.push(
                    card@,
                ),
                Err(StoreError::DuplicateId(id)) => id == card.id && has_id(
                    old(self)@,
                    card.id as int,
                ) && final(self)@ == old(self)@,
            },
    {
        if self.contains(card.id) {
            return Err(StoreError::DuplicateId(card.id));
        }
        let ghost before = self@;
        let ghost added = card@;
        let mut cards = self.take_cards();
        cards.push(card);
        proof {
            assert(cards_view(cards@) =~= before.push(added));
        }
        self.put_cards(cards);
        Ok(())
    }

    /// Removes the card with identifier `id` and returns it; other cards stay
    /// as they are, whatever parent they name. `None` where no card has the
    /// identifier.
    pub fn remove(&mut self, id: isize) -> (removed: Option<Card>)
        ensures
            distinct_ids(final(self)@),
            match removed {
                Some(c) => has_id(old(self)@, id as int) && c@ == old(self)@[position_of(
                    old(self)@,
                    id as int,
                )] && final(self)@ == old(self)@.remove(position_of(old(self)@, id as int)),
                None => !has_id(old(self)@, id as int) && final(self)@ == old(self)@,
            },
    {
        match self.position(id) {
            Some(i) => {
                let ghost before = self@;
                let mut cards = self.take_cards();
                let c = cards.remove(i);
                proof {
                    assert(cards_view(cards@) =~= before.remove(i as int));
                }
                self.put_cards(cards);
                Some(c)
            },
            None => None,
        }
    }
}

} // verus!
