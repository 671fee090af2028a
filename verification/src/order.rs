//! Ordering the cards by identifier.

use vstd::prelude::*;
use vstd::seq_lib::{to_multiset_build, to_multiset_insert};
use crate::card::{Card, CardView};
use crate::store::{cards_view, distinct_ids, has_id, lemma_ids_with_last};

verus! {

/// Whether identifiers never decrease along `cards`.
pub open spec fn ascending_by_id(cards: Seq<CardView>) -> bool {
    forall|i: int, j: int|
        0 <= i < j < cards.len() ==> (#[trigger] cards[i]).id <= (#[trigger] cards[j]).id
}

/// Where a card with identifier `id` goes into `cards`: behind the last card
/// whose identifier is not greater, at the front where there is none.
pub open spec fn insertion_point(cards: Seq<CardView>, id: int) -> int
    decreases cards.len(),
{
    if cards.len() == 0 {
        0
    } else if cards.last().id <= id {
        cards.len() as int
    } else {
        insertion_point(cards.drop_last(), id)
    }
}

/// The cards rearranged so that identifiers ascend; cards with equal
/// identifiers keep their order.
pub open spec fn sorted_by_id(cards: Seq<CardView>) -> Seq<CardView>
    decreases cards.len(),
{
    if cards.len() == 0 {
        cards
    } else {
        let front = sorted_by_id(cards.drop_last());
        front.insert(insertion_point(front, cards.last().id), cards.last())
    }
}

/// The insertion point lies behind every card with a smaller or equal
/// identifier that is followed by none greater, and before the cards with a
/// greater one; and it is the only place of which that holds.
pub proof fn lemma_insertion_point(cards: Seq<CardView>, id: int, q: int)
    ensures
        0 <= insertion_point(cards, id) <= cards.len(),
        forall|k: int|
            insertion_point(cards, id) <= k < cards.len() ==> (#[trigger] cards[k]).id > id,
        insertion_point(cards, id) > 0 ==> cards[insertion_point(cards, id) - 1].id <= id,
        ({
            &&& 0 <= q <= cards.len()
            &&& forall|k: int| q <= k < cards.len() ==> (#[trigger] cards[k]).id > id
            &&& q > 0 ==> cards[q - 1].id <= id
        }) ==> q == insertion_point(cards, id),
    decreases cards.len(),
{
    if cards.len() > 0 && cards.last().id > id {
        let front = cards.drop_last();
        lemma_insertion_point(front, id, if q < cards.len() { q } else { 0 });
        assert forall|k: int| insertion_point(cards, id) <= k < cards.len() implies (
        #[trigger] cards[k]).id > id by {
            if k < front.len() {
                assert(front[k].id > id);
            }
        }
    }
}

/// Putting a card in at its insertion point keeps ascending cards ascending
/// and adds just that card.
pub proof fn lemma_insert_keeps_order(cards: Seq<CardView>, card: CardView)
    ensures
        ({
            let grown = cards.insert(insertion_point(cards, card.id), card);
            &&& grown.len() == cards.len() + 1
            &&& grown.to_multiset() == cards.to_multiset().insert(card)
            &&& ascending_by_id(cards) ==> ascending_by_id(grown)
            &&& forall|id: int| has_id(grown, id) <==> has_id(cards, id) || id == card.id
            &&& distinct_ids(cards) && !has_id(cards, card.id) ==> distinct_ids(grown)
        }),
{
    let p = insertion_point(cards, card.id);
    let grown = cards.insert(p, card);
    lemma_insertion_point(cards, card.id, 0);
    to_multiset_insert(cards, p, card);
    assert forall|id: int| has_id(grown, id) <==> has_id(cards, id) || id == card.id by {
        if has_id(cards, id) {
            let a = choose|a: int| 0 <= a < cards.len() && (#[trigger] cards[a]).id == id;
            let i = if a < p { a } else { a + 1 };
            assert(grown[i].id == id);
        }
        if id == card.id {
            assert(grown[p].id == id);
        }
    }
}

/// Sorting rearranges: the result ascends by identifier and holds exactly
/// the cards it was given, each as often; so it has the same length and the
/// same identifiers, and distinct identifiers stay distinct.
pub proof fn lemma_sorted_by_id(cards: Seq<CardView>)
    ensures
        ascending_by_id(sorted_by_id(cards)),
        sorted_by_id(cards).to_multiset() == cards.to_multiset(),
        sorted_by_id(cards).len() == cards.len(),
        forall|id: int| has_id(sorted_by_id(cards), id) <==> has_id(cards, id),
        distinct_ids(cards) ==> distinct_ids(sorted_by_id(cards)),
    decreases cards.len(),
{
    if cards.len() > 0 {
        let init = cards.drop_last();
        let front = sorted_by_id(init);
        lemma_sorted_by_id(init);
        lemma_insert_keeps_order(front, cards.last());
        to_multiset_build(init, cards.last());
        assert(init.push(cards.last()) =~= cards);
        lemma_ids_with_last(cards);
    }
}

/// Cards that ascend already are left as they are.
pub proof fn lemma_sorted_is_fixed(cards: Seq<CardView>)
    requires
        ascending_by_id(cards),
    ensures
        sorted_by_id(cards) == cards,
    decreases cards.len(),
{
    if cards.len() > 0 {
        let init = cards.drop_last();
        lemma_sorted_is_fixed(init);
    }
}

/// The place in `sorted` at which a card with identifier `id` is put in.
fn insertion_index(sorted: &Vec<Card>, id: isize) -> (p: usize)
    ensures
        p <= sorted.len(),
        p == insertion_point(cards_view(sorted@), id as int),
{
    let mut p: usize = sorted.len();
    while p > 0 && sorted[p - 1].id > id
        invariant
            p <= sorted.len(),
            forall|k: int| p <= k < sorted.len() ==> (#[trigger] cards_view(sorted@)[k]).id > id,
        decreases p,
    {
        p -= 1;
    }
    proof {
        lemma_insertion_point(cards_view(sorted@), id as int, p as int);
    }
    p
}

/// Sorts the cards by identifier, ascending and stably.
pub fn sort_cards(cards: Vec<Card>) -> (sorted: Vec<Card>)
    ensures
        cards_view(sorted@) == sorted_by_id(cards_view(cards@)),
        ascending_by_id(cards_view(sorted@)),
        cards_view(sorted@).to_multiset() == cards_view(cards@).to_multiset(),
{
    let ghost given = cards_view(cards@);
    let mut rest = cards;
    let mut sorted: Vec<Card> = Vec::new();
    let ghost mut done: int = 0;
    while rest.len() > 0
        invariant
            0 <= done <= given.len(),
            rest.len() == given.len() - done,
            sorted.len() == done,
            cards_view(rest@) == given.skip(done),
            cards_view(sorted@) == sorted_by_id(given.take(done)),
        decreases rest.len(),
    {
        let ghost before = rest@;
        let card = rest.remove(0);
        let p = insertion_index(&sorted, card.id);
        proof {
            assert(card@ == cards_view(before)[0]);
            assert(given.take(done + 1).drop_last() =~= given.take(done));
            assert(cards_view(rest@) =~= given.skip(done + 1)) by {
                assert forall|k: int| 0 <= k < rest@.len() implies cards_view(rest@)[k]
                    == given.skip(done + 1)[k] by {
                    assert(cards_view(before)[k + 1] == given.skip(done)[k + 1]);
                }
            }
            done = done + 1;
        }
        sorted.insert(p, card);
    }
    proof {
        assert(given.take(done) =~= given);
        lemma_sorted_by_id(given);
    }
    sorted
}

} // verus!
