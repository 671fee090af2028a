//! Creating and deleting cards.

use vstd::prelude::*;
use crate::card::{Card, CardView};
use crate::ident::{
    first_free_id, lemma_first_gap_is_next, lemma_gap_behind_run, lemma_next_id, next_id,
};
use crate::order::{lemma_sorted_by_id, lemma_sorted_is_fixed, sort_cards, sorted_by_id};
use crate::picking::{lemma_filter_all, lemma_filter_from};
use crate::store::{
    cards_view, distinct_ids, has_id, ids_of, lemma_filter_keeps_distinct, lemma_position_of,
    position_of, CardStore,
};

verus! {

/// What goes with a card when it is deleted.
#[derive(Clone, Copy, Debug, PartialEq, Eq, Structural)]
pub enum DeletePolicy {
    /// The card alone. Cards that name it as parent keep doing so.
    CardOnly,
    /// The card and every card that names it as parent, but not the cards
    /// that name one of those.
    WithChildren,
}

/// The cards after a card with the title `title` was created: the cards
/// before, sorted by identifier, and behind them the new card, which has the
/// next identifier.
pub open spec fn created(cards: Seq<CardView>, title: Seq<char>) -> Seq<CardView> {
    sorted_by_id(cards).push(CardView::fresh(next_id(ids_of(cards)), title))
}

/// Whether `card` stays when the card with identifier `id` is deleted.
pub open spec fn survives(card: CardView, id: int, policy: DeletePolicy) -> bool {
    card.id != id && (policy == DeletePolicy::WithChildren ==> card.parent != id)
}

/// The cards after the card with identifier `id` was deleted: those that
/// survive, in their order. Unchanged where no card has that identifier.
pub open spec fn deleted(cards: Seq<CardView>, id: int, policy: DeletePolicy) -> Seq<CardView> {
    if has_id(cards, id) {
        cards.filter(|c: CardView| survives(c, id, policy))
    } else {
        cards
    }
}

/// Deleting keeps distinct identifiers distinct, brings no identifier in,
/// and leaves no card with the deleted identifier.
pub proof fn lemma_deleted(cards: Seq<CardView>, id: int, policy: DeletePolicy)
    requires
        distinct_ids(cards),
    ensures
        distinct_ids(deleted(cards, id, policy)),
        forall|other: int| has_id(deleted(cards, id, policy), other) ==> has_id(cards, other),
        !has_id(deleted(cards, id, policy), id),
{
    let keep = |c: CardView| survives(c, id, policy);
    lemma_filter_keeps_distinct(cards, keep);
}

impl CardStore {
    /// Sorts the cards by identifier, ascending.
    pub fn sort_by_id(&mut self)
        ensures
            distinct_ids(final(self)@),
            final(self)@ == sorted_by_id(old(self)@),
    {
        let cards = self.take_cards();
        let sorted = sort_cards(cards);
        proof {
            lemma_sorted_by_id(old(self)@);
        }
        self.put_cards(sorted);
    }

    /// Creates a card with the title `title` and returns its identifier.
    ///
    /// The cards are sorted by identifier first. The new card gets the first
    /// identifier missing above the smallest one in use, and stands last.
    /// Where that identifier would be greater than every `isize`, no card is
    /// created and `None` is returned; the cards are sorted all the same.
    pub fn create(&mut self, title: String) -> (r: Option<isize>)
        ensures
            distinct_ids(final(self)@),
            match r {
                Some(id) => id == next_id(ids_of(old(self)@)) && final(self)@ == created(
                    old(self)@,
                    title@,
                ),
                None => next_id(ids_of(old(self)@)) > isize::MAX && final(self)@ == sorted_by_id(
                    old(self)@,
                ),
            },
    {
        let ghost before = self@;
        let cards = self.take_cards();
        let mut sorted = sort_cards(cards);
        proof {
            lemma_sorted_by_id(before);
            assert(ids_of(sorted_by_id(before)) =~= ids_of(before));
        }
        match first_free_id(&sorted) {
            Some(id) => {
                let mut card = Card::new(id);
                card.title = title;
                proof {
                    lemma_next_id(sorted_by_id(before));
                    assert(cards_view(sorted@.push(card)) =~= created(before, title@));
                }
                sorted.push(card);
                self.put_cards(sorted);
                Some(id)
            },
            None => {
                self.put_cards(sorted);
                None
            },
        }
    }

    /// Deletes the card with identifier `id`, alone or with the cards that
    /// name it as parent, as `policy` says. Returns how many cards went.
    pub fn delete(&mut self, id: isize, policy: DeletePolicy) -> (gone: usize)
        ensures
            distinct_ids(final(self)@),
            final(self)@ == deleted(old(self)@, id as int, policy),
            gone == old(self)@.len() - final(self)@.len(),
    {
        if !self.contains(id) {
            return 0;
        }
        let ghost before = self@;
        let ghost keep = |c: CardView| survives(c, id as int, policy);
        let mut cards = self.take_cards();
        let mut gone: usize = 0;
        let mut i: usize = cards.len();
        while i > 0
            invariant
                i <= before.len(),
                i <= cards.len(),
                before.len() <= usize::MAX,
                cards.len() + gone == before.len(),
                keep == (|c: CardView| survives(c, id as int, policy)),
                cards_view(cards@) == before.take(i as int) + before.skip(i as int).filter(keep),
            decreases i,
        {
            i -= 1;
            let ghost prior = cards@;
            let ghost tail = before.skip(i as int + 1).filter(keep);
            proof {
                assert(cards_view(prior)[i as int] == before.take(i as int + 1)[i as int]);
                lemma_filter_from(before, i as int, keep);
            }
            let stays = cards[i].id != id && (policy == DeletePolicy::CardOnly || cards[i].parent
                != id);
            if !stays {
                let _ = cards.remove(i);
                gone += 1;
            }
            proof {
                if !stays {
                    assert(cards_view(prior.remove(i as int)) =~= cards_view(prior).remove(
                        i as int,
                    ));
                }
            }
        }
        proof {
            lemma_filter_keeps_distinct(before, keep);
        }
        self.put_cards(cards);
        gone
    }
}

/// Creating a card adds one card, whose identifier was free, so distinct
/// identifiers stay distinct; and every card from before is still there.
pub proof fn lemma_created(cards: Seq<CardView>, title: Seq<char>)
    requires
        distinct_ids(cards),
    ensures
        created(cards, title).len() == cards.len() + 1,
        distinct_ids(created(cards, title)),
        !has_id(cards, created(cards, title).last().id),
        created(cards, title).drop_last().to_multiset() == cards.to_multiset(),
{
    let sorted = sorted_by_id(cards);
    let after = created(cards, title);
    lemma_sorted_by_id(cards);
    lemma_next_id(cards);
    assert(after.drop_last() =~= sorted);
}

/// The cards after one card was created for each of `titles`, in turn.
pub open spec fn created_all(cards: Seq<CardView>, titles: Seq<Seq<char>>) -> Seq<CardView>
    decreases titles.len(),
{
    if titles.len() == 0 {
        cards
    } else {
        created(created_all(cards, titles.drop_last()), titles.last())
    }
}

/// However many cards are created in a row, without a deletion between
/// them, no two cards share an identifier afterwards, and each creation has
/// added one card.
pub proof fn lemma_creations_keep_ids_distinct(cards: Seq<CardView>, titles: Seq<Seq<char>>)
    requires
        distinct_ids(cards),
    ensures
        distinct_ids(created_all(cards, titles)),
        created_all(cards, titles).len() == cards.len() + titles.len(),
    decreases titles.len(),
{
    if titles.len() > 0 {
        lemma_creations_keep_ids_distinct(cards, titles.drop_last());
        lemma_created(created_all(cards, titles.drop_last()), titles.last());
    }
}

/// Cards created in a row in an empty collection get the identifiers 1, 2,
/// 3 and so on, and stand in the order of their creation.
pub proof fn lemma_creations_from_empty(titles: Seq<Seq<char>>)
    ensures
        created_all(Seq::empty(), titles).len() == titles.len(),
        forall|k: int|
            0 <= k < titles.len() ==> #[trigger] created_all(Seq::empty(), titles)[k]
                == CardView::fresh(k + 1, titles[k]),
    decreases titles.len(),
{
    if titles.len() > 0 {
        let init = titles.drop_last();
        let cards = created_all(Seq::empty(), init);
        lemma_creations_from_empty(init);
        // The cards so far ascend, so sorting leaves them, and their
        // identifiers run from 1 without a gap.
        lemma_sorted_is_fixed(cards);
        if cards.len() > 0 {
            let n = cards.len() - 1;
            lemma_gap_behind_run(cards, n);
            lemma_first_gap_is_next(ids_of(cards), cards[n].id + 1);
        }
    }
}

/// Deleting a card alone takes that card out and leaves the others where
/// they are, whatever parent they name.
pub proof fn lemma_delete_card_only(cards: Seq<CardView>, id: int)
    requires
        distinct_ids(cards),
        has_id(cards, id),
    ensures
        deleted(cards, id, DeletePolicy::CardOnly) == cards.remove(position_of(cards, id)),
    decreases cards.len(),
{
    reveal(Seq::filter);
    let keep = |c: CardView| survives(c, id, DeletePolicy::CardOnly);
    let p = position_of(cards, id);
    let init = cards.drop_last();
    if p == cards.len() - 1 {
        lemma_filter_all(init, keep);
    } else {
        lemma_position_of(init, p);
        lemma_delete_card_only(init, id);
    }
}

/// Deleting a card with its children takes out that card and every card
/// that names it as parent, in the same pass, and no other card: a card
/// stays exactly if it is neither. So a card that names a child as parent
/// stays, though the child goes.
pub proof fn lemma_delete_with_children(cards: Seq<CardView>, id: int, i: int)
    requires
        has_id(cards, id),
        0 <= i < cards.len(),
    ensures
        deleted(cards, id, DeletePolicy::WithChildren).contains(cards[i]) <==> cards[i].id != id
            && cards[i].parent != id,
        forall|k: int|
            0 <= k < cards.len() && cards[k].id != id && cards[k].parent == id && cards[i].id
                != id && cards[i].parent == (#[trigger] cards[k]).id ==> deleted(
                cards,
                id,
                DeletePolicy::WithChildren,
            ).contains(cards[i]) && !deleted(cards, id, DeletePolicy::WithChildren).contains(
                cards[k],
            ),
{
}

} // verus!
