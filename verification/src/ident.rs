//! Choosing the identifier of a new card.

use vstd::prelude::*;
use crate::card::{Card, CardView};
use crate::order::{ascending_by_id, lemma_sorted_by_id, sorted_by_id};
use crate::store::{cards_view, distinct_ids, has_id, ids_of};

verus! {

/// The identifier that the first card of an empty collection gets.
pub const FIRST_ID: isize = 1;

/// Whether `v` is the first identifier missing above the smallest one in
/// use: `v` is free, `v - 1` is in use, and the identifiers in use below `v`
/// have no gap among them.
pub open spec fn fills_first_gap(ids: Set<int>, v: int) -> bool {
    &&& !ids.contains(v)
    &&& ids.contains(v - 1)
    &&& forall|low: int, mid: int|
        #![trigger ids.contains(low), ids.contains(mid)]
        ids.contains(low) && low <= mid < v ==> ids.contains(mid)
}

/// The identifier of the next card: the one that fills the first gap above
/// the smallest identifier in use, which is one more than the greatest where
/// there is no gap; [`FIRST_ID`] where no identifier is in use.
pub open spec fn next_id(ids: Set<int>) -> int {
    if exists|v: int| fills_first_gap(ids, v) {
        choose|v: int| fills_first_gap(ids, v)
    } else {
        FIRST_ID as int
    }
}

/// At most one identifier fills the first gap, and it is the next one.
pub proof fn lemma_first_gap_is_next(ids: Set<int>, v: int)
    requires
        fills_first_gap(ids, v),
    ensures
        next_id(ids) == v,
        forall|w: int| fills_first_gap(ids, w) ==> w == v,
{
    assert forall|w: int| fills_first_gap(ids, w) implies w == v by {
        // The smaller of two would be in use, being below the greater and
        // above its own predecessor, which is in use.
        if v < w {
            assert(ids.contains(v - 1) && v - 1 <= v < w ==> ids.contains(v));
        } else if w < v {
            assert(ids.contains(w - 1) && w - 1 <= w < v ==> ids.contains(w));
        }
    }
}

/// Whether the identifiers of the first `n + 1` cards go up by one from card
/// to card.
pub open spec fn run_up_to(cards: Seq<CardView>, n: int) -> bool {
    forall|k: int| 0 <= k <= n ==> (#[trigger] cards[k]).id == cards[0].id + k
}

/// In ascending cards whose identifiers go up by one as far as card `n`, and
/// then stop or jump, the identifier behind card `n`'s fills the first gap.
pub proof fn lemma_gap_behind_run(cards: Seq<CardView>, n: int)
    requires
        ascending_by_id(cards),
        0 <= n < cards.len(),
        run_up_to(cards, n),
        n + 1 < cards.len() ==> cards[n + 1].id > cards[n].id + 1,
    ensures
        fills_first_gap(ids_of(cards), cards[n].id + 1),
{
    let ids = ids_of(cards);
    let v = cards[n].id + 1;
    assert forall|low: int, mid: int|
        #![trigger ids.contains(low), ids.contains(mid)]
        ids.contains(low) && low <= mid < v implies ids.contains(mid) by {
        // `low` is the identifier of a card of the run, and `mid` of the
        // card that stands `mid - low` places behind it.
        let a = choose|a: int| 0 <= a < cards.len() && (#[trigger] cards[a]).id == low;
        if a <= n {
            assert(cards[mid - cards[0].id].id == mid);
        }
    }
}

/// Ascending cards with distinct identifiers have an identifier that fills
/// their first gap, once there is a card at all.
proof fn lemma_gap_exists(cards: Seq<CardView>, n: int) -> (v: int)
    requires
        ascending_by_id(cards),
        distinct_ids(cards),
        0 <= n < cards.len(),
        run_up_to(cards, n),
    ensures
        fills_first_gap(ids_of(cards), v),
    decreases cards.len() - n,
{
    if n + 1 < cards.len() && cards[n + 1].id <= cards[n].id + 1 {
        lemma_gap_exists(cards, n + 1)
    } else {
        lemma_gap_behind_run(cards, n);
        cards[n].id + 1
    }
}

/// The next identifier is free. For an empty collection it is [`FIRST_ID`];
/// otherwise it fills the first gap.
pub proof fn lemma_next_id(cards: Seq<CardView>)
    requires
        distinct_ids(cards),
    ensures
        !has_id(cards, next_id(ids_of(cards))),
        cards.len() == 0 ==> next_id(ids_of(cards)) == FIRST_ID,
        cards.len() > 0 ==> fills_first_gap(ids_of(cards), next_id(ids_of(cards))),
{
    if cards.len() > 0 {
        let sorted = sorted_by_id(cards);
        lemma_sorted_by_id(cards);
        assert(ids_of(sorted) =~= ids_of(cards));
        let v = lemma_gap_exists(sorted, 0);
        lemma_first_gap_is_next(ids_of(cards), v);
    }
}

/// The identifier for a new card beside the given ones, which ascend by
/// identifier: `None` where it would be greater than every `isize`.
pub(crate) fn first_free_id(sorted: &Vec<Card>) -> (r: Option<isize>)
    requires
        ascending_by_id(cards_view(sorted@)),
        distinct_ids(cards_view(sorted@)),
    ensures
        match r {
            Some(id) => id == next_id(ids_of(cards_view(sorted@))),
            None => next_id(ids_of(cards_view(sorted@))) > isize::MAX,
        },
{
    let ghost cards = cards_view(sorted@);
    if sorted.len() == 0 {
        return Some(FIRST_ID);
    }
    let mut n: usize = 0;
    while n + 1 < sorted.len()
        invariant
            n < sorted.len(),
            cards == cards_view(sorted@),
            ascending_by_id(cards),
            distinct_ids(cards),
            run_up_to(cards, n as int),
        decreases sorted.len() - n,
    {
        let here: isize = sorted[n].id;
        let there: isize = sorted[n + 1].id;
        proof {
            assert(cards[n as int].id <= cards[n + 1].id);
        }
        if here + 1 < there {
            proof {
                lemma_gap_behind_run(cards, n as int);
                lemma_first_gap_is_next(ids_of(cards), here + 1);
            }
            return Some(here + 1);
        }
        n += 1;
    }
    let last: isize = sorted[n].id;
    proof {
        lemma_gap_behind_run(cards, n as int);
        lemma_first_gap_is_next(ids_of(cards), last + 1);
    }
    if last == isize::MAX {
        None
    } else {
        Some(last + 1)
    }
}

} // verus!
