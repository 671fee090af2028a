//! The cards as they are written to a file and read back.

use vstd::prelude::*;
use crate::card::{Card, CardRecord, CardView, RecordView};
use crate::store::{cards_view, distinct_ids, CardStore, StoreError};

verus! {

/// Why records could not be taken as the cards of a store.
#[derive(Clone, Copy, Debug, PartialEq, Eq, Structural)]
pub enum LoadError {
    /// Two records have this identifier.
    DuplicateId(isize),
}

/// The values of a sequence of records, in the same order.
pub open spec fn records_view(records: Seq<CardRecord>) -> Seq<RecordView> {
    records.map_values(|r: CardRecord| r@)
}

/// What is written for `cards`: the record of each card, in order.
pub open spec fn snapshot(cards: Seq<CardView>) -> Seq<RecordView> {
    cards.map_values(|c: CardView| c.record())
}

/// The cards that `records` are read back as, in order.
pub open spec fn restored(records: Seq<RecordView>) -> Seq<CardView> {
    records.map_values(|r: RecordView| r.card())
}

/// The cards with editing switched off in each.
pub open spec fn all_at_rest(cards: Seq<CardView>) -> Seq<CardView> {
    cards.map_values(|c: CardView| c.at_rest())
}

/// Whether record `i` has the identifier of an earlier record.
pub open spec fn repeats_at(records: Seq<RecordView>, i: int) -> bool {
    exists|j: int| 0 <= j < i && (#[trigger] records[j]).id == records[i].id
}

/// Whether some record has the identifier of an earlier one.
pub open spec fn has_repeat(records: Seq<RecordView>) -> bool {
    exists|i: int| 0 <= i < records.len() && #[trigger] repeats_at(records, i)
}

/// The place of the first record that has the identifier of an earlier one.
pub open spec fn first_repeat(records: Seq<RecordView>) -> int {
    choose|i: int|
        0 <= i < records.len() && #[trigger] repeats_at(records, i) && !has_repeat(
            records.take(i),
        )
}

/// A record that repeats an earlier one, with none before it that does, is
/// the first to do so.
pub proof fn lemma_first_repeat(records: Seq<RecordView>, i: int)
    requires
        0 <= i < records.len(),
        repeats_at(records, i),
        !has_repeat(records.take(i)),
    ensures
        has_repeat(records),
        first_repeat(records) == i,
{
    let f = first_repeat(records);
    if f < i {
        let j = choose|j: int| 0 <= j < f && (#[trigger] records[j]).id == records[f].id;
        assert(records.take(i)[j].id == records.take(i)[f].id);
        assert(repeats_at(records.take(i), f));
    } else if i < f {
        let j = choose|j: int| 0 <= j < i && (#[trigger] records[j]).id == records[i].id;
        assert(records.take(f)[j].id == records.take(f)[i].id);
        assert(repeats_at(records.take(f), i));
    }
}

/// Records without a repeated identifier are read back as cards with
/// distinct identifiers, and the other way round.
pub proof fn lemma_restored_distinct(records: Seq<RecordView>)
    ensures
        distinct_ids(restored(records)) <==> !has_repeat(records),
{
    let cards = restored(records);
    if has_repeat(records) {
        let i = choose|i: int| 0 <= i < records.len() && #[trigger] repeats_at(records, i);
        let j = choose|j: int| 0 <= j < i && (#[trigger] records[j]).id == records[i].id;
        assert(cards[j].id == cards[i].id);
    }
    if !distinct_ids(cards) {
        let (j, i) = choose|j: int, i: int|
            0 <= j < i < cards.len() && (#[trigger] cards[j]).id == (#[trigger] cards[i]).id;
        assert(repeats_at(records, i));
    }
}

/// What was written for cards is read back as the same cards in the same
/// order, equal in title, description, parent, rectangle, identifier and
/// collapsed flag, none of them being edited. Writing them again gives the
/// same records. Cards with distinct identifiers give records without a
/// repeated one, so reading them back does not fail.
pub proof fn lemma_round_trip(cards: Seq<CardView>)
    ensures
        restored(snapshot(cards)) == all_at_rest(cards),
        snapshot(restored(snapshot(cards))) == snapshot(cards),
        distinct_ids(cards) ==> !has_repeat(snapshot(cards)),
{
}

/// Records are read back and written again unchanged.
pub proof fn lemma_records_round_trip(records: Seq<RecordView>)
    ensures
        snapshot(restored(records)) == records,
{
}

impl CardStore {
    /// The records to write for the cards of the store, in order.
    pub fn save(&self) -> (records: Vec<CardRecord>)
        ensures
            records_view(records@) == snapshot(self@),
    {
        let cards: &Vec<Card> = self.all();
        let mut records: Vec<CardRecord> = Vec::new();
        let mut i: usize = 0;
        while i < cards.len()
            invariant
                i <= cards.len(),
                cards_view(cards@) == self@,
                records.len() == i,
                forall|k: int| 0 <= k < i ==> (#[trigger] records@[k])@ == self@[k].record(),
            decreases cards.len() - i,
        {
            let record = cards[i].to_record();
            records.push(record);
            i += 1;
        }
        records
    }

    /// The store that `records` stand for: a card for each record, in
    /// order, none of them being edited.
    ///
    /// Fails where a record has the identifier of an earlier one, and names
    /// the identifier of the first record that does.
    pub fn load(records: Vec<CardRecord>) -> (r: Result<CardStore, LoadError>)
        ensures
            match r {
                Ok(store) => !has_repeat(records_view(records@)) && store@ == restored(
                    records_view(records@),
                ) && distinct_ids(store@),
                Err(LoadError::DuplicateId(id)) => has_repeat(records_view(records@)) && id
                    == records_view(records@)[first_repeat(records_view(records@))].id,
            },
    {
        let ghost given = records_view(records@);
        let mut store = CardStore::new();
        let mut rest = records;
        let ghost mut done: int = 0;
        while rest.len() > 0
            invariant
                0 <= done <= given.len(),
                given == records_view(records@),
                rest.len() == given.len() - done,
                records_view(rest@) == given.skip(done),
                store@ == restored(given.take(done)),
                distinct_ids(store@),
                !has_repeat(given.take(done)),
            decreases rest.len(),
        {
            let ghost before = rest@;
            let record = rest.remove(0);
            let id = record.id;
            let card = Card::from_record(record);
            proof {
                assert(record@ == records_view(before)[0]);
                assert(records_view(rest@) =~= given.skip(done + 1)) by {
                    assert forall|k: int| 0 <= k < rest@.len() implies records_view(rest@)[k]
                        == given.skip(done + 1)[k] by {
                        assert(records_view(before)[k + 1] == given.skip(done)[k + 1]);
                    }
                }
            }
            match store.insert(card) {
                Ok(()) => {
                    proof {
                        let upto = given.take(done);
                        let next = given.take(done + 1);
                        if has_repeat(next) {
                            let i = choose|i: int|
                                0 <= i < next.len() && #[trigger] repeats_at(next, i);
                            let j = choose|j: int|
                                0 <= j < i && (#[trigger] next[j]).id == next[i].id;
                            if i < done {
                                assert(repeats_at(upto, i));
                            } else {
                                assert(restored(upto)[j].id == id);
                            }
                        }
                        done = done + 1;
                    }
                },
                Err(StoreError::DuplicateId(_)) => {
                    proof {
                        lemma_first_repeat(given, done);
                    }
                    return Err(LoadError::DuplicateId(id));
                },
            }
        }
        proof {
            assert(given.take(done) =~= given);
        }
        Ok(store)
    }
}

} // verus!
