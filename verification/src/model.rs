//! The session as a state machine: its state, its inputs, and what each
//! input does to the state.

use vstd::prelude::*;
use crate::card::{CardView, RecordView};
use crate::edit::{described, folded, linked, placed, retitled, toggled};
use crate::geometry::Rect;
use crate::ident::next_id;
use crate::lifecycle::{created, deleted, lemma_created, lemma_deleted, survives, DeletePolicy};
use crate::order::{lemma_sorted_by_id, sorted_by_id};
use crate::persist::{has_repeat, lemma_restored_distinct, restored, snapshot};
use crate::picking::{lemma_filter_all, lemma_filter_twice};
use crate::store::{distinct_ids, has_id, ids_of};

verus! {

/// The state of a session.
pub struct ApplicationView {
    /// Whether the initial size of the main window was asked for.
    pub changed_window_size: bool,
    /// The title typed for the next card.
    pub pending_title: Seq<char>,
    /// Whether the cards were loaded since the last frame ended.
    pub just_loaded: bool,
    /// Whether the user was asked for a file and has not answered.
    pub selecting_file: bool,
    /// The cards, in store order.
    pub cards: Seq<CardView>,
    /// The identifiers of the cards whose windows were closed in this frame,
    /// in the order of closing.
    pub closing: Seq<int>,
    /// What goes with a card whose window was closed.
    pub policy: DeletePolicy,
}

/// What of a session outlives the program.
pub struct SavedView {
    pub changed_window_size: bool,
    pub data: Seq<RecordView>,
}

/// What the toolkit is asked to lay out for one card.
pub struct WindowView {
    pub id: int,
    pub title: Seq<char>,
    pub description: Seq<char>,
    pub editing: bool,
    pub rect: Rect,
    pub fixed: bool,
}

/// One entry of the menu that links a card: a card to link it to, or, for
/// the card itself, the entry that leaves it without parent.
pub struct ChoiceView {
    /// The identifier to link to.
    pub target: int,
    /// The title to show, or `None` for the entry "no parent".
    pub title: Option<Seq<char>>,
}

/// One thing that happens to a session.
pub enum Input {
    /// The initial size of the main window is asked for.
    Resize,
    /// A title for the next card is typed.
    Type(Seq<char>),
    /// A card is added.
    AddCard,
    /// Cards are loaded from records.
    Load(Seq<RecordView>),
    /// A card is linked to a target.
    Link(int, int),
    /// The editing mode of a card is flipped.
    ToggleEditing(int),
    /// A card gets a title.
    EditTitle(int, Seq<char>),
    /// A card gets a description.
    EditDescription(int, Seq<char>),
    /// The rectangle of a card's window is recorded.
    RecordRect(int, Rect),
    /// A card is collapsed or opened up.
    Fold(int, bool),
    /// The window of a card is closed.
    Close(int),
    /// The deletion policy is chosen.
    SetPolicy(DeletePolicy),
    /// The frame ends.
    FinishFrame,
    /// The user is asked for a file.
    RequestFile,
    /// The user gives up choosing a file.
    CancelFile,
    /// The records of the chosen file arrive.
    DeliverFile(Seq<RecordView>),
}

/// The window asked for `card`; its rectangle is binding right after a load.
pub open spec fn window_of(card: CardView, just_loaded: bool) -> WindowView {
    WindowView {
        id: card.id,
        title: card.title,
        description: card.description,
        editing: card.editing,
        rect: card.rect,
        fixed: just_loaded,
    }
}

/// The entry that `card` makes in the link menu of the card `id`.
pub open spec fn choice_of(card: CardView, id: int) -> ChoiceView {
    ChoiceView { target: card.id, title: if card.id == id { None } else { Some(card.title) } }
}

/// The cards after the cards named in `closing` were deleted one after the
/// other, first to last.
pub open spec fn swept(cards: Seq<CardView>, closing: Seq<int>, policy: DeletePolicy) -> Seq<
    CardView,
>
    decreases closing.len(),
{
    if closing.len() == 0 {
        cards
    } else {
        deleted(swept(cards, closing.drop_last(), policy), closing.last(), policy)
    }
}

impl ApplicationView {
    /// The session at its very start: no cards, nothing pending, closed
    /// windows take their card alone.
    pub open spec fn initial() -> ApplicationView {
        ApplicationView {
            changed_window_size: false,
            pending_title: Seq::empty(),
            just_loaded: false,
            selecting_file: false,
            cards: Seq::empty(),
            closing: Seq::empty(),
            policy: DeletePolicy::CardOnly,
        }
    }

    /// The session that starts from what an earlier one left. Where nothing
    /// was left, or what was left repeats an identifier, it starts afresh.
    pub open spec fn started(saved: Option<SavedView>) -> ApplicationView {
        match saved {
            Some(s) if !has_repeat(s.data) => ApplicationView {
                changed_window_size: s.changed_window_size,
                cards: restored(s.data),
                ..Self::initial()
            },
            _ => Self::initial(),
        }
    }

    /// What this session leaves for a later one.
    pub open spec fn saved(self) -> SavedView {
        SavedView { changed_window_size: self.changed_window_size, data: snapshot(self.cards) }
    }

    /// The windows to lay out: one for each card, in store order.
    pub open spec fn windows(self) -> Seq<WindowView> {
        self.cards.map_values(|c: CardView| window_of(c, self.just_loaded))
    }

    /// The link menu of the card `id`: an entry for each card, in store
    /// order.
    pub open spec fn link_choices(self, id: int) -> Seq<ChoiceView> {
        self.cards.map_values(|c: CardView| choice_of(c, id))
    }

    /// With `cards` for cards and the rest as it is.
    pub open spec fn with_cards(self, cards: Seq<CardView>) -> ApplicationView {
        ApplicationView { cards, ..self }
    }

    /// After a card was added: the cards are sorted by identifier, behind
    /// them comes the new card with the pending title, and that title is
    /// cleared.
    pub open spec fn card_added(self) -> ApplicationView {
        ApplicationView {
            cards: created(self.cards, self.pending_title),
            pending_title: Seq::empty(),
            ..self
        }
    }

    /// After the cards were loaded from `records`: these are the cards, they
    /// count as just loaded, and no card is marked for deletion.
    pub open spec fn loaded(self, records: Seq<RecordView>) -> ApplicationView {
        ApplicationView {
            cards: restored(records),
            just_loaded: true,
            closing: Seq::empty(),
            ..self
        }
    }

    /// After the window of card `id` was closed: the card is marked for
    /// deletion, once, if there is such a card.
    pub open spec fn closed(self, id: int) -> ApplicationView {
        if has_id(self.cards, id) && !self.closing.contains(id) {
            ApplicationView { closing: self.closing.push(id), ..self }
        } else {
            self
        }
    }

    /// After the frame ended: the marked cards are deleted, nothing is
    /// marked, and the cards no longer count as just loaded.
    pub open spec fn frame_finished(self) -> ApplicationView {
        ApplicationView {
            cards: swept(self.cards, self.closing, self.policy),
            closing: Seq::empty(),
            just_loaded: false,
            ..self
        }
    }

    /// The session after `input`.
    ///
    /// A card is not added where its identifier would be greater than every
    /// `isize`; the cards are sorted all the same. Records that repeat an
    /// identifier are not loaded. Records that arrive when no question for a
    /// file is open are dropped; otherwise their arrival closes the
    /// question, whether they are loaded or not.
    pub open spec fn after(self, input: Input) -> ApplicationView {
        match input {
            Input::Resize => ApplicationView { changed_window_size: true, ..self },
            Input::Type(title) => ApplicationView { pending_title: title, ..self },
            Input::AddCard => if next_id(ids_of(self.cards)) <= isize::MAX {
                self.card_added()
            } else {
                self.with_cards(sorted_by_id(self.cards))
            },
            Input::Load(records) => if has_repeat(records) {
                self
            } else {
                self.loaded(records)
            },
            Input::Link(child, target) => self.with_cards(linked(self.cards, child, target)),
            Input::ToggleEditing(id) => self.with_cards(toggled(self.cards, id)),
            Input::EditTitle(id, title) => self.with_cards(retitled(self.cards, id, title)),
            Input::EditDescription(id, description) => self.with_cards(
                described(self.cards, id, description),
            ),
            Input::RecordRect(id, rect) => self.with_cards(placed(self.cards, id, rect)),
            Input::Fold(id, collapsed) => self.with_cards(folded(self.cards, id, collapsed)),
            Input::Close(id) => self.closed(id),
            Input::SetPolicy(policy) => ApplicationView { policy, ..self },
            Input::FinishFrame => self.frame_finished(),
            Input::RequestFile => ApplicationView { selecting_file: true, ..self },
            Input::CancelFile => ApplicationView { selecting_file: false, ..self },
            Input::DeliverFile(records) => if !self.selecting_file {
                self
            } else if has_repeat(records) {
                ApplicationView { selecting_file: false, ..self }
            } else {
                ApplicationView { selecting_file: false, ..self.loaded(records) }
            },
        }
    }

    /// The session after `inputs`, one after the other.
    pub open spec fn after_all(self, inputs: Seq<Input>) -> ApplicationView
        decreases inputs.len(),
    {
        if inputs.len() == 0 {
            self
        } else {
            self.after_all(inputs.drop_last()).after(inputs.last())
        }
    }
}

/// The cards count as just loaded from a successful load until the frame
/// ends, whatever else happens in between, and no longer once a frame has
/// ended, whatever happened before.
pub proof fn lemma_just_loaded_for_one_frame(
    session: ApplicationView,
    records: Seq<RecordView>,
    inputs: Seq<Input>,
)
    requires
        !has_repeat(records),
    ensures
        session.after(Input::Load(records)).just_loaded,
        (forall|k: int| 0 <= k < inputs.len() ==> inputs[k] != Input::FinishFrame)
            ==> session.after(Input::Load(records)).after_all(inputs).just_loaded,
        !session.after_all(inputs).after(Input::FinishFrame).just_loaded,
    decreases inputs.len(),
{
    if inputs.len() > 0 {
        lemma_just_loaded_for_one_frame(session, records, inputs.drop_last());
    }
}

/// Without a load, the cards do not come to count as just loaded.
pub proof fn lemma_only_load_marks(session: ApplicationView, input: Input)
    requires
        !session.just_loaded,
        !(input is Load),
        !(input is DeliverFile),
    ensures
        !session.after(input).just_loaded,
{
}

/// Every input leaves the cards with distinct identifiers.
pub proof fn lemma_inputs_keep_ids_distinct(session: ApplicationView, input: Input)
    requires
        distinct_ids(session.cards),
    ensures
        distinct_ids(session.after(input).cards),
{
    let cards = session.cards;
    match input {
        Input::AddCard => {
            lemma_created(cards, session.pending_title);
            lemma_sorted_by_id(cards);
        },
        Input::Load(records) => {
            lemma_restored_distinct(records);
        },
        Input::DeliverFile(records) => {
            lemma_restored_distinct(records);
        },
        Input::FinishFrame => {
            lemma_swept(cards, session.closing, session.policy);
        },
        // The other inputs leave every identifier where it is.
        _ => {},
    }
}

/// Deleting the marked cards keeps distinct identifiers distinct, brings no
/// identifier in, and never adds a card.
pub proof fn lemma_swept(cards: Seq<CardView>, closing: Seq<int>, policy: DeletePolicy)
    requires
        distinct_ids(cards),
    ensures
        distinct_ids(swept(cards, closing, policy)),
        forall|id: int| has_id(swept(cards, closing, policy), id) ==> has_id(cards, id),
        swept(cards, closing, policy).len() <= cards.len(),
    decreases closing.len(),
{
    if closing.len() > 0 {
        let before = swept(cards, closing.drop_last(), policy);
        lemma_swept(cards, closing.drop_last(), policy);
        lemma_deleted(before, closing.last(), policy);
    }
}

/// Where closed windows take their card alone, the cards left at the end of
/// a frame are those that were not marked, in their order, in whatever
/// order they were marked.
pub proof fn lemma_swept_card_only(cards: Seq<CardView>, closing: Seq<int>)
    ensures
        swept(cards, closing, DeletePolicy::CardOnly) == cards.filter(
            |c: CardView| !closing.contains(c.id),
        ),
    decreases closing.len(),
{
    let unmarked = |c: CardView| !closing.contains(c.id);
    if closing.len() == 0 {
        lemma_filter_all(cards, unmarked);
    } else {
        let init = closing.drop_last();
        let last = closing.last();
        let before = |c: CardView| !init.contains(c.id);
        let other = |c: CardView| survives(c, last, DeletePolicy::CardOnly);
        let left = swept(cards, init, DeletePolicy::CardOnly);
        lemma_swept_card_only(cards, init);
        if !has_id(left, last) {
            lemma_filter_all(left, other);
        }
        assert forall|i: int| 0 <= i < cards.len() implies unmarked(#[trigger] cards[i]) == (
        before(cards[i]) && other(cards[i])) by {
            let id = cards[i].id;
            if closing.contains(id) {
                let k = choose|k: int| 0 <= k < closing.len() && closing[k] == id;
                if k < init.len() {
                    assert(init[k] == id);
                }
            }
        }
        lemma_filter_twice(cards, before, other, unmarked);
    }
}

} // verus!
