//! One editing session: the cards and what is pending around them.
//!
//! A frame goes like this: the inputs of the menu are applied (loading,
//! adding a card), then a window is laid out for each card and what the
//! user did in it is applied (linking, editing, the rectangle the toolkit
//! used, closing), then [`Application::finish_frame`] deletes the cards whose
//! windows were closed and gives the lines to draw.

use vstd::prelude::*;
use crate::card::{Card, CardRecord};
use crate::edit::editable;
use crate::geometry::Rect;
use crate::ident::next_id;
use crate::lifecycle::DeletePolicy;
use crate::links::{connectors, segments_view, Segment};
use crate::model::{
    choice_of, swept, window_of, ApplicationView, ChoiceView, Input, SavedView, WindowView,
};
use crate::persist::{first_repeat, has_repeat, records_view, snapshot, LoadError};
use crate::store::{cards_view, distinct_ids, has_id, ids_of, CardStore};

verus! {

/// The state of a session. Its value is an [`ApplicationView`], and each
/// method that changes it is one [`Input`].
pub struct Application {
    changed_window_size: bool,
    maybe_card_title: String,
    loaded_just_now: bool,
    selecting_file: bool,
    data: CardStore,
    closing: Vec<isize>,
    policy: DeletePolicy,
}

/// What of a session outlives the program: the cards, and whether the main
/// window was sized.
#[derive(Debug, PartialEq, Eq)]
pub struct SavedSession {
    pub changed_window_size: bool,
    pub data: Vec<CardRecord>,
}

/// What the toolkit is asked to lay out for one card.
#[derive(Debug, PartialEq, Eq)]
pub struct WindowRequest {
    pub id: isize,
    pub title: String,
    pub description: String,
    /// Whether the window shows text fields rather than the description.
    pub editing: bool,
    /// The rectangle of the card as last recorded.
    pub rect: Rect,
    /// Whether the window must take `rect` as it is. Otherwise `rect` is
    /// where the window goes unless the toolkit remembers another place.
    pub fixed: bool,
}

/// One entry of the menu that links a card.
#[derive(Debug, PartialEq, Eq)]
pub struct LinkChoice {
    /// The identifier to hand to [`Application::link`] when the entry is
    /// chosen.
    pub target: isize,
    /// The title of the card to link to, or `None` for the entry that leaves
    /// the card without parent.
    pub title: Option<String>,
}

impl View for LinkChoice {
    type V = ChoiceView;

    open spec fn view(&self) -> ChoiceView {
        ChoiceView {
            target: self.target as int,
            title: match self.title {
                Some(t) => Some(t@),
                None => None,
            },
        }
    }
}

/// The values of a sequence of menu entries, in the same order.
pub open spec fn choices_view(choices: Seq<LinkChoice>) -> Seq<ChoiceView> {
    choices.map_values(|c: LinkChoice| c@)
}

impl View for SavedSession {
    type V = SavedView;

    open spec fn view(&self) -> SavedView {
        SavedView {
            changed_window_size: self.changed_window_size,
            data: records_view(self.data@),
        }
    }
}

impl View for WindowRequest {
    type V = WindowView;

    open spec fn view(&self) -> WindowView {
        WindowView {
            id: self.id as int,
            title: self.title@,
            description: self.description@,
            editing: self.editing,
            rect: self.rect,
            fixed: self.fixed,
        }
    }
}

/// The values of a sequence of window requests, in the same order.
pub open spec fn windows_view(windows: Seq<WindowRequest>) -> Seq<WindowView> {
    windows.map_values(|w: WindowRequest| w@)
}

/// The identifiers as integers.
pub open spec fn ids_view(ids: Seq<isize>) -> Seq<int> {
    ids.map_values(|id: isize| id as int)
}

/// What was left by an earlier session, if anything, as a value.
pub open spec fn saved_view(saved: Option<SavedSession>) -> Option<SavedView> {
    match saved {
        Some(s) => Some(s@),
        None => None,
    }
}

impl View for Application {
    type V = ApplicationView;

    closed spec fn view(&self) -> ApplicationView {
        ApplicationView {
            changed_window_size: self.changed_window_size,
            pending_title: self.maybe_card_title@,
            just_loaded: self.loaded_just_now,
            selecting_file: self.selecting_file,
            cards: self.data@,
            closing: ids_view(self.closing@),
            policy: self.policy,
        }
    }
}

impl Default for Application {
    fn default() -> (app: Application)
        ensures
            app@ == ApplicationView::initial(),
    {
        let app = Application {
            changed_window_size: false,
            maybe_card_title: String::new(),
            loaded_just_now: false,
            selecting_file: false,
            data: CardStore::new(),
            closing: Vec::new(),
            policy: DeletePolicy::CardOnly,
        };
        proof {
            assert(ids_view(app.closing@) =~= Seq::<int>::empty());
        }
        app
    }
}

impl Application {
    /// Starts a session from what an earlier one left, if anything.
    ///
    /// Where nothing was left, or what was left repeats an identifier, the
    /// session starts without cards.
    pub fn new(saved: Option<SavedSession>) -> (app: Application)
        ensures
            app@ == ApplicationView::started(saved_view(saved)),
    {
        let mut app = Application::default();
        if let Some(session) = saved {
            if let Ok(store) = CardStore::load(session.data) {
                app.data = store;
                app.changed_window_size = session.changed_window_size;
            }
        }
        app
    }

    /// What to keep of this session for a later one.
    pub fn save(&self) -> (saved: SavedSession)
        ensures
            saved@ == self@.saved(),
    {
        SavedSession { changed_window_size: self.changed_window_size, data: self.data.save() }
    }

    /// The records to write to a file for the cards as they stand.
    pub fn export(&self) -> (records: Vec<CardRecord>)
        ensures
            records_view(records@) == snapshot(self@.cards),
    {
        self.data.save()
    }

    /// Replaces the cards by those that `records` stand for and marks them
    /// as just loaded, so that the next frame takes their rectangles as
    /// binding.
    ///
    /// Fails, and changes nothing, where a record has the identifier of an
    /// earlier one; the error names the identifier of the first that does.
    pub fn load(&mut self, records: Vec<CardRecord>) -> (r: Result<(), LoadError>)
        ensures
            final(self)@ == old(self)@.after(Input::Load(records_view(records@))),
            match r {
                Ok(()) => !has_repeat(records_view(records@)),
                Err(LoadError::DuplicateId(id)) => has_repeat(records_view(records@)) && id
                    == records_view(records@)[first_repeat(records_view(records@))].id,
            },
    {
        match CardStore::load(records) {
            Ok(store) => {
                self.data = store;
                self.loaded_just_now = true;
                self.closing = Vec::new();
                proof {
                    assert(ids_view(self.closing@) =~= Seq::<int>::empty());
                }
                Ok(())
            },
            Err(e) => Err(e),
        }
    }

    /// Whether the initial size of the main window is still to be asked
    /// for. It is so once.
    pub fn take_window_resize(&mut self) -> (due: bool)
        ensures
            final(self)@ == old(self)@.after(Input::Resize),
            due == !old(self)@.changed_window_size,
    {
        let due = !self.changed_window_size;
        self.changed_window_size = true;
        due
    }

    /// The title typed for the next card.
    pub fn pending_title(&self) -> (title: &String)
        ensures
            title@ == self@.pending_title,
    {
        &self.maybe_card_title
    }

    /// Takes `title` as the title typed for the next card.
    pub fn set_pending_title(&mut self, title: String)
        ensures
            final(self)@ == old(self)@.after(Input::Type(title@)),
    {
        self.maybe_card_title = title;
    }

    /// Adds a card with the pending title and clears that title. Returns the
    /// identifier of the new card.
    ///
    /// The cards are sorted by identifier and the new card comes last. Its
    /// identifier is the first one missing above the smallest in use, or 1
    /// where there is no card. Where that identifier would be greater than
    /// every `isize`, no card is added, the title stays, and `None` is
    /// returned; the cards are sorted all the same.
    pub fn add_card(&mut self) -> (r: Option<isize>)
        ensures
            final(self)@ == old(self)@.after(Input::AddCard),
            match r {
                Some(id) => id == next_id(ids_of(old(self)@.cards)),
                None => next_id(ids_of(old(self)@.cards)) > isize::MAX,
            },
    {
        let title = self.maybe_card_title.clone();
        match self.data.create(title) {
            Some(id) => {
                self.maybe_card_title = String::new();
                Some(id)
            },
            None => None,
        }
    }

    /// The cards, in store order. No two of them share an identifier.
    pub fn cards(&self) -> (cards: &Vec<Card>)
        ensures
            cards_view(cards@) == self@.cards,
            distinct_ids(self@.cards),
    {
        self.data.all()
    }

    /// The store of the cards.
    pub fn store(&self) -> (store: &CardStore)
        ensures
            store@ == self@.cards,
    {
        &self.data
    }

    /// Whether the cards were loaded since the last frame ended.
    pub fn is_just_loaded(&self) -> (b: bool)
        ensures
            b == self@.just_loaded,
    {
        self.loaded_just_now
    }

    /// What to ask the toolkit to lay out: a window for each card, in store
    /// order. Right after a load the rectangles are binding.
    pub fn windows(&self) -> (windows: Vec<WindowRequest>)
        ensures
            windows_view(windows@) == self@.windows(),
    {
        let cards: &Vec<Card> = self.data.all();
        let mut windows: Vec<WindowRequest> = Vec::new();
        let mut i: usize = 0;
        while i < cards.len()
            invariant
                i <= cards.len(),
                cards_view(cards@) == self@.cards,
                windows.len() == i,
                forall|k: int|
                    0 <= k < i ==> (#[trigger] windows@[k])@ == window_of(
                        self@.cards[k],
                        self@.just_loaded,
                    ),
            decreases cards.len() - i,
        {
            let card = &cards[i];
            windows.push(
                WindowRequest {
                    id: card.id,
                    title: card.title.clone(),
                    description: card.description.clone(),
                    editing: card.editing,
                    rect: card.rect,
                    fixed: self.loaded_just_now,
                },
            );
            i += 1;
        }
        windows
    }

    /// The menu that links card `id`: for each card, in store order, an
    /// entry with its title; for the card itself, the entry that leaves it
    /// without parent.
    pub fn link_choices(&self, id: isize) -> (choices: Vec<LinkChoice>)
        ensures
            choices_view(choices@) == self@.link_choices(id as int),
    {
        let cards: &Vec<Card> = self.data.all();
        let mut choices: Vec<LinkChoice> = Vec::new();
        let mut i: usize = 0;
        while i < cards.len()
            invariant
                i <= cards.len(),
                cards_view(cards@) == self@.cards,
                choices.len() == i,
                forall|k: int|
                    0 <= k < i ==> (#[trigger] choices@[k])@ == choice_of(self@.cards[k], id as int),
            decreases cards.len() - i,
        {
            let card = &cards[i];
            let title = if card.id == id {
                None
            } else {
                Some(card.title.clone())
            };
            choices.push(LinkChoice { target: card.id, title });
            i += 1;
        }
        choices
    }

    /// Makes card `target` the parent of card `child`; with `target` equal
    /// to `child`, the card is left without parent. Does nothing unless both
    /// are cards, and says whether it did anything.
    pub fn link(&mut self, child: isize, target: isize) -> (done: bool)
        ensures
            final(self)@ == old(self)@.after(Input::Link(child as int, target as int)),
            done == (has_id(old(self)@.cards, child as int) && has_id(
                old(self)@.cards,
                target as int,
            )),
    {
        self.data.link(child, target)
    }

    /// Flips the editing mode of card `id`. Says whether there is such a
    /// card.
    pub fn toggle_editing(&mut self, id: isize) -> (done: bool)
        ensures
            final(self)@ == old(self)@.after(Input::ToggleEditing(id as int)),
            done == has_id(old(self)@.cards, id as int),
    {
        self.data.toggle_editing(id)
    }

    /// Gives card `id` the title `title`, if the card is being edited. Says
    /// whether it was.
    pub fn edit_title(&mut self, id: isize, title: String) -> (done: bool)
        ensures
            final(self)@ == old(self)@.after(Input::EditTitle(id as int, title@)),
            done == editable(old(self)@.cards, id as int),
    {
        self.data.set_title(id, title)
    }

    /// Gives card `id` the description `description`, if the card is being
    /// edited. Says whether it was.
    pub fn edit_description(&mut self, id: isize, description: String) -> (done: bool)
        ensures
            final(self)@ == old(self)@.after(Input::EditDescription(id as int, description@)),
            done == editable(old(self)@.cards, id as int),
    {
        self.data.set_description(id, description)
    }

    /// Records the rectangle that the toolkit used for the window of card
    /// `id`. It is what the next frame asks for, and what is saved. Says
    /// whether there is such a card.
    pub fn record_rect(&mut self, id: isize, rect: Rect) -> (done: bool)
        ensures
            final(self)@ == old(self)@.after(Input::RecordRect(id as int, rect)),
            done == has_id(old(self)@.cards, id as int),
    {
        self.data.set_rect(id, rect)
    }

    /// Marks card `id` as collapsed or not. Says whether there is such a
    /// card.
    pub fn set_collapsed(&mut self, id: isize, collapsed: bool) -> (done: bool)
        ensures
            final(self)@ == old(self)@.after(Input::Fold(id as int, collapsed)),
            done == has_id(old(self)@.cards, id as int),
    {
        self.data.set_collapsed(id, collapsed)
    }

    /// Marks card `id` for deletion at the end of the frame, because its
    /// window was closed. Says whether it is marked now and was not before.
    pub fn close_card(&mut self, id: isize) -> (marked: bool)
        ensures
            final(self)@ == old(self)@.after(Input::Close(id as int)),
            marked == (has_id(old(self)@.cards, id as int) && !old(self)@.closing.contains(
                id as int,
            )),
    {
        if !self.data.contains(id) {
            return false;
        }
        let mut i: usize = 0;
        while i < self.closing.len()
            invariant
                i <= self.closing.len(),
                *self == *old(self),
                forall|k: int| 0 <= k < i ==> (#[trigger] ids_view(self.closing@)[k]) != id,
            decreases self.closing.len() - i,
        {
            if self.closing[i] == id {
                proof {
                    assert(ids_view(self.closing@)[i as int] == id);
                }
                return false;
            }
            i += 1;
        }
        proof {
            assert(ids_view(self.closing@.push(id)) =~= ids_view(self.closing@).push(id as int));
        }
        self.closing.push(id);
        true
    }

    /// What goes with a card whose window was closed.
    pub fn delete_policy(&self) -> (policy: DeletePolicy)
        ensures
            policy == self@.policy,
    {
        self.policy
    }

    /// Chooses what goes with a card whose window is closed.
    pub fn set_delete_policy(&mut self, policy: DeletePolicy)
        ensures
            final(self)@ == old(self)@.after(Input::SetPolicy(policy)),
    {
        self.policy = policy;
    }

    /// Ends the frame: deletes the cards marked for deletion, in the order
    /// in which they were marked, and no longer counts the cards as just
    /// loaded. Returns the lines to draw between the cards that are left.
    pub fn finish_frame(&mut self) -> (segments: Vec<Segment>)
        ensures
            final(self)@ == old(self)@.after(Input::FinishFrame),
            segments_view(segments@) == connectors(final(self)@.cards),
    {
        let ghost before = self@;
        let mut closing: Vec<isize> = Vec::new();
        core::mem::swap(&mut closing, &mut self.closing);
        self.loaded_just_now = false;
        let mut i: usize = 0;
        proof {
            assert(ids_view(self.closing@) =~= Seq::<int>::empty());
        }
        while i < closing.len()
            invariant
                i <= closing.len(),
                ids_view(closing@) == before.closing,
                self@ == (ApplicationView {
                    cards: swept(before.cards, before.closing.take(i as int), before.policy),
                    closing: Seq::empty(),
                    just_loaded: false,
                    ..before
                }),
            decreases closing.len() - i,
        {
            proof {
                assert(before.closing.take(i as int + 1).drop_last() =~= before.closing.take(
                    i as int,
                ));
            }
            let _ = self.data.delete(closing[i], self.policy);
            i += 1;
        }
        proof {
            assert(before.closing.take(i as int) =~= before.closing);
        }
        self.data.connectors()
    }

    /// Whether the user was asked for a file and has not answered.
    pub fn is_selecting_file(&self) -> (b: bool)
        ensures
            b == self@.selecting_file,
    {
        self.selecting_file
    }

    /// Notes that the user is about to be asked for a file. Returns whether
    /// to ask: not while an earlier question is open, so that two answers
    /// never mix.
    pub fn request_file_selection(&mut self) -> (ask: bool)
        ensures
            final(self)@ == old(self)@.after(Input::RequestFile),
            ask == !old(self)@.selecting_file,
    {
        let ask = !self.selecting_file;
        self.selecting_file = true;
        ask
    }

    /// Notes that the user gave up choosing a file.
    pub fn cancel_file_selection(&mut self)
        ensures
            final(self)@ == old(self)@.after(Input::CancelFile),
    {
        self.selecting_file = false;
    }

    /// Takes the records of the file that the user chose, in whatever frame
    /// they arrive, and loads them as [`Application::load`] does.
    ///
    /// Records that arrive when no question is open are dropped: `Ok(false)`
    /// and nothing changes. Otherwise the question is closed, and the result
    /// is `Ok(true)` where the records were loaded, and the error where they
    /// repeat an identifier: then the cards stay as they are.
    pub fn deliver_file(&mut self, records: Vec<CardRecord>) -> (r: Result<bool, LoadError>)
        ensures
            final(self)@ == old(self)@.after(Input::DeliverFile(records_view(records@))),
            match r {
                Ok(taken) => taken == old(self)@.selecting_file && (taken ==> !has_repeat(
                    records_view(records@),
                )),
                Err(LoadError::DuplicateId(id)) => old(self)@.selecting_file && has_repeat(
                    records_view(records@),
                ) && id == records_view(records@)[first_repeat(records_view(records@))].id,
            },
    {
        if !self.selecting_file {
            return Ok(false);
        }
        self.selecting_file = false;
        match self.load(records) {
            Ok(()) => Ok(true),
            Err(e) => Err(e),
        }
    }
}

} // verus!
