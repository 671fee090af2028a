//! Cards and their persisted form.

use vstd::prelude::*;
use crate::geometry::{default_rect, make_default_rect, Rect};

verus! {

/// A positioned, titled unit of content with a soft reference to a parent.
///
/// `parent` names another card by its `id`; a card whose `parent` equals its
/// own `id` has no parent. Nothing here requires `parent` to name a card that
/// exists.
#[derive(Debug, PartialEq, Eq)]
pub struct Card {
    pub title: String,
    pub description: String,
    pub parent: isize,
    pub rect: Rect,
    pub id: isize,
    pub collapsed: bool,
    /// Whether title and description are open for editing. Never persisted.
    pub editing: bool,
}

/// The mathematical value of a [`Card`].
pub struct CardView {
    pub title: Seq<char>,
    pub description: Seq<char>,
    pub parent: int,
    pub rect: Rect,
    pub id: int,
    pub collapsed: bool,
    pub editing: bool,
}

/// A card as it is written to a file: every field of [`Card`] but `editing`.
#[derive(Debug, PartialEq, Eq)]
pub struct CardRecord {
    pub title: String,
    pub description: String,
    pub parent: isize,
    pub rect: Rect,
    pub id: isize,
    pub collapsed: bool,
}

/// The mathematical value of a [`CardRecord`].
pub struct RecordView {
    pub title: Seq<char>,
    pub description: Seq<char>,
    pub parent: int,
    pub rect: Rect,
    pub id: int,
    pub collapsed: bool,
}

impl View for Card {
    type V = CardView;

    open spec fn view(&self) -> CardView {
        CardView {
            title: self.title@,
            description: self.description@,
            parent: self.parent as int,
            rect: self.rect,
            id: self.id as int,
            collapsed: self.collapsed,
            editing: self.editing,
        }
    }
}

impl View for CardRecord {
    type V = RecordView;

    open spec fn view(&self) -> RecordView {
        RecordView {
            title: self.title@,
            description: self.description@,
            parent: self.parent as int,
            rect: self.rect,
            id: self.id as int,
            collapsed: self.collapsed,
        }
    }
}

impl CardView {
    /// The card that creation yields: the given title, no description, no
    /// parent, the default rectangle, neither collapsed nor being edited.
    pub open spec fn fresh(id: int, title: Seq<char>) -> CardView {
        CardView {
            title,
            description: Seq::empty(),
            parent: id,
            rect: default_rect(),
            id,
            collapsed: false,
            editing: false,
        }
    }

    /// Whether the card is a root, that is, names itself as parent.
    pub open spec fn is_root(self) -> bool {
        self.parent == self.id
    }

    /// What is written to a file for this card.
    pub open spec fn record(self) -> RecordView {
        RecordView {
            title: self.title,
            description: self.description,
            parent: self.parent,
            rect: self.rect,
            id: self.id,
            collapsed: self.collapsed,
        }
    }

    /// This card with editing switched off.
    pub open spec fn at_rest(self) -> CardView {
        CardView { editing: false, ..self }
    }
}

impl RecordView {
    /// The card that a record is read back as: not being edited.
    pub open spec fn card(self) -> CardView {
        CardView {
            title: self.title,
            description: self.description,
            parent: self.parent,
            rect: self.rect,
            id: self.id,
            collapsed: self.collapsed,
            editing: false,
        }
    }
}

impl Clone for Card {
    fn clone(&self) -> (c: Card)
        ensures
            c@ == self@,
    {
        Card {
            title: self.title.clone(),
            description: self.description.clone(),
            parent: self.parent,
            rect: self.rect,
            id: self.id,
            collapsed: self.collapsed,
            editing: self.editing,
        }
    }
}

impl Clone for CardRecord {
    fn clone(&self) -> (r: CardRecord)
        ensures
            r@ == self@,
    {
        CardRecord {
            title: self.title.clone(),
            description: self.description.clone(),
            parent: self.parent,
            rect: self.rect,
            id: self.id,
            collapsed: self.collapsed,
        }
    }
}

impl Card {
    /// A card with the given identifier and nothing else set: empty title
    /// and description, no parent, the default rectangle.
    pub fn new(id: isize) -> (c: Card)
        ensures
            c@ == CardView::fresh(id as int, Seq::empty()),
    {
        Card {
            title: String::new(),
            description: String::new(),
            parent: id,
            rect: make_default_rect(),
            id,
            collapsed: false,
            editing: false,
        }
    }

    /// Whether the card names itself as parent.
    pub fn is_root(&self) -> (b: bool)
        ensures
            b == self@.is_root(),
    {
        self.parent == self.id
    }

    /// The persisted form of the card.
    pub fn to_record(&self) -> (r: CardRecord)
        ensures
            r@ == self@.record(),
    {
        CardRecord {
            title: self.title.clone(),
            description: self.description.clone(),
            parent: self.parent,
            rect: self.rect,
            id: self.id,
            collapsed: self.collapsed,
        }
    }

    /// The card that a persisted record stands for. It is not being edited.
    pub fn from_record(record: CardRecord) -> (c: Card)
        ensures
            c@ == record@.card(),
    {
        Card {
            title: record.title,
            description: record.description,
            parent: record.parent,
            rect: record.rect,
            id: record.id,
            collapsed: record.collapsed,
            editing: false,
        }
    }
}

} // verus!
