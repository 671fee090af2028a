//! A mind-map of cards.
//!
//! Each card has a title, a description, a rectangle on the screen and a soft
//! reference to a parent card; a line is drawn from a card to its parent.
//! This library holds the cards and decides what every input of a frame does
//! to them; drawing, dialogs and files belong to the program around it.
//!
//! - [`card`], [`geometry`]: a card, its persisted record, its rectangle.
//! - [`store`]: the cards in order, with pairwise distinct identifiers.
//! - [`order`], [`ident`], [`lifecycle`]: sorting by identifier, choosing the
//!   identifier of a new card, creating and deleting cards.
//! - [`edit`]: linking a card, editing its texts, recording its rectangle.
//! - [`links`]: the lines to draw.
//! - [`persist`]: the cards as records, to be written and read back.
//! - [`model`], [`session`]: the session as a state machine, and the
//!   [`Application`] that implements it.
//! - [`picking`]: facts about filtered sequences that the proofs share.

pub mod card;
pub mod edit;
pub mod geometry;
pub mod ident;
pub mod lifecycle;
pub mod links;
pub mod model;
pub mod order;
pub mod persist;
pub mod picking;
pub mod session;
pub mod store;

pub use card::{Card, CardRecord};
pub use geometry::Rect;
pub use lifecycle::DeletePolicy;
pub use links::Segment;
pub use persist::LoadError;
pub use session::{Application, LinkChoice, SavedSession, WindowRequest};
pub use store::{CardStore, StoreError};
