//! Decks and their configuration, as far as rescheduling reads them.

use vstd::prelude::*;

use crate::card::DeckId;

verus! {

#[derive(Clone, Copy, Debug, PartialEq, Eq, Hash, Structural)]
pub struct DeckConfigId(pub i64);

#[derive(Clone, Copy, Debug, PartialEq, Eq, Structural)]
pub enum DeckKind {
    /// A home deck, with the configuration its cards are scheduled by.
    Normal { config_id: DeckConfigId },
    /// A temporary deck that parks cards of other decks.
    Filtered,
}

#[derive(Clone, Copy, Debug, PartialEq, Eq, Structural)]
pub struct Deck {
    pub id: DeckId,
    pub kind: DeckKind,
}

#[derive(Clone, Copy, Debug, PartialEq, Eq, Structural)]
pub struct DeckConfig {
    pub id: DeckConfigId,
    /// The ease factor a card of this deck starts with, in thousandths.
    pub initial_ease: u16,
}

impl Deck {
    pub open spec fn spec_config_id(&self) -> Option<DeckConfigId> {
        match self.kind {
            DeckKind::Normal { config_id } => Some(config_id),
            DeckKind::Filtered => None,
        }
    }

    /// The deck's configuration; a filtered deck has none.
    #[verifier::when_used_as_spec(spec_config_id)]
    pub fn config_id(&self) -> (id: Option<DeckConfigId>)
        ensures
            id == self.spec_config_id(),
    {
        match self.kind {
            DeckKind::Normal { config_id } => Some(config_id),
            DeckKind::Filtered => None,
        }
    }
}

} // verus!
