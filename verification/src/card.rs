//! A card's identity, queue classification and scheduling fields.

use vstd::prelude::*;

use crate::timing::TimestampSecs;

verus! {

#[derive(Clone, Copy, Debug, PartialEq, Eq, Hash, Structural)]
pub struct CardId(pub i64);

#[derive(Clone, Copy, Debug, PartialEq, Eq, Hash, Structural)]
pub struct NoteId(pub i64);

/// A deck's identifier. Zero stands for "no deck".
#[derive(Clone, Copy, Debug, PartialEq, Eq, Hash, Structural)]
pub struct DeckId(pub i64);

/// An update sequence number: the stamp by which synchronisation tells
/// what has changed.
#[derive(Clone, Copy, Debug, PartialEq, Eq, Structural)]
pub struct Usn(pub i32);

#[derive(Clone, Copy, Debug, PartialEq, Eq, Structural)]
pub enum CardType {
    New,
    Learn,
    Review,
    Relearn,
}

#[derive(Clone, Copy, Debug, PartialEq, Eq, Structural)]
pub enum CardQueue {
    /// `due` is the position in the new queue.
    New,
    /// `due` is a Unix timestamp.
    Learn,
    /// `due` is a day number.
    Review,
    DayLearn,
    PreviewRepeat,
    Suspended,
    SchedBuried,
    UserBuried,
}

/// The fitted state of the per-card memory model. The scheduling core only
/// asks whether a card has one; the two numbers are carried through as the
/// bit patterns of their single-precision values.
#[derive(Clone, Copy, Debug, PartialEq, Eq, Structural)]
pub struct FsrsMemoryState {
    pub stability: u32,
    pub difficulty: u32,
}

#[derive(Clone, Copy, Debug, PartialEq, Eq, Structural)]
pub struct Card {
    pub id: CardId,
    pub note_id: NoteId,
    pub deck_id: DeckId,
    pub template_idx: u16,
    pub usn: Usn,
    pub ctype: CardType,
    pub queue: CardQueue,
    /// A day number for review cards; a queue position or a timestamp otherwise.
    pub due: i32,
    /// Days until the next review.
    pub interval: u32,
    /// The ease multiplier in thousandths; zero while not yet set.
    pub ease_factor: u16,
    /// The value of `due` to restore when the card leaves a filtered deck.
    pub original_due: i32,
    /// The home deck while the card is parked in a filtered deck, else zero.
    pub original_deck_id: DeckId,
    /// The position in the new queue before the card left it.
    pub original_position: Option<u32>,
    pub memory_state: Option<FsrsMemoryState>,
    pub last_review_time: Option<TimestampSecs>,
}

/// A signed 32-bit value reinterpreted as unsigned.
pub open spec fn as_unsigned(value: i32) -> int {
    if value >= 0 {
        value as int
    } else {
        value + 0x1_0000_0000
    }
}

impl DeckId {
    pub open spec fn spec_or(self, other: DeckId) -> DeckId {
        if self.0 == 0 {
            other
        } else {
            self
        }
    }

    /// This deck, or `other` where this is "no deck".
    #[verifier::when_used_as_spec(spec_or)]
    pub fn or(self, other: DeckId) -> (deck: DeckId)
        ensures
            deck == self.spec_or(other),
    {
        if self.0 == 0 {
            other
        } else {
            self
        }
    }
}

impl Card {
    pub open spec fn spec_new(note_id: NoteId, template_idx: u16, deck_id: DeckId, due: i32) -> Card {
        Card {
            id: CardId(0),
            note_id,
            deck_id,
            template_idx,
            usn: Usn(0),
            ctype: CardType::New,
            queue: CardQueue::New,
            due,
            interval: 0,
            ease_factor: 0,
            original_due: 0,
            original_deck_id: DeckId(0),
            original_position: None,
            memory_state: None,
            last_review_time: None,
        }
    }

    /// A new card of `note_id` in `deck_id`, at position `due` of the new queue.
    pub fn new(note_id: NoteId, template_idx: u16, deck_id: DeckId, due: i32) -> (card: Card)
        ensures
            card == Card::spec_new(note_id, template_idx, deck_id, due),
    {
        Card {
            id: CardId(0),
            note_id,
            deck_id,
            template_idx,
            usn: Usn(0),
            ctype: CardType::New,
            queue: CardQueue::New,
            due,
            interval: 0,
            ease_factor: 0,
            original_due: 0,
            original_deck_id: DeckId(0),
            original_position: None,
            memory_state: None,
            last_review_time: None,
        }
    }

    pub open spec fn spec_is_filtered(&self) -> bool {
        self.original_deck_id.0 != 0
    }

    /// Whether the card is parked in a filtered deck.
    #[verifier::when_used_as_spec(spec_is_filtered)]
    pub fn is_filtered(&self) -> (parked: bool)
        ensures
            parked == self.spec_is_filtered(),
    {
        self.original_deck_id.0 != 0
    }

    pub open spec fn spec_original_or_current_due(&self) -> i32 {
        if self.is_filtered() {
            self.original_due
        } else {
            self.due
        }
    }

    /// The due value that counts: the backup while parked in a filtered
    /// deck, the current one otherwise.
    #[verifier::when_used_as_spec(spec_original_or_current_due)]
    pub fn original_or_current_due(&self) -> (due: i32)
        ensures
            due == self.spec_original_or_current_due(),
    {
        if self.is_filtered() {
            self.original_due
        } else {
            self.due
        }
    }

    pub open spec fn spec_original_or_current_deck_id(&self) -> DeckId {
        self.original_deck_id.or(self.deck_id)
    }

    /// The card's home deck.
    #[verifier::when_used_as_spec(spec_original_or_current_deck_id)]
    pub fn original_or_current_deck_id(&self) -> (deck: DeckId)
        ensures
            deck == self.spec_original_or_current_deck_id(),
    {
        self.original_deck_id.or(self.deck_id)
    }

    pub open spec fn spec_last_position(&self) -> Option<u32> {
        if self.ctype == CardType::New {
            Some(as_unsigned(self.original_or_current_due()) as u32)
        } else {
            self.original_position
        }
    }

    /// The position in the new queue: the current one for a new card, the
    /// one remembered from before it left the queue otherwise.
    #[verifier::when_used_as_spec(spec_last_position)]
    pub fn last_position(&self) -> (position: Option<u32>)
        ensures
            position == self.spec_last_position(),
    {
        if self.ctype == CardType::New {
            let due = self.original_or_current_due();
            if due >= 0 {
                Some(due as u32)
            } else {
                Some((due as i64 + 0x1_0000_0000) as u32)
            }
        } else {
            self.original_position
        }
    }

    /// The card as it is once taken out of its filtered deck ahead of a
    /// reschedule: back in its home deck, the backups cleared.
    pub open spec fn unparked(self) -> Card {
        if self.is_filtered() {
            Card { deck_id: self.original_deck_id, original_deck_id: DeckId(0), original_due: 0, ..self }
        } else {
            self
        }
    }

    /// Returns the card to its home deck and clears the filtered-deck
    /// backups, if it was parked in a filtered deck.
    pub fn remove_from_filtered_deck_before_reschedule(&mut self)
        ensures
            *final(self) == old(self).unparked(),
    {
        if self.original_deck_id.0 != 0 {
            self.deck_id = self.original_deck_id;
            self.original_deck_id = DeckId(0);
            self.original_due = 0;
        }
    }
}

} // verus!
