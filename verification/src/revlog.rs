//! The review log.

use vstd::prelude::*;

use crate::card::Card;
use crate::card::CardId;
use crate::card::Usn;

verus! {

#[derive(Clone, Copy, Debug, PartialEq, Eq, Structural)]
pub enum RevlogReviewKind {
    Learning,
    Review,
    Relearning,
    Filtered,
    /// The card was rescheduled by hand.
    Manual,
    Rescheduled,
}

#[derive(Clone, Copy, Debug, PartialEq, Eq, Structural)]
pub struct RevlogEntry {
    pub cid: CardId,
    pub usn: Usn,
    /// The answer button pressed; zero for entries not made by answering.
    pub button_chosen: u8,
    /// The interval after the change, in days.
    pub interval: i32,
    /// The interval before the change, in days.
    pub last_interval: i32,
    /// The ease factor after the change, in thousandths.
    pub ease_factor: u32,
    pub taken_millis: u32,
    pub review_kind: RevlogReviewKind,
}

/// A number of days as the log holds it: capped at the largest value a
/// signed 32-bit field can take.
pub open spec fn logged_days(days: u32) -> i32 {
    if days > i32::MAX {
        i32::MAX
    } else {
        days as i32
    }
}

fn days_for_log(days: u32) -> (logged: i32)
    ensures
        logged == logged_days(days),
{
    if days > 0x7fff_ffff {
        0x7fff_ffff
    } else {
        days as i32
    }
}

impl RevlogEntry {
    pub open spec fn spec_manually_scheduled(card: Card, original_interval: u32, usn: Usn) -> RevlogEntry {
        RevlogEntry {
            cid: card.id,
            usn,
            button_chosen: 0,
            interval: logged_days(card.interval),
            last_interval: logged_days(original_interval),
            ease_factor: card.ease_factor as u32,
            taken_millis: 0,
            review_kind: RevlogReviewKind::Manual,
        }
    }

    /// The entry that records a reschedule by hand: the card as it is now,
    /// and the interval it had before.
    #[verifier::when_used_as_spec(spec_manually_scheduled)]
    pub fn manually_scheduled(card: Card, original_interval: u32, usn: Usn) -> (entry: RevlogEntry)
        ensures
            entry == RevlogEntry::spec_manually_scheduled(card, original_interval, usn),
    {
        RevlogEntry {
            cid: card.id,
            usn,
            button_chosen: 0,
            interval: days_for_log(card.interval),
            last_interval: days_for_log(original_interval),
            ease_factor: card.ease_factor as u32,
            taken_millis: 0,
            review_kind: RevlogReviewKind::Manual,
        }
    }
}

} // verus!
