//! The undo log: what each operation changed, with the values from before.

use vstd::prelude::*;

use crate::card::Card;
use crate::config::StringKey;
use crate::ops::Op;
use crate::ops::StateChanges;
use crate::revlog::RevlogEntry;
use crate::text::text_of;

verus! {

/// A setting that was overwritten, with its earlier value.
#[derive(Debug, PartialEq, Eq)]
pub struct ConfigChange {
    pub key: StringKey,
    pub previous: Option<String>,
}

/// One recorded change.
#[derive(Debug, PartialEq, Eq)]
pub enum UndoableChange {
    /// A card was overwritten; this is the card as it was.
    Card(Card),
    /// An entry was added to the review log.
    Revlog(RevlogEntry),
    Config(ConfigChange),
}

/// A recorded change as plain data.
pub enum ChangeView {
    Card(Card),
    Revlog(RevlogEntry),
    Config(StringKey, Option<Seq<char>>),
}

impl View for UndoableChange {
    type V = ChangeView;

    open spec fn view(&self) -> ChangeView {
        match self {
            UndoableChange::Card(card) => ChangeView::Card(*card),
            UndoableChange::Revlog(entry) => ChangeView::Revlog(*entry),
            UndoableChange::Config(change) => ChangeView::Config(
                change.key,
                text_of(change.previous),
            ),
        }
    }
}

/// The changes of one operation, in the order they were made.
#[derive(Debug, PartialEq, Eq)]
pub struct UndoableOp {
    pub kind: Op,
    pub changes: Vec<UndoableChange>,
}

/// An undo step as plain data.
pub struct StepView {
    pub kind: Op,
    pub changes: Seq<ChangeView>,
}

pub open spec fn change_views(changes: Seq<UndoableChange>) -> Seq<ChangeView> {
    changes.map_values(|change: UndoableChange| change@)
}

impl View for UndoableOp {
    type V = StepView;

    open spec fn view(&self) -> StepView {
        StepView { kind: self.kind, changes: change_views(self.changes@) }
    }
}

pub open spec fn step_views(steps: Seq<UndoableOp>) -> Seq<StepView> {
    steps.map_values(|step: UndoableOp| step@)
}

impl StepView {
    /// Which parts of the collection the step's changes touched.
    pub open spec fn state_changes(self) -> StateChanges {
        StateChanges {
            card: exists|i: int| 0 <= i < self.changes.len() && #[trigger] self.changes[i] is Card,
            config: exists|i: int|
                0 <= i < self.changes.len() && #[trigger] self.changes[i] is Config,
            mtime: self.changes.len() > 0,
        }
    }
}

impl UndoableOp {
    /// A step of the given kind with nothing recorded yet.
    pub fn new(kind: Op) -> (step: UndoableOp)
        ensures
            step@ == (StepView { kind, changes: Seq::empty() }),
    {
        let step = UndoableOp { kind, changes: Vec::new() };
        assert(step@.changes =~= Seq::<ChangeView>::empty());
        step
    }

    /// Appends a change to the step.
    pub fn record(&mut self, change: UndoableChange)
        ensures
            final(self)@ == (StepView {
                kind: old(self)@.kind,
                changes: old(self)@.changes.push(change@),
            }),
    {
        self.changes.push(change);
        assert(self@.changes =~= old(self)@.changes.push(change@));
    }

    /// Which parts of the collection the recorded changes touched.
    pub fn state_changes(&self) -> (touched: StateChanges)
        ensures
            touched == self@.state_changes(),
    {
        let mut touched = StateChanges { card: false, config: false, mtime: self.changes.len() > 0 };
        let mut at: usize = 0;
        while at < self.changes.len()
            invariant
                at <= self.changes@.len(),
                touched.mtime == (self.changes@.len() > 0),
                touched.card == exists|i: int| 0 <= i < at && #[trigger] self@.changes[i] is Card,
                touched.config == exists|i: int|
                    0 <= i < at && #[trigger] self@.changes[i] is Config,
            decreases self.changes@.len() - at,
        {
            match &self.changes[at] {
                UndoableChange::Card(_) => {
                    touched.card = true;
                },
                UndoableChange::Revlog(_) => {},
                UndoableChange::Config(_) => {
                    touched.config = true;
                },
            }
            assert(self@.changes[at as int] == self.changes@[at as int]@);
            at = at + 1;
        }
        touched
    }
}

} // verus!
