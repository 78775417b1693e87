//! What an operation on the collection reports back.

use vstd::prelude::*;

verus! {

/// The kind of an operation: the label of its undo step, and what tells
/// listeners how to classify a change.
#[derive(Clone, Copy, Debug, PartialEq, Eq, Structural)]
pub enum Op {
    GradeNow,
    SetDueDate,
    UpdateCard,
}

/// Which parts of the collection an operation touched.
#[derive(Clone, Copy, Debug, PartialEq, Eq, Structural)]
pub struct StateChanges {
    pub card: bool,
    pub config: bool,
    /// Anything at all was changed.
    pub mtime: bool,
}

#[derive(Clone, Copy, Debug, PartialEq, Eq, Structural)]
pub struct OpChanges {
    pub op: Op,
    pub changes: StateChanges,
}

/// The result of one operation: its payload, and a description of what it
/// changed.
#[derive(Debug, PartialEq, Eq)]
pub struct OpOutput<T> {
    pub output: T,
    pub changes: OpChanges,
}

impl StateChanges {
    /// Nothing was touched.
    pub open spec fn none() -> StateChanges {
        StateChanges { card: false, config: false, mtime: false }
    }
}

impl Default for StateChanges {
    fn default() -> (changes: StateChanges)
        ensures
            changes == StateChanges::none(),
    {
        StateChanges { card: false, config: false, mtime: false }
    }
}

impl OpChanges {
    /// The description of an operation that changed nothing.
    pub open spec fn none() -> OpChanges {
        OpChanges { op: Op::UpdateCard, changes: StateChanges::none() }
    }
}

impl Default for OpChanges {
    fn default() -> (changes: OpChanges)
        ensures
            changes == OpChanges::none(),
    {
        OpChanges { op: Op::UpdateCard, changes: StateChanges::default() }
    }
}

} // verus!
