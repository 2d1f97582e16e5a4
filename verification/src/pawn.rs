//! The two-state machine tracking whether this client currently
//! controls a pawn, and which one.

use vstd::prelude::*;

verus! {

/// Key of a replicated actor or pawn. Assigned by the server, stable
/// for an actor's lifetime, unique at any instant, but may be reused
/// after removal.
pub type ActorKey = u16;

/// Whether a pawn is currently assigned to this client.
#[derive(Clone, Copy, PartialEq, Eq, Structural, Debug)]
pub enum AssignmentState {
    Unassigned,
    Assigned(ActorKey),
}

/// The state after an assignment event: the newest key always wins,
/// even when a pawn was already assigned.
pub open spec fn assign_step(st: AssignmentState, key: ActorKey) -> AssignmentState {
    AssignmentState::Assigned(key)
}

/// The state after an unassignment event: back to `Unassigned` when
/// the key matches the current assignment; a mismatched key is a
/// benign race and leaves the state unchanged.
pub open spec fn unassign_step(st: AssignmentState, key: ActorKey) -> AssignmentState {
    match st {
        AssignmentState::Assigned(cur) => if cur == key {
            AssignmentState::Unassigned
        } else {
            st
        },
        AssignmentState::Unassigned => st,
    }
}

/// Tracks pawn assignment over the session's lifetime; starts
/// unassigned, never reaches a terminal state.
pub struct PawnAssignment {
    state: AssignmentState,
}

impl PawnAssignment {
    /// The current assignment state.
    pub closed spec fn state(self) -> AssignmentState {
        self.state
    }

    /// A fresh, unassigned tracker.
    pub fn new() -> (r: Self)
        ensures
            r.state() == AssignmentState::Unassigned,
    {
        PawnAssignment { state: AssignmentState::Unassigned }
    }

    /// Records an assignment. A second assignment without an
    /// intervening unassignment silently overwrites: the newest key is
    /// honored.
    pub fn assign(&mut self, key: ActorKey)
        ensures
            final(self).state() == assign_step(old(self).state(), key),
    {
        self.state = AssignmentState::Assigned(key);
    }

    /// Records an unassignment. Only a key matching the current
    /// assignment clears it; any other key is a no-op.
    pub fn unassign(&mut self, key: ActorKey)
        ensures
            final(self).state() == unassign_step(old(self).state(), key),
    {
        match self.state {
            AssignmentState::Assigned(cur) => {
                if cur == key {
                    self.state = AssignmentState::Unassigned;
                }
            }
            AssignmentState::Unassigned => {}
        }
    }

    /// The currently assigned pawn key, if any.
    pub fn assigned_key(&self) -> (r: Option<ActorKey>)
        ensures
            r == (match self.state() {
                AssignmentState::Assigned(k) => Some(k),
                AssignmentState::Unassigned => None::<ActorKey>,
            }),
    {
        match self.state {
            AssignmentState::Assigned(k) => Some(k),
            AssignmentState::Unassigned => None,
        }
    }
}

/// Assigning a key and then unassigning that same key returns the
/// state to `Unassigned`, whatever it was before.
pub proof fn lemma_assign_unassign_round_trip(st: AssignmentState, key: ActorKey)
    ensures
        unassign_step(assign_step(st, key), key) == AssignmentState::Unassigned,
{
}

/// Unassigning with a key other than the currently assigned one
/// leaves the state unchanged.
pub proof fn lemma_unassign_mismatch_is_noop(cur: ActorKey, other: ActorKey)
    requires
        cur != other,
    ensures
        unassign_step(AssignmentState::Assigned(cur), other)
            == AssignmentState::Assigned(cur),
{
}

} // verus!
