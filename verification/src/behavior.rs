//! Unit goals and the actions whose completion drives goal transitions.

use vstd::prelude::*;

use crate::items::ItemId;

verus! {

/// An opaque handle naming a world entity.  It is a weak reference: the
/// entity it names may be gone by the time the handle is looked up, so every
/// lookup yields an optional result.
#[derive(Clone, Copy, PartialEq, Eq, Structural, Debug, Hash)]
pub struct Entity(pub u64);

/// A unit's current high-level intent.  Exactly one is active per unit; it
/// is overwritten on transition, never queued.
#[derive(Clone, Copy, PartialEq, Eq, Structural, Debug)]
pub enum Goal {
    /// Nothing to do; roam until a new goal is assigned.
    Wander,
    /// Gather more of one item type.
    Pickup(ItemId),
    /// Deliver the held items of one item type.
    DropOff(ItemId),
}

/// What a unit is doing right now.  Only the two transfer actions are
/// handled by this subsystem; any other kind passes through untouched.
#[derive(Clone, Copy, PartialEq, Eq, Structural, Debug)]
pub enum UnitAction {
    /// An action kind outside this subsystem's concern.
    Idle,
    /// Load items of one type from the output buffer of a structure.
    PickUp { item_id: ItemId, output_entity: Entity },
    /// Unload items of one type into the input buffer of a structure.
    DropOff { item_id: ItemId, input_entity: Entity },
}

/// An action together with whether it has completed this tick.  Completion
/// is decided by the external action-progress collaborator; this subsystem
/// only trusts the recorded flag.
#[derive(Clone, Copy, PartialEq, Eq, Structural, Debug)]
pub struct CurrentAction {
    action: UnitAction,
    finished: bool,
}

impl CurrentAction {
    /// The action being performed.
    pub closed spec fn spec_action(&self) -> UnitAction {
        self.action
    }

    /// Whether the action has completed this tick.
    pub closed spec fn spec_finished(&self) -> bool {
        self.finished
    }

    pub fn new(action: UnitAction, finished: bool) -> (r: CurrentAction)
        ensures
            r.spec_action() == action,
            r.spec_finished() == finished,
    {
        CurrentAction { action, finished }
    }

    /// The action being performed.
    pub fn action(&self) -> (a: &UnitAction)
        ensures
            *a == self.spec_action(),
    {
        &self.action
    }

    /// Whether the action has completed this tick.
    pub fn finished(&self) -> (f: bool)
        ensures
            f == self.spec_finished(),
    {
        self.finished
    }
}

} // verus!
