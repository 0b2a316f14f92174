//! Holding and carrying items: the held inventory of a unit, and the goal
//! transitions performed when a pickup or drop-off action completes.

use vstd::prelude::*;

use crate::behavior::{CurrentAction, Goal, UnitAction};
use crate::crafting::{InputInventory, OutputInventory};
use crate::inventory::{transfer_effect, Inventory};
use crate::items::{ItemCount, ItemId, ItemManifest, ItemSlot, TransferError};

verus! {

/// The item(s) that a unit is carrying: a single-slot inventory.
pub struct HeldItem {
    pub inventory: Inventory,
}

impl Default for HeldItem {
    /// A unit starts out carrying nothing, with room for one slot.
    fn default() -> (r: Self)
        ensures
            r.inventory.spec_capacity() == 1,
            r.inventory.slots().len() == 0,
            forall|item_id: ItemId| r.inventory.count_of(item_id) == 0,
    {
        HeldItem { inventory: Inventory::new(1) }
    }
}

impl HeldItem {
    /// The item and quantity held, if any.
    pub fn item_slot(&self) -> (r: Option<&ItemSlot>)
        ensures
            r is Some <==> self.inventory.slots().len() > 0,
            r matches Some(slot) ==> *slot == self.inventory.slots()[0],
    {
        if self.inventory.len() > 0 {
            Some(self.inventory.slot_at(0))
        } else {
            None
        }
    }

    /// The type of item that is being held, if any.
    pub fn item_id(&self) -> (r: Option<ItemId>)
        ensures
            r is Some <==> self.inventory.slots().len() > 0,
            r matches Some(item_id) ==> item_id == self.inventory.slots()[0].item_id,
    {
        match self.item_slot() {
            Some(slot) => Some(slot.item_id()),
            None => None,
        }
    }

    /// The number of items of a single type being held.
    pub fn count(&self) -> (r: usize)
        ensures
            r as nat == if self.inventory.slots().len() > 0 {
                self.inventory.slots()[0].count as nat
            } else {
                0nat
            },
    {
        if let Some(slot) = self.item_slot() {
            slot.count()
        } else {
            0
        }
    }
}

/// The goal a unit adopts once a pickup action has resolved: deliver when no
/// more can be loaded, otherwise keep topping off the same pickup.
pub open spec fn goal_after_pickup(item_id: ItemId, held: HeldItem, manifest: &ItemManifest) -> Goal {
    if held.inventory.spec_is_full(manifest) {
        Goal::DropOff(item_id)
    } else {
        Goal::Pickup(item_id)
    }
}

/// The goal a unit adopts once a drop-off action has resolved: wander when
/// everything has been unloaded, otherwise keep unloading.
pub open spec fn goal_after_dropoff(item_id: ItemId, held: HeldItem) -> Goal {
    if held.inventory.spec_is_empty() {
        Goal::Wander
    } else {
        Goal::DropOff(item_id)
    }
}

/// Resolves a finished pickup: moves one item of the given type from the
/// structure's output buffer into the held inventory and picks the next goal.
pub fn finish_pickup(
    item_id: ItemId,
    output_inventory: &mut OutputInventory,
    held_item: &mut HeldItem,
    item_manifest: &ItemManifest,
) -> (r: Result<Goal, TransferError>)
    requires
        old(output_inventory).inventory.wf(item_manifest),
        old(held_item).inventory.wf(item_manifest),
    ensures
        final(output_inventory).inventory.wf(item_manifest),
        final(held_item).inventory.wf(item_manifest),
        final(held_item).inventory.spec_capacity() == old(held_item).inventory.spec_capacity(),
        r is Err <==> !item_manifest.contains_item(item_id),
        r matches Err(e) ==> e == TransferError::UnknownItem && *final(output_inventory) == *old(
            output_inventory,
        ) && *final(held_item) == *old(held_item),
        r matches Ok(goal) ==> transfer_effect(
            item_id,
            1,
            old(output_inventory).inventory,
            final(output_inventory).inventory,
            old(held_item).inventory,
            final(held_item).inventory,
            item_manifest,
        ) && goal == goal_after_pickup(item_id, *final(held_item), item_manifest),
{
    let one = ItemCount::new(item_id, 1);
    match output_inventory.inventory.transfer_item(&one, &mut held_item.inventory, item_manifest) {
        Err(e) => Err(e),
        Ok(_moved) => {
            if held_item.inventory.is_full(item_manifest) {
                Ok(Goal::DropOff(item_id))
            } else {
                Ok(Goal::Pickup(item_id))
            }
        },
    }
}

/// Resolves a finished drop-off: moves one held item of the given type into
/// the structure's input buffer and picks the next goal.
pub fn finish_dropoff(
    item_id: ItemId,
    input_inventory: &mut InputInventory,
    held_item: &mut HeldItem,
    item_manifest: &ItemManifest,
) -> (r: Result<Goal, TransferError>)
    requires
        old(input_inventory).inventory.wf(item_manifest),
        old(held_item).inventory.wf(item_manifest),
    ensures
        final(input_inventory).inventory.wf(item_manifest),
        final(held_item).inventory.wf(item_manifest),
        final(held_item).inventory.spec_capacity() == old(held_item).inventory.spec_capacity(),
        r is Err <==> !item_manifest.contains_item(item_id),
        r matches Err(e) ==> e == TransferError::UnknownItem && *final(input_inventory) == *old(
            input_inventory,
        ) && *final(held_item) == *old(held_item),
        r matches Ok(goal) ==> transfer_effect(
            item_id,
            1,
            old(held_item).inventory,
            final(held_item).inventory,
            old(input_inventory).inventory,
            final(input_inventory).inventory,
            item_manifest,
        ) && goal == goal_after_dropoff(item_id, *final(held_item)),
{
    let one = ItemCount::new(item_id, 1);
    match held_item.inventory.transfer_item(&one, &mut input_inventory.inventory, item_manifest) {
        Err(e) => Err(e),
        Ok(_moved) => {
            if held_item.inventory.is_empty() {
                Ok(Goal::Wander)
            } else {
                Ok(Goal::DropOff(item_id))
            }
        },
    }
}

/// Performs the transfer a finished action calls for and commits the unit's
/// next goal, for one unit.  The caller resolves the action's counterpart
/// entity beforehand and passes whatever inventory the lookup yielded; a
/// missing counterpart (a despawned structure) is routine and sends the unit
/// wandering.  An action that has not finished, or whose kind is neither
/// pickup nor drop-off, changes nothing.
pub fn pickup_and_drop_items(
    current_action: &CurrentAction,
    current_goal: &mut Goal,
    held_item: &mut HeldItem,
    output_inventory: &mut Option<OutputInventory>,
    input_inventory: &mut Option<InputInventory>,
    item_manifest: &ItemManifest,
) -> (r: Result<(), TransferError>)
    requires
        old(held_item).inventory.wf(item_manifest),
        *old(output_inventory) matches Some(out) ==> out.inventory.wf(item_manifest),
        *old(input_inventory) matches Some(inp) ==> inp.inventory.wf(item_manifest),
    ensures
        final(held_item).inventory.wf(item_manifest),
        final(held_item).inventory.spec_capacity() == old(held_item).inventory.spec_capacity(),
        !current_action.spec_finished() ==> (r is Ok && *final(current_goal) == *old(current_goal)
            && *final(held_item) == *old(held_item) && *final(output_inventory) == *old(
        output_inventory,
        ) && *final(input_inventory) == *old(input_inventory)),
        (current_action.spec_finished() && !(current_action.spec_action() is PickUp) && !(
        current_action.spec_action() is DropOff)) ==> (r is Ok && *final(current_goal) == *old(
            current_goal,
        ) && *final(held_item) == *old(held_item) && *final(output_inventory) == *old(
        output_inventory,
        ) && *final(input_inventory) == *old(input_inventory)),
        (current_action.spec_finished() && current_action.spec_action() is PickUp && *old(
        output_inventory,
        ) is None) ==> (r is Ok && *final(current_goal) == Goal::Wander && *final(held_item)
            == *old(held_item) && *final(output_inventory) is None && *final(input_inventory)
            == *old(input_inventory)),
        (current_action.spec_finished() && current_action.spec_action() is DropOff && *old(
        input_inventory,
        ) is None) ==> (r is Ok && *final(current_goal) == Goal::Wander && *final(held_item)
            == *old(held_item) && *final(input_inventory) is None && *final(output_inventory)
            == *old(output_inventory)),
        current_action.spec_finished() ==> (current_action.spec_action()
            matches UnitAction::PickUp { item_id, output_entity } ==> (*old(output_inventory)
            matches Some(out0) ==> ({
            &&& *final(input_inventory) == *old(input_inventory)
            &&& *final(output_inventory) matches Some(out1) && (if item_manifest.contains_item(
                item_id,
            ) {
                &&& r is Ok
                &&& transfer_effect(
                    item_id,
                    1,
                    out0.inventory,
                    out1.inventory,
                    old(held_item).inventory,
                    final(held_item).inventory,
                    item_manifest,
                )
                &&& *final(current_goal) == goal_after_pickup(
                    item_id,
                    *final(held_item),
                    item_manifest,
                )
            } else {
                &&& r == Err::<(), TransferError>(TransferError::UnknownItem)
                &&& out1 == out0
                &&& *final(held_item) == *old(held_item)
                &&& *final(current_goal) == *old(current_goal)
            })
        }))),
        current_action.spec_finished() ==> (current_action.spec_action()
            matches UnitAction::DropOff { item_id, input_entity } ==> (*old(input_inventory)
            matches Some(inp0) ==> ({
            &&& *final(output_inventory) == *old(output_inventory)
            &&& *final(input_inventory) matches Some(inp1) && (if item_manifest.contains_item(
                item_id,
            ) {
                &&& r is Ok
                &&& transfer_effect(
                    item_id,
                    1,
                    old(held_item).inventory,
                    final(held_item).inventory,
                    inp0.inventory,
                    inp1.inventory,
                    item_manifest,
                )
                &&& *final(current_goal) == goal_after_dropoff(item_id, *final(held_item))
            } else {
                &&& r == Err::<(), TransferError>(TransferError::UnknownItem)
                &&& inp1 == inp0
                &&& *final(held_item) == *old(held_item)
                &&& *final(current_goal) == *old(current_goal)
            })
        }))),
{
    if !current_action.finished() {
        return Ok(());
    }
    let action = *current_action.action();
    match action {
        UnitAction::PickUp { item_id, output_entity: _ } => {
            match output_inventory.take() {
                Some(mut out) => {
                    let res = finish_pickup(item_id, &mut out, held_item, item_manifest);
                    *output_inventory = Some(out);
                    match res {
                        Ok(goal) => {
                            *current_goal = goal;
                            Ok(())
                        },
                        Err(e) => Err(e),
                    }
                },
                None => {
                    *current_goal = Goal::Wander;
                    Ok(())
                },
            }
        },
        UnitAction::DropOff { item_id, input_entity: _ } => {
            match input_inventory.take() {
                Some(mut inp) => {
                    let res = finish_dropoff(item_id, &mut inp, held_item, item_manifest);
                    *input_inventory = Some(inp);
                    match res {
                        Ok(goal) => {
                            *current_goal = goal;
                            Ok(())
                        },
                        Err(e) => Err(e),
                    }
                },
                None => {
                    *current_goal = Goal::Wander;
                    Ok(())
                },
            }
        },
        UnitAction::Idle => Ok(()),
    }
}

} // verus!
