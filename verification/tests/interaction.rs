//! Goal transitions driven by finished pickup and drop-off actions.

use logistics::behavior::{CurrentAction, Entity, Goal, UnitAction};
use logistics::crafting::{InputInventory, OutputInventory};
use logistics::inventory::Inventory;
use logistics::item_interaction::{pickup_and_drop_items, HeldItem};
use logistics::items::{ItemCount, ItemId, ItemManifest, TransferError};

const X: ItemId = ItemId(1);

fn manifest(max_stack_size: usize) -> ItemManifest {
    let mut manifest = ItemManifest::new();
    manifest.insert(X, max_stack_size);
    manifest
}

fn output_holding(capacity: usize, amount: usize, manifest: &ItemManifest) -> OutputInventory {
    let mut inventory = Inventory::new(capacity);
    if amount > 0 {
        inventory.add_items(&ItemCount::new(X, amount), manifest).unwrap();
    }
    OutputInventory { inventory }
}

fn held_holding(amount: usize, manifest: &ItemManifest) -> HeldItem {
    let mut held = HeldItem::default();
    if amount > 0 {
        held.inventory.add_items(&ItemCount::new(X, amount), manifest).unwrap();
    }
    held
}

fn pickup_action(finished: bool) -> CurrentAction {
    CurrentAction::new(UnitAction::PickUp { item_id: X, output_entity: Entity(7) }, finished)
}

fn dropoff_action(finished: bool) -> CurrentAction {
    CurrentAction::new(UnitAction::DropOff { item_id: X, input_entity: Entity(8) }, finished)
}

#[test]
fn held_item_starts_empty() {
    let held = HeldItem::default();
    assert_eq!(held.inventory.capacity(), 1);
    assert!(held.inventory.is_empty());
    assert!(held.item_slot().is_none());
    assert!(held.item_id().is_none());
    assert_eq!(held.count(), 0);
}

#[test]
fn held_item_reports_slot() {
    let manifest = manifest(5);
    let held = held_holding(2, &manifest);
    let slot = held.item_slot().unwrap();
    assert_eq!(slot.item_id(), X);
    assert_eq!(slot.count(), 2);
    assert_eq!(held.item_id(), Some(X));
    assert_eq!(held.count(), 2);
}

#[test]
fn pickup_fills_unit_and_swaps_to_dropoff() {
    let manifest = manifest(1);
    let mut held = HeldItem::default();
    let mut output = Some(output_holding(1, 1, &manifest));
    let mut input: Option<InputInventory> = None;
    let mut goal = Goal::Pickup(X);
    let result = pickup_and_drop_items(
        &pickup_action(true),
        &mut goal,
        &mut held,
        &mut output,
        &mut input,
        &manifest,
    );
    assert_eq!(result, Ok(()));
    assert_eq!(held.count(), 1);
    assert_eq!(held.item_id(), Some(X));
    assert_eq!(goal, Goal::DropOff(X));
    assert!(output.unwrap().inventory.is_empty());
}

#[test]
fn pickup_with_room_left_keeps_picking_up() {
    let manifest = manifest(5);
    let mut held = held_holding(2, &manifest);
    let mut output = Some(output_holding(1, 3, &manifest));
    let mut input: Option<InputInventory> = None;
    let mut goal = Goal::Pickup(X);
    let result = pickup_and_drop_items(
        &pickup_action(true),
        &mut goal,
        &mut held,
        &mut output,
        &mut input,
        &manifest,
    );
    assert_eq!(result, Ok(()));
    assert_eq!(held.count(), 3);
    assert_eq!(goal, Goal::Pickup(X));
    assert_eq!(output.unwrap().inventory.count_up_to(X, usize::MAX), 2);
}

#[test]
fn pickup_with_missing_structure_wanders() {
    let manifest = manifest(1);
    let mut held = HeldItem::default();
    let mut output: Option<OutputInventory> = None;
    let mut input: Option<InputInventory> = None;
    let mut goal = Goal::Pickup(X);
    let result = pickup_and_drop_items(
        &pickup_action(true),
        &mut goal,
        &mut held,
        &mut output,
        &mut input,
        &manifest,
    );
    assert_eq!(result, Ok(()));
    assert_eq!(goal, Goal::Wander);
    assert!(held.inventory.is_empty());
    assert!(output.is_none());
}

#[test]
fn dropoff_of_last_item_wanders() {
    let manifest = manifest(1);
    let mut held = held_holding(1, &manifest);
    let mut output: Option<OutputInventory> = None;
    let mut input = Some(InputInventory { inventory: Inventory::new(1) });
    let mut goal = Goal::DropOff(X);
    let result = pickup_and_drop_items(
        &dropoff_action(true),
        &mut goal,
        &mut held,
        &mut output,
        &mut input,
        &manifest,
    );
    assert_eq!(result, Ok(()));
    assert!(held.inventory.is_empty());
    assert_eq!(held.count(), 0);
    assert_eq!(goal, Goal::Wander);
    assert_eq!(input.unwrap().inventory.count_up_to(X, usize::MAX), 1);
}

#[test]
fn dropoff_with_items_left_keeps_dropping_off() {
    let manifest = manifest(5);
    let mut held = held_holding(2, &manifest);
    let mut output: Option<OutputInventory> = None;
    let mut input = Some(InputInventory { inventory: Inventory::new(1) });
    let mut goal = Goal::DropOff(X);
    let result = pickup_and_drop_items(
        &dropoff_action(true),
        &mut goal,
        &mut held,
        &mut output,
        &mut input,
        &manifest,
    );
    assert_eq!(result, Ok(()));
    assert_eq!(held.count(), 1);
    assert_eq!(goal, Goal::DropOff(X));
    assert_eq!(input.unwrap().inventory.count_up_to(X, usize::MAX), 1);
}

#[test]
fn dropoff_with_missing_structure_wanders() {
    let manifest = manifest(1);
    let mut held = held_holding(1, &manifest);
    let mut output: Option<OutputInventory> = None;
    let mut input: Option<InputInventory> = None;
    let mut goal = Goal::DropOff(X);
    let result = pickup_and_drop_items(
        &dropoff_action(true),
        &mut goal,
        &mut held,
        &mut output,
        &mut input,
        &manifest,
    );
    assert_eq!(result, Ok(()));
    assert_eq!(goal, Goal::Wander);
    // the transfer is skipped entirely: the unit keeps what it holds
    assert_eq!(held.count(), 1);
}

#[test]
fn unhandled_action_is_a_no_op() {
    let manifest = manifest(1);
    let mut held = held_holding(1, &manifest);
    let mut output = Some(output_holding(1, 1, &manifest));
    let mut input = Some(InputInventory { inventory: Inventory::new(1) });
    let mut goal = Goal::Pickup(X);
    let action = CurrentAction::new(UnitAction::Idle, true);
    let result =
        pickup_and_drop_items(&action, &mut goal, &mut held, &mut output, &mut input, &manifest);
    assert_eq!(result, Ok(()));
    assert_eq!(goal, Goal::Pickup(X));
    assert_eq!(held.count(), 1);
    assert_eq!(output.unwrap().inventory.count_up_to(X, usize::MAX), 1);
    assert!(input.unwrap().inventory.is_empty());
}

#[test]
fn unfinished_action_is_a_no_op() {
    let manifest = manifest(1);
    let mut held = HeldItem::default();
    let mut output = Some(output_holding(1, 1, &manifest));
    let mut input: Option<InputInventory> = None;
    let mut goal = Goal::Pickup(X);
    let result = pickup_and_drop_items(
        &pickup_action(false),
        &mut goal,
        &mut held,
        &mut output,
        &mut input,
        &manifest,
    );
    assert_eq!(result, Ok(()));
    assert_eq!(goal, Goal::Pickup(X));
    assert!(held.inventory.is_empty());
    assert_eq!(output.unwrap().inventory.count_up_to(X, usize::MAX), 1);
}

#[test]
fn pickup_of_unknown_item_propagates_the_fault() {
    let manifest = manifest(1);
    let unknown = ItemId(9);
    let mut held = HeldItem::default();
    let mut output = Some(output_holding(1, 1, &manifest));
    let mut input: Option<InputInventory> = None;
    let mut goal = Goal::Pickup(unknown);
    let action = CurrentAction::new(
        UnitAction::PickUp { item_id: unknown, output_entity: Entity(7) },
        true,
    );
    let result =
        pickup_and_drop_items(&action, &mut goal, &mut held, &mut output, &mut input, &manifest);
    assert_eq!(result, Err(TransferError::UnknownItem));
    assert_eq!(goal, Goal::Pickup(unknown));
    assert!(held.inventory.is_empty());
    assert_eq!(output.unwrap().inventory.count_up_to(X, usize::MAX), 1);
}

#[test]
fn current_action_reports_payload() {
    let action = pickup_action(true);
    assert!(action.finished());
    assert_eq!(*action.action(), UnitAction::PickUp { item_id: X, output_entity: Entity(7) });
    let pending = dropoff_action(false);
    assert!(!pending.finished());
}
