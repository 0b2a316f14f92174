//! A unit goal/action logistics engine: bounded inventories of item slots,
//! a partial-effect transfer operation between them, and the goal state
//! machine that retargets a carrying unit after each pickup or drop-off.

pub mod behavior;
pub mod crafting;
pub mod inventory;
pub mod item_interaction;
pub mod items;
