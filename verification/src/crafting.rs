//! The two inventory roles a structure exposes to logistics.

use vstd::prelude::*;

use crate::inventory::Inventory;

verus! {

/// The buffer through which a structure receives items from units.
pub struct InputInventory {
    pub inventory: Inventory,
}

/// The buffer from which a structure dispenses items to units.
pub struct OutputInventory {
    pub inventory: Inventory,
}

} // verus!
