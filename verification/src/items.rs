//! Item identity, quantities, and the static item manifest.

use vstd::prelude::*;

verus! {

/// Opaque, equality-comparable identifier of an item type.
#[derive(Clone, Copy, PartialEq, Eq, Structural, Debug, Hash)]
pub struct ItemId(pub u64);

/// The one hard failure of the transfer machinery: the requested item type
/// is not listed in the manifest, which signals desynchronization between
/// the manifest and the code that issued the request.  Capacity and
/// availability shortfalls are never errors; they are reported as data.
#[derive(Clone, Copy, PartialEq, Eq, Structural, Debug)]
pub enum TransferError {
    UnknownItem,
}

/// A requested or actual quantity of one item type.  The count carries no
/// bound of its own; bounding happens at the inventory level.
#[derive(Clone, Copy, PartialEq, Eq, Structural, Debug)]
pub struct ItemCount {
    pub item_id: ItemId,
    pub count: usize,
}

impl ItemCount {
    pub fn new(item_id: ItemId, count: usize) -> (r: ItemCount)
        ensures
            r.item_id == item_id,
            r.count == count,
    {
        ItemCount { item_id, count }
    }
}

/// One manifest entry: the definition the manifest stores for an item type.
#[derive(Clone, Copy, PartialEq, Eq, Structural, Debug)]
pub struct ItemData {
    pub item_id: ItemId,
    pub max_stack_size: usize,
}

/// First-match lookup of an item id in a list of manifest entries.
pub open spec fn lookup_in(entries: Seq<ItemData>, item_id: ItemId) -> Option<nat>
    decreases entries.len(),
{
    if entries.len() == 0 {
        None
    } else if entries[0].item_id == item_id {
        Some(entries[0].max_stack_size as nat)
    } else {
        lookup_in(entries.drop_first(), item_id)
    }
}

proof fn lemma_lookup_in_push(entries: Seq<ItemData>, data: ItemData, item_id: ItemId)
    ensures
        lookup_in(entries.push(data), item_id) == if lookup_in(entries, item_id) is Some {
            lookup_in(entries, item_id)
        } else if data.item_id == item_id {
            Some(data.max_stack_size as nat)
        } else {
            None
        },
    decreases entries.len(),
{
    if entries.len() == 0 {
        assert(entries.push(data)[0] == data);
        assert(entries.push(data).drop_first() =~= Seq::<ItemData>::empty());
        assert(lookup_in(entries.push(data).drop_first(), item_id) is None);
        assert(lookup_in(entries, item_id) is None);
    } else {
        assert(entries.push(data)[0] == entries[0]);
        assert(entries.push(data).drop_first() =~= entries.drop_first().push(data));
        lemma_lookup_in_push(entries.drop_first(), data, item_id);
        assert(lookup_in(entries, item_id) == if entries[0].item_id == item_id {
            Some(entries[0].max_stack_size as nat)
        } else {
            lookup_in(entries.drop_first(), item_id)
        });
    }
}

/// Static mapping from item type to its definition.  Populated exhaustively
/// at startup and read-only afterwards; the transfer machinery only ever
/// borrows it.
pub struct ItemManifest {
    entries: Vec<ItemData>,
}

impl ItemManifest {
    /// The definition stored for an item id, if any.
    pub closed spec fn spec_max_stack(&self, item_id: ItemId) -> Option<nat> {
        lookup_in(self.entries@, item_id)
    }

    /// Whether the manifest knows this item type.
    pub open spec fn contains_item(&self, item_id: ItemId) -> bool {
        self.spec_max_stack(item_id) is Some
    }

    /// The per-slot bound for a known item type.
    pub open spec fn stack_limit(&self, item_id: ItemId) -> nat
        recommends
            self.contains_item(item_id),
    {
        self.spec_max_stack(item_id)->0
    }

    /// An empty manifest, to be filled at startup.
    pub fn new() -> (m: ItemManifest)
        ensures
            forall|item_id: ItemId| m.spec_max_stack(item_id) is None,
    {
        let m = ItemManifest { entries: Vec::new() };
        proof {
            assert forall|item_id: ItemId| m.spec_max_stack(item_id) is None by {
                assert(lookup_in(m.entries@, item_id) is None);
            }
        }
        m
    }

    /// Registers a new item type with its (positive) maximum stack size.
    pub fn insert(&mut self, item_id: ItemId, max_stack_size: usize)
        requires
            max_stack_size >= 1,
            !old(self).contains_item(item_id),
        ensures
            final(self).contains_item(item_id),
            final(self).stack_limit(item_id) == max_stack_size as nat,
            forall|other: ItemId|
                other != item_id ==> final(self).spec_max_stack(other) == old(
                    self,
                ).spec_max_stack(other),
    {
        let data = ItemData { item_id, max_stack_size };
        proof {
            assert forall|other: ItemId| true implies lookup_in(
                self.entries@.push(data),
                other,
            ) == if lookup_in(self.entries@, other) is Some {
                lookup_in(self.entries@, other)
            } else if data.item_id == other {
                Some(data.max_stack_size as nat)
            } else {
                None
            } by {
                lemma_lookup_in_push(self.entries@, data, other);
            }
        }
        self.entries.push(data);
    }

    /// The maximum stack size recorded for an item type, or `None` for an
    /// unknown id.  Unknown ids indicate a logic error upstream; returning
    /// the absence explicitly lets the caller surface it as a hard failure.
    pub fn max_stack_size(&self, item_id: ItemId) -> (r: Option<usize>)
        ensures
            r is Some <==> self.contains_item(item_id),
            r matches Some(m) ==> m as nat == self.stack_limit(item_id),
    {
        let n: usize = self.entries.len();
        let mut i: usize = 0;
        proof {
            assert(self.entries@.skip(0) =~= self.entries@);
        }
        while i < n
            invariant
                i <= n,
                n == self.entries@.len(),
                lookup_in(self.entries@.skip(i as int), item_id) == self.spec_max_stack(item_id),
            decreases n - i,
        {
            let data = self.entries[i];
            proof {
                assert(self.entries@.skip(i as int)[0] == data);
                assert(self.entries@.skip(i as int).drop_first() =~= self.entries@.skip(
                    i as int + 1,
                ));
            }
            if data.item_id == item_id {
                return Some(data.max_stack_size);
            }
            i = i + 1;
        }
        proof {
            assert(self.entries@.skip(n as int) =~= Seq::<ItemData>::empty());
        }
        None
    }
}

/// A slot's worth of one item type.  Inside an inventory the count is bounded
/// by the manifest's maximum stack size for the item; a slot of count zero is
/// logically empty and is never stored.
#[derive(Clone, Copy, PartialEq, Eq, Structural, Debug)]
pub struct ItemSlot {
    pub item_id: ItemId,
    pub count: usize,
}

impl ItemSlot {
    /// Checked construction: fails (with `None`) rather than clamps when the
    /// count exceeds the manifest bound or the item type is unknown, since
    /// either indicates a logic error upstream.
    pub fn new(item_id: ItemId, count: usize, manifest: &ItemManifest) -> (r: Option<ItemSlot>)
        ensures
            r is Some <==> (manifest.contains_item(item_id) && count as nat <= manifest.stack_limit(
                item_id,
            )),
            r matches Some(s) ==> s == (ItemSlot { item_id, count }),
    {
        match manifest.max_stack_size(item_id) {
            Some(limit) => if count <= limit {
                Some(ItemSlot { item_id, count })
            } else {
                None
            },
            None => None,
        }
    }

    /// The item type held in this slot.
    pub fn item_id(&self) -> (r: ItemId)
        ensures
            r == self.item_id,
    {
        self.item_id
    }

    /// How many items this slot holds.
    pub fn count(&self) -> (r: usize)
        ensures
            r == self.count,
    {
        self.count
    }
}

} // verus!
