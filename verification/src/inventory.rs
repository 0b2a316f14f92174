//! Fixed-capacity inventories of item slots and the transfer operation that
//! moves bounded quantities between them.

use vstd::prelude::*;

use crate::items::{ItemCount, ItemId, ItemManifest, ItemSlot, TransferError};

verus! {

/// The smaller of two integers.
pub open spec fn min2(a: int, b: int) -> int {
    if a <= b {
        a
    } else {
        b
    }
}

/// The smallest of three integers.
pub open spec fn min3(a: int, b: int, c: int) -> int {
    min2(a, min2(b, c))
}

/// Total number of items of one type held across a sequence of slots.
pub open spec fn count_in(slots: Seq<ItemSlot>, item_id: ItemId) -> nat
    decreases slots.len(),
{
    if slots.len() == 0 {
        0
    } else {
        (if slots[0].item_id == item_id {
            slots[0].count as nat
        } else {
            0nat
        }) + count_in(slots.drop_first(), item_id)
    }
}

/// Total room left for one item type across the matching slots of a
/// sequence, with each slot capped at `max`.
pub open spec fn gaps_in(slots: Seq<ItemSlot>, item_id: ItemId, max: nat) -> nat
    decreases slots.len(),
{
    if slots.len() == 0 {
        0
    } else {
        (if slots[0].item_id == item_id && slots[0].count as nat <= max {
            (max - slots[0].count as nat) as nat
        } else {
            0nat
        }) + gaps_in(slots.drop_first(), item_id, max)
    }
}

proof fn lemma_count_in_push(slots: Seq<ItemSlot>, slot: ItemSlot, item_id: ItemId)
    ensures
        count_in(slots.push(slot), item_id) == count_in(slots, item_id) + (
        if slot.item_id == item_id {
            slot.count as nat
        } else {
            0nat
        }),
    decreases slots.len(),
{
    if slots.len() == 0 {
        assert(slots.push(slot)[0] == slot);
        assert(slots.push(slot).drop_first() =~= Seq::<ItemSlot>::empty());
        assert(count_in(slots.push(slot).drop_first(), item_id) == 0);
        assert(count_in(slots, item_id) == 0);
    } else {
        assert(slots.push(slot)[0] == slots[0]);
        assert(slots.push(slot).drop_first() =~= slots.drop_first().push(slot));
        lemma_count_in_push(slots.drop_first(), slot, item_id);
    }
}

proof fn lemma_count_in_push_all(slots: Seq<ItemSlot>, slot: ItemSlot)
    ensures
        forall|item_id: ItemId|
            count_in(slots.push(slot), item_id) == count_in(slots, item_id) + (
            if slot.item_id == item_id {
                slot.count as nat
            } else {
                0nat
            }),
{
    assert forall|item_id: ItemId|
        count_in(slots.push(slot), item_id) == count_in(slots, item_id) + (
        if slot.item_id == item_id {
            slot.count as nat
        } else {
            0nat
        }) by {
        lemma_count_in_push(slots, slot, item_id);
    }
}

proof fn lemma_gaps_in_push(slots: Seq<ItemSlot>, slot: ItemSlot, item_id: ItemId, max: nat)
    ensures
        gaps_in(slots.push(slot), item_id, max) == gaps_in(slots, item_id, max) + (
        if slot.item_id == item_id && slot.count as nat <= max {
            (max - slot.count as nat) as nat
        } else {
            0nat
        }),
    decreases slots.len(),
{
    if slots.len() == 0 {
        assert(slots.push(slot)[0] == slot);
        assert(slots.push(slot).drop_first() =~= Seq::<ItemSlot>::empty());
        assert(gaps_in(slots.push(slot).drop_first(), item_id, max) == 0);
        assert(gaps_in(slots, item_id, max) == 0);
    } else {
        assert(slots.push(slot)[0] == slots[0]);
        assert(slots.push(slot).drop_first() =~= slots.drop_first().push(slot));
        lemma_gaps_in_push(slots.drop_first(), slot, item_id, max);
    }
}

/// The slots holding any item type other than `item_id`, in order.
pub open spec fn others_of(slots: Seq<ItemSlot>, item_id: ItemId) -> Seq<ItemSlot> {
    slots.filter(|slot: ItemSlot| slot.item_id != item_id)
}

proof fn lemma_others_of_push(slots: Seq<ItemSlot>, slot: ItemSlot, item_id: ItemId)
    ensures
        others_of(slots.push(slot), item_id) == if slot.item_id != item_id {
            others_of(slots, item_id).push(slot)
        } else {
            others_of(slots, item_id)
        },
{
    reveal(Seq::filter);
    assert(slots.push(slot).drop_last() =~= slots);
    assert(slots.push(slot).last() == slot);
}

proof fn lemma_mul_succ(a: int, b: int)
    ensures
        (a + 1) * b == a * b + b,
{
    assert((a + 1) * b == a * b + b) by (nonlinear_arith);
}

proof fn lemma_mul_pred(a: int, b: int)
    ensures
        (a - 1) * b == a * b - b,
{
    assert((a - 1) * b == a * b - b) by (nonlinear_arith);
}

proof fn lemma_mul_mono(a: int, b: int, c: int)
    requires
        a <= b,
        0 <= c,
    ensures
        a * c <= b * c,
{
    assert(a * c <= b * c) by (nonlinear_arith)
        requires
            a <= b,
            0 <= c,
    ;
}

proof fn lemma_pos_product(a: int, b: int)
    requires
        0 <= a,
        0 <= b,
        0 < a * b,
    ensures
        0 < a,
        0 < b,
{
    assert(0 < a && 0 < b) by (nonlinear_arith)
        requires
            0 <= a,
            0 <= b,
            0 < a * b,
    ;
}

/// Whether one slot respects the manifest: a known item type, a positive
/// count, and no more than the item's maximum stack size.
pub open spec fn slot_ok(slot: ItemSlot, manifest: &ItemManifest) -> bool {
    &&& manifest.contains_item(slot.item_id)
    &&& 1 <= slot.count
    &&& slot.count as nat <= manifest.stack_limit(slot.item_id)
}

/// How two inventories change when up to `requested` items of one type move
/// from `src0` to `dst0`, yielding `src1` and `dst1`: exactly the amount the
/// source holds and the destination accepts moves, capped at the request,
/// and nothing else changes.
pub open spec fn transfer_effect(
    item_id: ItemId,
    requested: nat,
    src0: Inventory,
    src1: Inventory,
    dst0: Inventory,
    dst1: Inventory,
    manifest: &ItemManifest,
) -> bool {
    let limit = manifest.stack_limit(item_id);
    let k = min3(requested as int, src0.count_of(item_id) as int, dst0.space_for(item_id, limit));
    &&& src1.count_of(item_id) as int == src0.count_of(item_id) - k
    &&& dst1.count_of(item_id) as int == dst0.count_of(item_id) + k
    &&& forall|other: ItemId|
        other != item_id ==> src1.count_of(other) == src0.count_of(other) && dst1.count_of(other)
            == dst0.count_of(other)
    &&& others_of(src1.slots(), item_id) == others_of(src0.slots(), item_id)
    &&& others_of(dst1.slots(), item_id) == others_of(dst0.slots(), item_id)
    &&& src1.spec_capacity() == src0.spec_capacity()
    &&& dst1.spec_capacity() == dst0.spec_capacity()
    &&& src1.wf(manifest)
    &&& dst1.wf(manifest)
}

/// An ordered sequence of occupied item slots with a fixed bound on how many
/// slots may exist at once.  A slot that would reach count zero is dropped
/// rather than stored, so every stored slot is occupied.
pub struct Inventory {
    slots: Vec<ItemSlot>,
    capacity: usize,
}

impl Inventory {
    /// The stored slots, in order.
    pub closed spec fn slots(&self) -> Seq<ItemSlot> {
        self.slots@
    }

    /// The fixed bound on the number of slots.
    pub closed spec fn spec_capacity(&self) -> nat {
        self.capacity as nat
    }

    /// Well-formedness against a manifest: no more slots than the capacity
    /// allows, and every slot within its item's stack limit.
    pub open spec fn wf(&self, manifest: &ItemManifest) -> bool {
        &&& self.slots().len() <= self.spec_capacity()
        &&& forall|i: int|
            0 <= i < self.slots().len() ==> slot_ok(#[trigger] self.slots()[i], manifest)
    }

    /// Total number of items of one type held.
    pub open spec fn count_of(&self, item_id: ItemId) -> nat {
        count_in(self.slots(), item_id)
    }

    /// How many more items of one type this inventory can accept: the room
    /// left in existing matching slots plus a full stack for each empty slot.
    pub open spec fn space_for(&self, item_id: ItemId, max: nat) -> int {
        gaps_in(self.slots(), item_id, max) + (self.spec_capacity() - self.slots().len()) * max
    }

    /// No further item of any type can be accepted: every slot position is
    /// occupied and every slot sits at its item's maximum stack size.
    pub open spec fn spec_is_full(&self, manifest: &ItemManifest) -> bool {
        &&& self.slots().len() == self.spec_capacity()
        &&& forall|i: int|
            0 <= i < self.slots().len() ==> (#[trigger] self.slots()[i]).count as nat
                == manifest.stack_limit(self.slots()[i].item_id)
    }

    /// Nothing is held at all.
    pub open spec fn spec_is_empty(&self) -> bool {
        self.slots().len() == 0
    }

    /// An empty inventory that will never hold more than `capacity` slots.
    pub fn new(capacity: usize) -> (inv: Inventory)
        ensures
            inv.spec_capacity() == capacity as nat,
            inv.slots().len() == 0,
            forall|item_id: ItemId| inv.count_of(item_id) == 0,
    {
        let inv = Inventory { slots: Vec::new(), capacity };
        proof {
            assert forall|item_id: ItemId| inv.count_of(item_id) == 0 by {
                assert(count_in(inv.slots@, item_id) == 0);
            }
        }
        inv
    }

    /// The slot bound this inventory was created with.
    pub fn capacity(&self) -> (c: usize)
        ensures
            c as nat == self.spec_capacity(),
    {
        self.capacity
    }

    /// How many slots are currently occupied.
    pub fn len(&self) -> (n: usize)
        ensures
            n as nat == self.slots().len(),
    {
        self.slots.len()
    }

    /// A borrow of the slot at `index`.
    pub fn slot_at(&self, index: usize) -> (slot: &ItemSlot)
        requires
            index < self.slots().len(),
        ensures
            *slot == self.slots()[index as int],
    {
        &self.slots[index]
    }

    /// Whether nothing is held.
    pub fn is_empty(&self) -> (r: bool)
        ensures
            r == self.spec_is_empty(),
    {
        self.slots.len() == 0
    }

    /// Whether no further item of any type can be accepted.
    pub fn is_full(&self, manifest: &ItemManifest) -> (r: bool)
        requires
            self.wf(manifest),
        ensures
            r == self.spec_is_full(manifest),
    {
        let n = self.slots.len();
        if n < self.capacity {
            return false;
        }
        let mut i: usize = 0;
        while i < n
            invariant
                i <= n,
                n == self.slots().len(),
                self.wf(manifest),
                forall|t: int|
                    0 <= t < i ==> (#[trigger] self.slots()[t]).count as nat
                        == manifest.stack_limit(self.slots()[t].item_id),
            decreases n - i,
        {
            let slot = self.slots[i];
            match manifest.max_stack_size(slot.item_id) {
                Some(limit) => {
                    if slot.count < limit {
                        return false;
                    }
                },
                None => {
                    proof {
                        assert(slot_ok(self.slots()[i as int], manifest));
                        assert(false);
                    }
                    return false;
                },
            }
            i = i + 1;
        }
        true
    }

    /// The held amount of one item type, capped at `cap`.
    pub fn count_up_to(&self, item_id: ItemId, cap: usize) -> (r: usize)
        ensures
            r as int == min2(cap as int, self.count_of(item_id) as int),
    {
        let ghost s = self.slots@;
        let n = self.slots.len();
        let mut acc: usize = 0;
        let mut i: usize = 0;
        proof {
            assert(s.take(0) =~= Seq::<ItemSlot>::empty());
        }
        while i < n
            invariant
                i <= n,
                n == s.len(),
                s == self.slots@,
                acc <= cap,
                acc as int == min2(cap as int, count_in(s.take(i as int), item_id) as int),
            decreases n - i,
        {
            let slot = self.slots[i];
            proof {
                assert(s.take(i as int + 1) =~= s.take(i as int).push(s[i as int]));
                lemma_count_in_push(s.take(i as int), s[i as int], item_id);
            }
            if slot.item_id == item_id {
                let room = cap - acc;
                let add = if slot.count <= room {
                    slot.count
                } else {
                    room
                };
                acc = acc + add;
            }
            i = i + 1;
        }
        proof {
            assert(s.take(n as int) =~= s);
        }
        acc
    }

    /// The room left for one item type, capped at `cap`.
    fn accept_limit(&self, item_id: ItemId, max: usize, cap: usize, manifest: &ItemManifest) -> (r:
        usize)
        requires
            self.wf(manifest),
            manifest.contains_item(item_id),
            max as nat == manifest.stack_limit(item_id),
        ensures
            r as int == min2(cap as int, self.space_for(item_id, max as nat)),
    {
        let ghost s = self.slots@;
        let n: usize = self.slots.len();
        let mut acc: usize = 0;
        let mut i: usize = 0;
        proof {
            assert(s.take(0) =~= Seq::<ItemSlot>::empty());
        }
        while i < n
            invariant
                i <= n,
                n == s.len(),
                s == self.slots@,
                self.wf(manifest),
                max as nat == manifest.stack_limit(item_id),
                acc <= cap,
                acc as int == min2(cap as int, gaps_in(s.take(i as int), item_id, max as nat) as int),
            decreases n - i,
        {
            let slot = self.slots[i];
            proof {
                assert(s.take(i as int + 1) =~= s.take(i as int).push(s[i as int]));
                lemma_gaps_in_push(s.take(i as int), s[i as int], item_id, max as nat);
                assert(slot_ok(s[i as int], manifest));
            }
            if slot.item_id == item_id {
                let gap: usize = max - slot.count;
                let room: usize = cap - acc;
                let add: usize = if gap <= room {
                    gap
                } else {
                    room
                };
                acc = acc + add;
            }
            i = i + 1;
        }
        proof {
            assert(s.take(n as int) =~= s);
        }
        let ghost gaps_total = gaps_in(s, item_id, max as nat) as int;
        let empties: usize = self.capacity - self.slots.len();
        let mut j: usize = 0;
        while j < empties && acc < cap
            invariant
                j <= empties,
                acc <= cap,
                empties as int == self.spec_capacity() - s.len(),
                s == self.slots@,
                gaps_total == gaps_in(s, item_id, max as nat) as int,
                acc as int == min2(cap as int, gaps_total + j as int * max as int),
            decreases empties - j,
        {
            proof {
                lemma_mul_succ(j as int, max as int);
            }
            let room: usize = cap - acc;
            let add: usize = if max <= room {
                max
            } else {
                room
            };
            acc = acc + add;
            j = j + 1;
        }
        proof {
            if j < empties {
                lemma_mul_mono(j as int, empties as int, max as int);
            }
        }
        acc
    }

    /// Removes exactly `k` items of one type, draining matching slots from
    /// the front and dropping any slot that reaches zero.
    fn remove_exact(&mut self, item_id: ItemId, k: usize, manifest: &ItemManifest)
        requires
            old(self).wf(manifest),
            k as nat <= old(self).count_of(item_id),
        ensures
            final(self).wf(manifest),
            final(self).spec_capacity() == old(self).spec_capacity(),
            final(self).slots().len() <= old(self).slots().len(),
            final(self).count_of(item_id) == old(self).count_of(item_id) - k as nat,
            forall|other: ItemId|
                other != item_id ==> final(self).count_of(other) == old(self).count_of(other),
            others_of(final(self).slots(), item_id) == others_of(old(self).slots(), item_id),
    {
        let ghost s0 = self.slots@;
        let n: usize = self.slots.len();
        let mut out: Vec<ItemSlot> = Vec::new();
        let mut left: usize = k;
        let mut i: usize = 0;
        proof {
            assert(s0.take(0) =~= Seq::<ItemSlot>::empty());
            assert forall|other: ItemId| count_in(out@, other) == 0 by {
                assert(count_in(out@, other) == 0);
            }
            assert(others_of(out@, item_id) =~= others_of(s0.take(0), item_id));
        }
        while i < n
            invariant
                i <= n,
                n == s0.len(),
                s0 == self.slots@,
                self.wf(manifest),
                left <= k,
                out@.len() <= i,
                left as int == k as int - min2(
                    k as int,
                    count_in(s0.take(i as int), item_id) as int,
                ),
                count_in(out@, item_id) as int == count_in(s0.take(i as int), item_id) as int - (
                k as int - left as int),
                forall|other: ItemId|
                    other != item_id ==> count_in(out@, other) == count_in(
                        s0.take(i as int),
                        other,
                    ),
                forall|t: int| 0 <= t < out@.len() ==> slot_ok(#[trigger] out@[t], manifest),
                others_of(out@, item_id) == others_of(s0.take(i as int), item_id),
            decreases n - i,
        {
            let slot = self.slots[i];
            proof {
                assert(s0.take(i as int + 1) =~= s0.take(i as int).push(s0[i as int]));
                lemma_count_in_push_all(s0.take(i as int), s0[i as int]);
                lemma_others_of_push(s0.take(i as int), s0[i as int], item_id);
                assert(slot_ok(s0[i as int], manifest));
            }
            if slot.item_id == item_id && left > 0 {
                let t: usize = if slot.count <= left {
                    slot.count
                } else {
                    left
                };
                left = left - t;
                if slot.count > t {
                    let reduced = ItemSlot { item_id: slot.item_id, count: slot.count - t };
                    proof {
                        lemma_count_in_push_all(out@, reduced);
                        lemma_others_of_push(out@, reduced, item_id);
                    }
                    out.push(reduced);
                }
            } else {
                proof {
                    lemma_count_in_push_all(out@, slot);
                    lemma_others_of_push(out@, slot, item_id);
                }
                out.push(slot);
            }
            i = i + 1;
        }
        proof {
            assert(s0.take(n as int) =~= s0);
        }
        self.slots = out;
    }

    /// Adds exactly `k` items of one type, topping up matching slots from
    /// the front before opening fresh slots.
    fn add_exact(&mut self, item_id: ItemId, max: usize, k: usize, manifest: &ItemManifest)
        requires
            old(self).wf(manifest),
            manifest.contains_item(item_id),
            max as nat == manifest.stack_limit(item_id),
            k as int <= old(self).space_for(item_id, max as nat),
        ensures
            final(self).wf(manifest),
            final(self).spec_capacity() == old(self).spec_capacity(),
            final(self).count_of(item_id) == old(self).count_of(item_id) + k as nat,
            forall|other: ItemId|
                other != item_id ==> final(self).count_of(other) == old(self).count_of(other),
            others_of(final(self).slots(), item_id) == others_of(old(self).slots(), item_id),
            k as int <= gaps_in(old(self).slots(), item_id, max as nat) ==> final(self).slots().len()
                == old(self).slots().len(),
    {
        let ghost s0 = self.slots@;
        let n: usize = self.slots.len();
        let mut out: Vec<ItemSlot> = Vec::new();
        let mut left: usize = k;
        let mut i: usize = 0;
        proof {
            assert(s0.take(0) =~= Seq::<ItemSlot>::empty());
            assert forall|other: ItemId| count_in(out@, other) == 0 by {
                assert(count_in(out@, other) == 0);
            }
            assert(others_of(out@, item_id) =~= others_of(s0.take(0), item_id));
        }
        while i < n
            invariant
                i <= n,
                n == s0.len(),
                s0 == self.slots@,
                self.wf(manifest),
                manifest.contains_item(item_id),
                max as nat == manifest.stack_limit(item_id),
                left <= k,
                out@.len() == i,
                left as int == k as int - min2(
                    k as int,
                    gaps_in(s0.take(i as int), item_id, max as nat) as int,
                ),
                count_in(out@, item_id) as int == count_in(s0.take(i as int), item_id) as int + (
                k as int - left as int),
                forall|other: ItemId|
                    other != item_id ==> count_in(out@, other) == count_in(
                        s0.take(i as int),
                        other,
                    ),
                forall|t: int| 0 <= t < out@.len() ==> slot_ok(#[trigger] out@[t], manifest),
                others_of(out@, item_id) == others_of(s0.take(i as int), item_id),
            decreases n - i,
        {
            let slot = self.slots[i];
            proof {
                assert(s0.take(i as int + 1) =~= s0.take(i as int).push(s0[i as int]));
                lemma_count_in_push_all(s0.take(i as int), s0[i as int]);
                lemma_gaps_in_push(s0.take(i as int), s0[i as int], item_id, max as nat);
                lemma_others_of_push(s0.take(i as int), s0[i as int], item_id);
                assert(slot_ok(s0[i as int], manifest));
            }
            if slot.item_id == item_id && left > 0 {
                let gap: usize = max - slot.count;
                let t: usize = if gap <= left {
                    gap
                } else {
                    left
                };
                let filled = ItemSlot { item_id: slot.item_id, count: slot.count + t };
                proof {
                    lemma_count_in_push_all(out@, filled);
                    lemma_others_of_push(out@, filled, item_id);
                }
                out.push(filled);
                left = left - t;
            } else {
                proof {
                    lemma_count_in_push_all(out@, slot);
                    lemma_others_of_push(out@, slot, item_id);
                }
                out.push(slot);
            }
            i = i + 1;
        }
        proof {
            assert(s0.take(n as int) =~= s0);
            if (k as int) <= gaps_in(s0, item_id, max as nat) as int {
                lemma_mul_mono(0, self.spec_capacity() - n as int, max as int);
            }
        }
        while left > 0
            invariant
                s0 == self.slots@,
                manifest.contains_item(item_id),
                max as nat == manifest.stack_limit(item_id),
                left <= k,
                out@.len() <= self.spec_capacity(),
                left as int <= (self.spec_capacity() - out@.len()) * max as int,
                count_in(out@, item_id) as int == count_in(s0, item_id) as int + (k as int
                    - left as int),
                forall|other: ItemId| other != item_id ==> count_in(out@, other) == count_in(s0, other),
                forall|t: int| 0 <= t < out@.len() ==> slot_ok(#[trigger] out@[t], manifest),
                others_of(out@, item_id) == others_of(s0, item_id),
                k as int <= gaps_in(s0, item_id, max as nat) ==> (left == 0 && out@.len()
                    == s0.len()),
            decreases left,
        {
            proof {
                lemma_mul_mono(0, self.spec_capacity() - out@.len(), max as int);
                lemma_pos_product(self.spec_capacity() - out@.len(), max as int);
            }
            let t: usize = if max <= left {
                max
            } else {
                left
            };
            let fresh = ItemSlot { item_id, count: t };
            proof {
                lemma_count_in_push_all(out@, fresh);
                lemma_others_of_push(out@, fresh, item_id);
                lemma_mul_pred(self.spec_capacity() - out@.len(), max as int);
                lemma_mul_mono(0, self.spec_capacity() - out@.len() - 1, max as int);
            }
            out.push(fresh);
            left = left - t;
        }
        self.slots = out;
    }

    /// Moves up to `requested.count` items of the requested type from this
    /// inventory into `destination`.  The amount actually moved is the
    /// largest the source can supply and the destination can accept, never
    /// more than requested; moving less than requested — or nothing at all —
    /// is a success outcome, not an error.  The one failure is a request for
    /// an item type the manifest does not know.
    pub fn transfer_item(
        &mut self,
        requested: &ItemCount,
        destination: &mut Inventory,
        item_manifest: &ItemManifest,
    ) -> (r: Result<usize, TransferError>)
        requires
            old(self).wf(item_manifest),
            old(destination).wf(item_manifest),
        ensures
            final(self).wf(item_manifest),
            final(destination).wf(item_manifest),
            final(self).spec_capacity() == old(self).spec_capacity(),
            final(destination).spec_capacity() == old(destination).spec_capacity(),
            r is Err <==> !item_manifest.contains_item(requested.item_id),
            r matches Err(e) ==> e == TransferError::UnknownItem && *final(self) == *old(self)
                && *final(destination) == *old(destination),
            r matches Ok(k) ==> {
                let id = requested.item_id;
                let limit = item_manifest.stack_limit(id);
                &&& k as int == min3(
                    requested.count as int,
                    old(self).count_of(id) as int,
                    old(destination).space_for(id, limit),
                )
                &&& final(self).count_of(id) == old(self).count_of(id) - k as nat
                &&& final(destination).count_of(id) == old(destination).count_of(id) + k as nat
                &&& final(self).count_of(id) + final(destination).count_of(id) == old(
                    self,
                ).count_of(id) + old(destination).count_of(id)
                &&& forall|other: ItemId|
                    other != id ==> final(self).count_of(other) == old(self).count_of(other)
                        && final(destination).count_of(other) == old(destination).count_of(other)
                &&& (k == 0 ==> *final(self) == *old(self) && *final(destination) == *old(
                    destination,
                ))
                &&& (old(destination).space_for(id, limit) == 0 ==> k == 0)
                &&& others_of(final(self).slots(), id) == others_of(old(self).slots(), id)
                &&& others_of(final(destination).slots(), id) == others_of(
                    old(destination).slots(),
                    id,
                )
                &&& (k as int <= gaps_in(old(destination).slots(), id, limit) ==> final(destination).slots().len()
                    == old(destination).slots().len())
            },
    {
        let item_id = requested.item_id;
        let max: usize = match item_manifest.max_stack_size(item_id) {
            Some(m) => m,
            None => {
                return Err(TransferError::UnknownItem);
            },
        };
        let avail: usize = self.count_up_to(item_id, requested.count);
        let space: usize = destination.accept_limit(item_id, max, requested.count, item_manifest);
        let k: usize = if avail <= space {
            avail
        } else {
            space
        };
        if k == 0 {
            return Ok(0);
        }
        self.remove_exact(item_id, k, item_manifest);
        destination.add_exact(item_id, max, k, item_manifest);
        Ok(k)
    }

    /// Accepts up to `incoming.count` items of one type from outside the
    /// transfer machinery — the way structure production fills an inventory.
    /// Returns how many items were actually accepted.
    pub fn add_items(&mut self, incoming: &ItemCount, item_manifest: &ItemManifest) -> (r: Result<
        usize,
        TransferError,
    >)
        requires
            old(self).wf(item_manifest),
        ensures
            final(self).wf(item_manifest),
            final(self).spec_capacity() == old(self).spec_capacity(),
            r is Err <==> !item_manifest.contains_item(incoming.item_id),
            r matches Err(e) ==> e == TransferError::UnknownItem && *final(self) == *old(self),
            r matches Ok(n) ==> {
                let id = incoming.item_id;
                let limit = item_manifest.stack_limit(id);
                &&& n as int == min2(incoming.count as int, old(self).space_for(id, limit))
                &&& final(self).count_of(id) == old(self).count_of(id) + n as nat
                &&& forall|other: ItemId|
                    other != id ==> final(self).count_of(other) == old(self).count_of(other)
                &&& (n == 0 ==> *final(self) == *old(self))
                &&& others_of(final(self).slots(), id) == others_of(old(self).slots(), id)
                &&& (n as int <= gaps_in(old(self).slots(), id, limit) ==> final(self).slots().len()
                    == old(self).slots().len())
            },
    {
        let item_id = incoming.item_id;
        let max: usize = match item_manifest.max_stack_size(item_id) {
            Some(m) => m,
            None => {
                return Err(TransferError::UnknownItem);
            },
        };
        let n: usize = self.accept_limit(item_id, max, incoming.count, item_manifest);
        if n == 0 {
            return Ok(0);
        }
        self.add_exact(item_id, max, n, item_manifest);
        Ok(n)
    }
}

} // verus!
