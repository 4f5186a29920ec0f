//! Item stacks, player inventories and equipment.
//!
//! A stack is canonically empty: a size of zero forces the item and the
//! capacity out. Transfers are atomic and conserve the total item count.

use vstd::prelude::*;

verus! {

/// Identifies a kind of item. An index into the item configuration table.
pub type ItemId = u32;

/// A stack of identical items with a size limit.
#[derive(Clone, Copy, PartialEq, Eq, Structural, Debug)]
pub struct ItemStack {
    /// The item held, absent for the empty stack.
    pub item: Option<ItemId>,
    /// How many items the stack holds.
    pub size: u32,
    /// The largest size the stack may reach.
    pub capacity: u32,
}

impl ItemStack {
    /// A stack is well formed when emptiness is canonical: no item and no
    /// capacity without a size, and never more items than fit.
    pub open spec fn wf(self) -> bool {
        &&& self.size == 0 ==> self.item is None && self.capacity == 0
        &&& self.item is None ==> self.size == 0
        &&& self.size <= self.capacity
    }

    /// Whether the stack holds nothing.
    pub open spec fn spec_is_empty(self) -> bool {
        self.size == 0
    }

    /// How many more items fit.
    pub open spec fn spec_remaining_capacity(self) -> int {
        self.capacity - self.size
    }

    /// The canonical empty stack.
    pub fn new_empty() -> (s: ItemStack)
        ensures
            s.wf(),
            s.spec_is_empty(),
            s == (ItemStack { item: None, size: 0, capacity: 0 }),
    {
        ItemStack { item: None, size: 0, capacity: 0 }
    }

    /// A stack of `size` items of kind `item`, capped at `capacity`.
    pub fn new(item: ItemId, size: u32, capacity: u32) -> (s: ItemStack)
        ensures
            s.wf(),
            size == 0 || capacity == 0 ==> s == (ItemStack { item: None, size: 0u32, capacity: 0u32 }),
            size != 0 && capacity != 0 ==> s == (ItemStack {
                item: Some(item),
                size: if size <= capacity { size } else { capacity },
                capacity,
            }),
    {
        if size == 0 || capacity == 0 {
            ItemStack { item: None, size: 0, capacity: 0 }
        } else {
            let clamped = if size <= capacity { size } else { capacity };
            ItemStack { item: Some(item), size: clamped, capacity }
        }
    }

    /// Whether the stack holds nothing.
    pub fn is_empty(&self) -> (r: bool)
        ensures
            r == self.spec_is_empty(),
    {
        self.size == 0
    }

    /// How many more items fit.
    pub fn remaining_capacity(&self) -> (r: u32)
        requires
            self.wf(),
        ensures
            r == self.spec_remaining_capacity(),
    {
        self.capacity - self.size
    }

    /// Reset the stack to the canonical empty form.
    fn clear(&mut self)
        ensures
            *final(self) == (ItemStack { item: None, size: 0u32, capacity: 0u32 }),
    {
        self.item = None;
        self.size = 0;
        self.capacity = 0;
    }

    /// Remove up to `n` items and return them as a stack of their own.
    pub fn take(&mut self, n: u32) -> (taken: ItemStack)
        requires
            old(self).wf(),
        ensures
            final(self).wf(),
            taken.wf(),
            taken.size == if n <= old(self).size { n as int } else { old(self).size as int },
            final(self).size == old(self).size - taken.size,
            taken.size > 0 ==> taken.item == old(self).item && taken.capacity == old(
                self,
            ).capacity,
            final(self).size > 0 ==> final(self).item == old(self).item && final(self).capacity
                == old(self).capacity,
    {
        let taken_size = if n <= self.size {
            n
        } else {
            self.size
        };
        if taken_size == 0 {
            return ItemStack { item: None, size: 0, capacity: 0 };
        }
        let taken = ItemStack { item: self.item, size: taken_size, capacity: self.capacity };
        self.size = self.size - taken_size;
        if self.size == 0 {
            self.clear();
        }
        taken
    }

    /// Move up to `n` items into `dst`.
    ///
    /// Items move only when `dst` is empty or holds the same item; the amount
    /// moved is the least of `n`, the source size and the room left in `dst`
    /// (an empty `dst` adopts the source's capacity, so its room is that
    /// capacity). The total count over both stacks is unchanged.
    pub fn transfer_to(&mut self, dst: &mut ItemStack, n: u32) -> (moved: u32)
        requires
            old(self).wf(),
            old(dst).wf(),
        ensures
            final(self).wf(),
            final(dst).wf(),
            final(self).size + final(dst).size == old(self).size + old(dst).size,
            final(self).size == old(self).size - moved,
            moved == spec_transfer_amount(*old(self), *old(dst), n),
            moved > 0 ==> final(dst).item == old(self).item && final(dst).capacity == old(
                self,
            ).capacity || final(dst).item == old(dst).item && final(dst).capacity == old(
                dst,
            ).capacity,
            moved > 0 ==> final(dst).item == old(self).item,
            moved == 0 ==> *final(self) == *old(self) && *final(dst) == *old(dst),
            final(self).size > 0 ==> final(self).item == old(self).item && final(self).capacity
                == old(self).capacity,
    {
        if self.size == 0 {
            return 0;
        }
        let room: u32 = if dst.size == 0 {
            self.capacity
        } else if dst.item == self.item {
            dst.capacity - dst.size
        } else {
            return 0;
        };
        let mut moved = if n <= self.size {
            n
        } else {
            self.size
        };
        if room < moved {
            moved = room;
        }
        if moved == 0 {
            return 0;
        }
        if dst.size == 0 {
            dst.item = self.item;
            dst.capacity = self.capacity;
            dst.size = moved;
        } else {
            dst.size = dst.size + moved;
        }
        self.size = self.size - moved;
        if self.size == 0 {
            self.clear();
        }
        moved
    }

    /// Exchange the contents of two stacks.
    pub fn swap(&mut self, other: &mut ItemStack)
        ensures
            *final(self) == *old(other),
            *final(other) == *old(self),
    {
        let tmp = *self;
        *self = *other;
        *other = tmp;
    }
}

/// How many items `transfer_to` moves from `src` into `dst` for a request of
/// `n`: the least of the request, the source size, and the room in `dst`.
pub open spec fn spec_transfer_amount(src: ItemStack, dst: ItemStack, n: u32) -> int {
    let room: int = if dst.size == 0 {
        src.capacity as int
    } else if dst.item == src.item {
        dst.capacity - dst.size
    } else {
        0
    };
    let wanted: int = if n <= src.size {
        n as int
    } else {
        src.size as int
    };
    if wanted <= room {
        wanted
    } else {
        room
    }
}

/// Total number of items over a sequence of stacks.
pub open spec fn total_items(slots: Seq<ItemStack>, upto: int) -> int
    decreases upto,
{
    if upto <= 0 {
        0
    } else {
        total_items(slots, upto - 1) + slots[upto - 1].size
    }
}

/// A change confined to one slot changes the total by that slot's change.
pub proof fn lemma_total_items_update(a: Seq<ItemStack>, b: Seq<ItemStack>, i: int, upto: int)
    requires
        a.len() == b.len(),
        0 <= i < a.len(),
        upto <= a.len(),
        forall|j: int| 0 <= j < a.len() && j != i ==> a[j] == b[j],
    ensures
        i < upto ==> total_items(b, upto) == total_items(a, upto) + b[i].size - a[i].size,
        upto <= i ==> total_items(b, upto) == total_items(a, upto),
    decreases upto,
{
    if upto > 0 {
        lemma_total_items_update(a, b, i, upto - 1);
    }
}

/// A run of empty stacks counts nothing.
pub proof fn lemma_total_items_all_empty(slots: Seq<ItemStack>, upto: int)
    requires
        upto <= slots.len(),
        forall|j: int| 0 <= j < upto ==> (#[trigger] slots[j]).size == 0,
    ensures
        total_items(slots, upto) == 0,
    decreases upto,
{
    if upto > 0 {
        lemma_total_items_all_empty(slots, upto - 1);
    }
}

/// Sequences equal on a prefix count the same items over it.
pub proof fn lemma_total_items_prefix(a: Seq<ItemStack>, b: Seq<ItemStack>, upto: int)
    requires
        upto <= a.len(),
        upto <= b.len(),
        forall|j: int| 0 <= j < upto ==> a[j] == b[j],
    ensures
        total_items(a, upto) == total_items(b, upto),
    decreases upto,
{
    if upto > 0 {
        lemma_total_items_prefix(a, b, upto - 1);
    }
}

/// The number of player inventory slots.
pub const INVENTORY_SIZE: usize = 36;

/// The number of hotbar slots, the only ones that can be equipped.
pub const HOTBAR_SIZE: usize = 9;

/// A player's 36-slot inventory with one equipped hotbar slot.
#[derive(Clone, Debug)]
pub struct Inventory {
    /// The item stacks, hotbar first.
    pub slots: Vec<ItemStack>,
    /// Index of the held stack; always a hotbar slot.
    pub equipped: usize,
}

impl Inventory {
    /// Slots are full count, all stacks canonical, and the equipped index a
    /// hotbar slot.
    pub open spec fn wf(self) -> bool {
        &&& self.slots@.len() == INVENTORY_SIZE
        &&& self.equipped < HOTBAR_SIZE
        &&& forall|i: int| 0 <= i < self.slots@.len() ==> #[trigger] self.slots@[i].wf()
    }

    /// An inventory of empty slots with the first hotbar slot equipped.
    pub fn new() -> (inv: Inventory)
        ensures
            inv.wf(),
            inv.equipped == 0,
            forall|i: int| 0 <= i < inv.slots@.len() ==> #[trigger] inv.slots@[i].spec_is_empty(),
    {
        let mut slots: Vec<ItemStack> = Vec::new();
        let mut i: usize = 0;
        while i < INVENTORY_SIZE
            invariant
                i <= INVENTORY_SIZE,
                slots@.len() == i,
                forall|j: int| 0 <= j < i ==> #[trigger] slots@[j] == (ItemStack {
                    item: None,
                    size: 0u32,
                    capacity: 0u32,
                }),
            decreases INVENTORY_SIZE - i,
        {
            slots.push(ItemStack { item: None, size: 0, capacity: 0 });
            i = i + 1;
        }
        Inventory { slots, equipped: 0 }
    }

    /// The stack in the equipped hotbar slot.
    pub fn held_item_stack(&self) -> (s: &ItemStack)
        requires
            self.wf(),
        ensures
            *s == self.slots@[self.equipped as int],
    {
        &self.slots[self.equipped]
    }

    /// Select a hotbar slot. Fails exactly when the index is out of the
    /// hotbar, the protocol violation that disconnects the sender.
    pub fn equip_item(&mut self, index: usize) -> (ok: bool)
        requires
            old(self).wf(),
        ensures
            final(self).wf(),
            ok == (index < HOTBAR_SIZE),
            ok ==> final(self).equipped == index && final(self).slots == old(self).slots,
            !ok ==> *final(self) == *old(self),
    {
        if index < HOTBAR_SIZE {
            self.equipped = index;
            true
        } else {
            false
        }
    }

    /// Whether a dropped stack could move at least one item into the
    /// inventory: some slot is empty, or matches the item with room left.
    pub fn has_capacity_for(&self, stack: &ItemStack) -> (r: bool)
        requires
            self.wf(),
        ensures
            r == exists|i: int|
                0 <= i < self.slots@.len() && slot_can_take(#[trigger] self.slots@[i], stack.item),
    {
        let mut i: usize = 0;
        while i < self.slots.len()
            invariant
                self.wf(),
                i <= self.slots@.len(),
                forall|j: int|
                    0 <= j < i ==> !slot_can_take(#[trigger] self.slots@[j], stack.item),
            decreases self.slots@.len() - i,
        {
            let slot = &self.slots[i];
            if slot.size == 0 || (slot.item == stack.item && slot.capacity > slot.size) {
                proof {
                    assert(slot_can_take(self.slots@[i as int], stack.item));
                }
                return true;
            }
            proof {
                assert(!slot_can_take(self.slots@[i as int], stack.item));
            }
            i = i + 1;
        }
        false
    }

    /// Absorb a picked-up stack: first top up slots already holding the item,
    /// then fill empty slots. The total count over the inventory and the
    /// stack is unchanged.
    pub fn absorb(&mut self, stack: &mut ItemStack)
        requires
            old(self).wf(),
            old(stack).wf(),
        ensures
            final(self).wf(),
            final(stack).wf(),
            total_items(final(self).slots@, final(self).slots@.len() as int) + final(stack).size
                == total_items(old(self).slots@, old(self).slots@.len() as int) + old(stack).size,
            final(self).slots@.len() == old(self).slots@.len(),
            final(self).equipped == old(self).equipped,
    {
        self.fill_matching(stack);
        if !stack.is_empty() {
            self.fill_empty(stack);
        }
    }

    /// Move items from the stack into slots that already hold the same item.
    fn fill_matching(&mut self, stack: &mut ItemStack)
        requires
            old(self).wf(),
            old(stack).wf(),
        ensures
            final(self).wf(),
            final(stack).wf(),
            total_items(final(self).slots@, final(self).slots@.len() as int) + final(stack).size
                == total_items(old(self).slots@, old(self).slots@.len() as int) + old(stack).size,
            final(self).slots@.len() == old(self).slots@.len(),
            final(self).equipped == old(self).equipped,
    {
        let mut i: usize = 0;
        while i < self.slots.len()
            invariant
                old(self).wf(),
                old(stack).wf(),
                self.wf(),
                stack.wf(),
                i <= self.slots@.len(),
                self.slots@.len() == old(self).slots@.len(),
                self.equipped == old(self).equipped,
                total_items(self.slots@, self.slots@.len() as int) + stack.size == total_items(
                    old(self).slots@,
                    old(self).slots@.len() as int,
                ) + old(stack).size,
            decreases self.slots@.len() - i,
        {
            let ghost pre = self.slots@;
            if !self.slots[i].is_empty() && self.slots[i].item == stack.item {
                let mut slot = self.slots[i];
                stack.transfer_to(&mut slot, u32::MAX);
                self.slots[i] = slot;
                proof {
                    lemma_total_items_update(pre, self.slots@, i as int, self.slots@.len() as int);
                }
            }
            if stack.is_empty() {
                return ;
            }
            i = i + 1;
        }
    }

    /// Move items from the stack into empty slots.
    fn fill_empty(&mut self, stack: &mut ItemStack)
        requires
            old(self).wf(),
            old(stack).wf(),
        ensures
            final(self).wf(),
            final(stack).wf(),
            total_items(final(self).slots@, final(self).slots@.len() as int) + final(stack).size
                == total_items(old(self).slots@, old(self).slots@.len() as int) + old(stack).size,
            final(self).slots@.len() == old(self).slots@.len(),
            final(self).equipped == old(self).equipped,
    {
        let mut i: usize = 0;
        while i < self.slots.len()
            invariant
                old(self).wf(),
                old(stack).wf(),
                self.wf(),
                stack.wf(),
                i <= self.slots@.len(),
                self.slots@.len() == old(self).slots@.len(),
                self.equipped == old(self).equipped,
                total_items(self.slots@, self.slots@.len() as int) + stack.size == total_items(
                    old(self).slots@,
                    old(self).slots@.len() as int,
                ) + old(stack).size,
            decreases self.slots@.len() - i,
        {
            let ghost pre = self.slots@;
            if self.slots[i].is_empty() {
                let mut slot = self.slots[i];
                stack.transfer_to(&mut slot, u32::MAX);
                self.slots[i] = slot;
                proof {
                    lemma_total_items_update(pre, self.slots@, i as int, self.slots@.len() as int);
                }
            }
            if stack.is_empty() {
                return ;
            }
            i = i + 1;
        }
    }
}

/// Whether a slot can take at least one item of the given kind: it is empty,
/// or it holds the same kind with room left.
pub open spec fn slot_can_take(slot: ItemStack, item: Option<ItemId>) -> bool {
    slot.size == 0 || (slot.item == item && slot.capacity > slot.size)
}

/// The four armor slots of a player.
#[derive(Clone, Debug)]
pub struct Equipment {
    pub helmet: ItemStack,
    pub chestplate: ItemStack,
    pub leggings: ItemStack,
    pub boots: ItemStack,
}

impl Equipment {
    pub open spec fn wf(self) -> bool {
        self.helmet.wf() && self.chestplate.wf() && self.leggings.wf() && self.boots.wf()
    }

    /// Equipment with every slot empty.
    pub fn new() -> (e: Equipment)
        ensures
            e.wf(),
            e.helmet.spec_is_empty(),
            e.chestplate.spec_is_empty(),
            e.leggings.spec_is_empty(),
            e.boots.spec_is_empty(),
    {
        Equipment {
            helmet: ItemStack { item: None, size: 0, capacity: 0 },
            chestplate: ItemStack { item: None, size: 0, capacity: 0 },
            leggings: ItemStack { item: None, size: 0, capacity: 0 },
            boots: ItemStack { item: None, size: 0, capacity: 0 },
        }
    }
}

} // verus!
