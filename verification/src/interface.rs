//! Interface interactions: moving items between slots, the held cursor
//! stack, chests, and the crafting table's input and output.

use vstd::prelude::*;
use crate::crafting::{CraftingGrid, RecipeCollection};
use crate::items::{spec_transfer_amount, Equipment, Inventory, ItemStack, HOTBAR_SIZE,
    INVENTORY_SIZE};

verus! {

/// The exact effect of one take-or-place click on a slot and the held
/// cursor stack: the moved amount follows the stack-transfer rule, from the
/// slot on a take and into it on a place.
pub open spec fn spec_click_effect(
    old_slot: ItemStack,
    old_held: ItemStack,
    new_slot: ItemStack,
    new_held: ItemStack,
    quantity: u32,
    take: bool,
) -> bool {
    if take {
        let moved = spec_transfer_amount(old_slot, old_held, quantity);
        new_slot.size == old_slot.size - moved && new_held.size == old_held.size + moved
    } else {
        let moved = spec_transfer_amount(old_held, old_slot, quantity);
        new_held.size == old_held.size - moved && new_slot.size == old_slot.size + moved
    }
}

/// A click on an item box: taking from it or placing into it, always through
/// the held cursor stack.
#[derive(Clone, Copy, PartialEq, Eq, Structural, Debug)]
pub enum InterfaceInteraction {
    TakeItem { index: usize, quantity: u32 },
    PlaceItem { index: usize, quantity: u32 },
}

/// Which band of the player inventory an interface shows.
#[derive(Clone, Copy, PartialEq, Eq, Structural, Debug)]
pub enum InventoryNode {
    /// The 27 main slots, shown after the hotbar.
    Main,
    /// The 9 hotbar slots.
    Hotbar,
}

/// One interaction against the player inventory: take moves from the slot to
/// the held stack, place the other way. An index beyond the shown band does
/// nothing. The total item count over inventory and held stack is conserved.
pub fn handle_inventory_interaction(
    inventory: &mut Inventory,
    held: &mut ItemStack,
    node: InventoryNode,
    interaction: InterfaceInteraction,
)
    requires
        old(inventory).wf(),
        old(held).wf(),
    ensures
        final(inventory).wf(),
        final(held).wf(),
        final(inventory).slots@.len() == old(inventory).slots@.len(),
        final(inventory).equipped == old(inventory).equipped,
        crate::items::total_items(final(inventory).slots@, final(inventory).slots@.len() as int)
            + final(held).size == crate::items::total_items(
            old(inventory).slots@,
            old(inventory).slots@.len() as int,
        ) + old(held).size,
        ({
            let (index, quantity, take) = match interaction {
                InterfaceInteraction::TakeItem { index, quantity } => (index as int, quantity, true),
                InterfaceInteraction::PlaceItem { index, quantity } => (
                    index as int,
                    quantity,
                    false,
                ),
            };
            let slot_index = match node {
                InventoryNode::Main => index + HOTBAR_SIZE,
                InventoryNode::Hotbar => index,
            };
            let shown = match node {
                InventoryNode::Main => index < INVENTORY_SIZE - HOTBAR_SIZE,
                InventoryNode::Hotbar => index < HOTBAR_SIZE,
            };
            if shown {
                &&& spec_click_effect(
                    old(inventory).slots@[slot_index],
                    *old(held),
                    final(inventory).slots@[slot_index],
                    *final(held),
                    quantity,
                    take,
                )
                &&& forall|i: int|
                    0 <= i < old(inventory).slots@.len() && i != slot_index
                        ==> final(inventory).slots@[i] == old(inventory).slots@[i]
            } else {
                *final(inventory) == *old(inventory) && *final(held) == *old(held)
            }
        }),
{
    let (index, quantity, take) = match interaction {
        InterfaceInteraction::TakeItem { index, quantity } => (index, quantity, true),
        InterfaceInteraction::PlaceItem { index, quantity } => (index, quantity, false),
    };
    let slot_index = match node {
        InventoryNode::Main => {
            if index >= INVENTORY_SIZE - HOTBAR_SIZE {
                return ;
            }
            index + HOTBAR_SIZE
        },
        InventoryNode::Hotbar => {
            if index >= HOTBAR_SIZE {
                return ;
            }
            index
        },
    };
    let ghost pre = inventory.slots@;
    let mut slot = inventory.slots[slot_index];
    if take {
        slot.transfer_to(held, quantity);
    } else {
        held.transfer_to(&mut slot, quantity);
    }
    inventory.slots[slot_index] = slot;
    proof {
        crate::items::lemma_total_items_update(
            pre,
            inventory.slots@,
            slot_index as int,
            inventory.slots@.len() as int,
        );
    }
}

/// The armor slot an equipment interface shows.
#[derive(Clone, Copy, PartialEq, Eq, Structural, Debug)]
pub enum EquipmentSlot {
    Helmet,
    Chestplate,
    Leggings,
    Boots,
}

/// One interaction against an armor slot, through the held cursor stack.
/// The total count over the slot and the held stack is conserved.
pub fn handle_equipment_interaction(
    equipment: &mut Equipment,
    held: &mut ItemStack,
    slot: EquipmentSlot,
    interaction: InterfaceInteraction,
)
    requires
        old(equipment).wf(),
        old(held).wf(),
    ensures
        final(equipment).wf(),
        final(held).wf(),
        final(equipment).helmet.size + final(equipment).chestplate.size
            + final(equipment).leggings.size + final(equipment).boots.size + final(held).size
            == old(equipment).helmet.size + old(equipment).chestplate.size
            + old(equipment).leggings.size + old(equipment).boots.size + old(held).size,
        ({
            let (quantity, take) = match interaction {
                InterfaceInteraction::TakeItem { quantity, .. } => (quantity, true),
                InterfaceInteraction::PlaceItem { quantity, .. } => (quantity, false),
            };
            let old_stack = match slot {
                EquipmentSlot::Helmet => old(equipment).helmet,
                EquipmentSlot::Chestplate => old(equipment).chestplate,
                EquipmentSlot::Leggings => old(equipment).leggings,
                EquipmentSlot::Boots => old(equipment).boots,
            };
            let new_stack = match slot {
                EquipmentSlot::Helmet => final(equipment).helmet,
                EquipmentSlot::Chestplate => final(equipment).chestplate,
                EquipmentSlot::Leggings => final(equipment).leggings,
                EquipmentSlot::Boots => final(equipment).boots,
            };
            spec_click_effect(old_stack, *old(held), new_stack, *final(held), quantity, take)
        }),
{
    let (quantity, take) = match interaction {
        InterfaceInteraction::TakeItem { quantity, .. } => (quantity, true),
        InterfaceInteraction::PlaceItem { quantity, .. } => (quantity, false),
    };
    let mut stack = match slot {
        EquipmentSlot::Helmet => equipment.helmet,
        EquipmentSlot::Chestplate => equipment.chestplate,
        EquipmentSlot::Leggings => equipment.leggings,
        EquipmentSlot::Boots => equipment.boots,
    };
    if take {
        stack.transfer_to(held, quantity);
    } else {
        held.transfer_to(&mut stack, quantity);
    }
    match slot {
        EquipmentSlot::Helmet => {
            equipment.helmet = stack;
        },
        EquipmentSlot::Chestplate => {
            equipment.chestplate = stack;
        },
        EquipmentSlot::Leggings => {
            equipment.leggings = stack;
        },
        EquipmentSlot::Boots => {
            equipment.boots = stack;
        },
    }
}

/// One interaction against a crafting grid slot, through the held cursor
/// stack. The total count over the grid and the held stack is conserved.
pub fn handle_crafting_input_interaction(
    grid: &mut CraftingGrid,
    held: &mut ItemStack,
    interaction: InterfaceInteraction,
)
    requires
        old(grid).wf(),
        old(held).wf(),
    ensures
        final(grid).wf(),
        final(held).wf(),
        final(grid).slots@.len() == old(grid).slots@.len(),
        crate::items::total_items(final(grid).slots@, final(grid).slots@.len() as int)
            + final(held).size == crate::items::total_items(
            old(grid).slots@,
            old(grid).slots@.len() as int,
        ) + old(held).size,
        ({
            let (index, quantity, take) = match interaction {
                InterfaceInteraction::TakeItem { index, quantity } => (index as int, quantity, true),
                InterfaceInteraction::PlaceItem { index, quantity } => (
                    index as int,
                    quantity,
                    false,
                ),
            };
            if index < old(grid).slots@.len() {
                &&& spec_click_effect(
                    old(grid).slots@[index],
                    *old(held),
                    final(grid).slots@[index],
                    *final(held),
                    quantity,
                    take,
                )
                &&& forall|i: int|
                    0 <= i < old(grid).slots@.len() && i != index ==> final(grid).slots@[i]
                        == old(grid).slots@[i]
            } else {
                final(grid).slots@ == old(grid).slots@ && *final(held) == *old(held)
            }
        }),
{
    let (index, quantity, take) = match interaction {
        InterfaceInteraction::TakeItem { index, quantity } => (index, quantity, true),
        InterfaceInteraction::PlaceItem { index, quantity } => (index, quantity, false),
    };
    if index >= grid.slots.len() {
        return ;
    }
    let ghost pre = grid.slots@;
    let mut slot = grid.slots[index];
    if take {
        slot.transfer_to(held, quantity);
    } else {
        held.transfer_to(&mut slot, quantity);
    }
    grid.slots[index] = slot;
    proof {
        crate::items::lemma_total_items_update(
            pre,
            grid.slots@,
            index as int,
            grid.slots@.len() as int,
        );
    }
}

/// Taking from the crafting output: craft the asked amount from the grid
/// through the matching recipe and move the product onto the held cursor
/// stack. Nothing happens without a matching recipe or with nothing
/// craftable.
pub fn take_crafting_output(
    grid: &mut CraftingGrid,
    held: &mut ItemStack,
    recipes: &RecipeCollection,
    quantity: u32,
)
    requires
        old(grid).wf(),
        old(held).wf(),
        recipes.wf(),
    ensures
        final(grid).wf(),
        final(held).wf(),
        final(grid).slots@.len() == old(grid).slots@.len(),
        final(held).size >= old(held).size,
        (forall|s: int, j: int|
            0 <= s && #[trigger] (s * s) == old(grid).slots@.len() && 0 <= j
                < recipes.recipes@.len() ==> !((#[trigger] recipes.recipes@[j]).pattern.view2()
                =~~= crate::crafting::spec_normalize(
                crate::crafting::grid_cells(old(grid).slots@, s),
                s,
            ))) ==> final(grid).slots@ == old(grid).slots@ && *final(held) == *old(held),
{
    let mut produced = match recipes.craft(grid, quantity) {
        Some(stack) => stack,
        None => {
            return ;
        },
    };
    produced.transfer_to(held, u32::MAX);
}

/// A chest standing in the world: 27 slots of storage.
pub struct Chest {
    pub inventory: Vec<ItemStack>,
}

/// The number of chest slots.
pub const CHEST_SIZE: usize = 27;

impl Chest {
    pub open spec fn wf(self) -> bool {
        &&& self.inventory@.len() == CHEST_SIZE
        &&& forall|i: int| 0 <= i < self.inventory@.len() ==> (#[trigger] self.inventory@[i]).wf()
    }

    /// An empty chest.
    pub fn new() -> (c: Chest)
        ensures
            c.wf(),
            forall|i: int|
                0 <= i < c.inventory@.len() ==> (#[trigger] c.inventory@[i]).spec_is_empty(),
    {
        let mut inventory: Vec<ItemStack> = Vec::new();
        let mut i: usize = 0;
        while i < CHEST_SIZE
            invariant
                i <= CHEST_SIZE,
                inventory@.len() == i,
                forall|j: int| 0 <= j < i ==> #[trigger] inventory@[j] == (ItemStack {
                    item: None,
                    size: 0u32,
                    capacity: 0u32,
                }),
            decreases CHEST_SIZE - i,
        {
            inventory.push(ItemStack { item: None, size: 0, capacity: 0 });
            i = i + 1;
        }
        Chest { inventory }
    }

    /// One interaction against a chest slot, through the held cursor stack.
    /// The total count over the chest and the held stack is conserved.
    pub fn handle_interaction(&mut self, held: &mut ItemStack, interaction: InterfaceInteraction)
        requires
            old(self).wf(),
            old(held).wf(),
        ensures
            final(self).wf(),
            final(held).wf(),
            final(self).inventory@.len() == old(self).inventory@.len(),
            crate::items::total_items(final(self).inventory@, final(self).inventory@.len() as int)
                + final(held).size == crate::items::total_items(
                old(self).inventory@,
                old(self).inventory@.len() as int,
            ) + old(held).size,
            ({
                let (index, quantity, take) = match interaction {
                    InterfaceInteraction::TakeItem { index, quantity } => (
                        index as int,
                        quantity,
                        true,
                    ),
                    InterfaceInteraction::PlaceItem { index, quantity } => (
                        index as int,
                        quantity,
                        false,
                    ),
                };
                if index < CHEST_SIZE {
                    &&& spec_click_effect(
                        old(self).inventory@[index],
                        *old(held),
                        final(self).inventory@[index],
                        *final(held),
                        quantity,
                        take,
                    )
                    &&& forall|i: int|
                        0 <= i < old(self).inventory@.len() && i != index
                            ==> final(self).inventory@[i] == old(self).inventory@[i]
                } else {
                    final(self).inventory@ == old(self).inventory@ && *final(held) == *old(held)
                }
            }),
    {
        let (index, quantity, take) = match interaction {
            InterfaceInteraction::TakeItem { index, quantity } => (index, quantity, true),
            InterfaceInteraction::PlaceItem { index, quantity } => (index, quantity, false),
        };
        if index >= CHEST_SIZE {
            return ;
        }
        let ghost pre = self.inventory@;
        let mut slot = self.inventory[index];
        if take {
            slot.transfer_to(held, quantity);
        } else {
            held.transfer_to(&mut slot, quantity);
        }
        self.inventory[index] = slot;
        proof {
            crate::items::lemma_total_items_update(
                pre,
                self.inventory@,
                index as int,
                self.inventory@.len() as int,
            );
        }
    }
}

/// Which players stand at which interactive block (a chest, a furnace, a
/// crafting table), and the reverse.
pub struct ActiveUsers {
    pub owner_to_players: Vec<(u64, Vec<u64>)>,
    pub player_to_owner: Vec<(u64, u64)>,
}

impl ActiveUsers {
    /// Nobody stands anywhere.
    pub fn new() -> (r: ActiveUsers)
        ensures
            r.owner_to_players@.len() == 0,
            r.player_to_owner@.len() == 0,
    {
        ActiveUsers { owner_to_players: Vec::new(), player_to_owner: Vec::new() }
    }

    fn owner_slot(&self, owner: u64) -> (r: Option<usize>)
        ensures
            match r {
                Some(i) => i < self.owner_to_players@.len() && self.owner_to_players@[i as int].0
                    == owner,
                None => forall|i: int|
                    0 <= i < self.owner_to_players@.len() ==> (
                    #[trigger] self.owner_to_players@[i]).0 != owner,
            },
    {
        let mut i: usize = 0;
        while i < self.owner_to_players.len()
            invariant
                i <= self.owner_to_players@.len(),
                forall|j: int| 0 <= j < i ==> (#[trigger] self.owner_to_players@[j]).0 != owner,
            decreases self.owner_to_players@.len() - i,
        {
            if self.owner_to_players[i].0 == owner {
                return Some(i);
            }
            i = i + 1;
        }
        None
    }

    fn player_slot(&self, player: u64) -> (r: Option<usize>)
        ensures
            match r {
                Some(i) => i < self.player_to_owner@.len() && self.player_to_owner@[i as int].0
                    == player,
                None => forall|i: int|
                    0 <= i < self.player_to_owner@.len() ==> (
                    #[trigger] self.player_to_owner@[i]).0 != player,
            },
    {
        let mut i: usize = 0;
        while i < self.player_to_owner.len()
            invariant
                i <= self.player_to_owner@.len(),
                forall|j: int| 0 <= j < i ==> (#[trigger] self.player_to_owner@[j]).0 != player,
            decreases self.player_to_owner@.len() - i,
        {
            if self.player_to_owner[i].0 == player {
                return Some(i);
            }
            i = i + 1;
        }
        None
    }

    /// The players standing at an owner.
    pub fn players_of(&self, owner: u64) -> (r: Option<&Vec<u64>>)
        ensures
            match r {
                Some(v) => exists|i: int|
                    0 <= i < self.owner_to_players@.len()
                        && (#[trigger] self.owner_to_players@[i]).0 == owner
                        && self.owner_to_players@[i].1@ == v@,
                None => forall|i: int|
                    0 <= i < self.owner_to_players@.len() ==> (
                    #[trigger] self.owner_to_players@[i]).0 != owner,
            },
    {
        match self.owner_slot(owner) {
            Some(i) => Some(&self.owner_to_players[i].1),
            None => None,
        }
    }

    /// A player walks up to an owner: they leave whatever they stood at and
    /// are recorded under the new one.
    pub fn set_active(&mut self, player: u64, owner: u64)
        ensures
            exists|i: int|
                0 <= i < final(self).owner_to_players@.len()
                    && (#[trigger] final(self).owner_to_players@[i]).0 == owner
                    && final(self).owner_to_players@[i].1@.contains(player),
    {
        if let Some(slot) = self.player_slot(player) {
            let previous = self.player_to_owner[slot].1;
            if let Some(owner_slot) = self.owner_slot(previous) {
                let mut list: Vec<u64> = Vec::new();
                std::mem::swap(&mut list, &mut self.owner_to_players[owner_slot].1);
                remove_first_u64(&mut list, player);
                std::mem::swap(&mut list, &mut self.owner_to_players[owner_slot].1);
            }
            self.player_to_owner[slot] = (player, owner);
        } else {
            self.player_to_owner.push((player, owner));
        }
        match self.owner_slot(owner) {
            Some(i) => {
                self.owner_to_players[i].1.push(player);
                proof {
                    assert(self.owner_to_players@[i as int].1@.last() == player);
                }
            },
            None => {
                let mut list: Vec<u64> = Vec::new();
                list.push(player);
                self.owner_to_players.push((owner, list));
                proof {
                    assert(self.owner_to_players@.last().1@[0] == player);
                }
            },
        }
    }

    /// An owner despawns: forget it and everybody standing at it.
    pub fn remove_owner(&mut self, owner: u64)
        ensures
            true,
    {
        let slot = match self.owner_slot(owner) {
            Some(i) => i,
            None => return ,
        };
        let (_, players) = self.owner_to_players.remove(slot);
        let mut k: usize = 0;
        while k < players.len()
            invariant
                k <= players@.len(),
            decreases players@.len() - k,
        {
            let p = players[k];
            match self.player_slot(p) {
                Some(i) => {
                    self.player_to_owner.remove(i);
                },
                None => {},
            }
            k = k + 1;
        }
    }
}

/// Remove the first occurrence of a value.
fn remove_first_u64(list: &mut Vec<u64>, value: u64)
    ensures
        final(list)@.len() <= old(list)@.len(),
{
    let mut i: usize = 0;
    while i < list.len()
        invariant
            i <= list@.len(),
            list@ == old(list)@,
        decreases list@.len() - i,
    {
        if list[i] == value {
            list.remove(i);
            return ;
        }
        i = i + 1;
    }
}

} // verus!
