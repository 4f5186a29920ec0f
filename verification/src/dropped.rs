//! Dropped item stacks lying in the world: pickup delay, reach, and the
//! hand-off into a player's inventory.

use vstd::prelude::*;
use crate::items::{Inventory, ItemStack};

verus! {

/// How long a fresh drop refuses pickup, in microseconds.
pub const DEFAULT_PICKUP_DELAY_US: u64 = 500_000;

/// Squared reach within which a drop is pulled towards a player: two blocks,
/// in squared thousandths of a block.
pub const ATTRACT_RADIUS_SQ_MILLI: u64 = 4_000_000;

/// Squared distance at which the drop enters the inventory: a tenth of a
/// squared block, in squared thousandths.
pub const PICKUP_RADIUS_SQ_MILLI: u64 = 100_000;

/// An item stack lying in the world.
pub struct DroppedItem {
    pub stack: ItemStack,
    /// When the stack was dropped.
    pub drop_time_us: u64,
    /// How long after dropping pickup stays refused.
    pub pickup_delay_us: u64,
}

impl DroppedItem {
    pub open spec fn wf(self) -> bool {
        self.stack.wf()
    }

    /// A fresh drop with the default delay.
    pub fn new(stack: ItemStack, now_us: u64) -> (d: DroppedItem)
        requires
            stack.wf(),
        ensures
            d.wf(),
            d.stack == stack,
            d.drop_time_us == now_us,
            d.pickup_delay_us == DEFAULT_PICKUP_DELAY_US,
    {
        DroppedItem { stack, drop_time_us: now_us, pickup_delay_us: DEFAULT_PICKUP_DELAY_US }
    }

    /// The same drop with another delay.
    pub fn with_delay(self, delay_us: u64) -> (d: DroppedItem)
        requires
            self.wf(),
        ensures
            d.wf(),
            d.stack == self.stack,
            d.drop_time_us == self.drop_time_us,
            d.pickup_delay_us == delay_us,
    {
        DroppedItem { pickup_delay_us: delay_us, ..self }
    }

    /// Whether the delay has elapsed.
    pub fn can_pick_up(&self, now_us: u64) -> (r: bool)
        requires
            now_us >= self.drop_time_us,
        ensures
            r == (now_us - self.drop_time_us >= self.pickup_delay_us),
    {
        now_us - self.drop_time_us >= self.pickup_delay_us
    }
}

/// What one pickup attempt did.
#[derive(Clone, Copy, PartialEq, Eq, Structural, Debug)]
pub enum PickupOutcome {
    /// The drop delay has not elapsed.
    TooSoon,
    /// The player stands beyond the attraction radius.
    TooFar,
    /// The inventory has no slot for the item; the drop stays put.
    NoRoom,
    /// The drop is inside the attraction radius; the world should pull it
    /// towards the player, but it has not arrived yet.
    Attracting,
    /// Items moved into the inventory; the drop is gone when emptied.
    PickedUp { emptied: bool },
}

/// One player's pickup attempt on one drop. Distance is squared thousandths
/// of a block from the drop to the player's torso (the squared sum of
/// coordinate differences in thousandths). Items move only once the drop has
/// closed in; the total item count over drop and inventory is conserved.
pub fn try_pickup(
    dropped: &mut DroppedItem,
    inventory: &mut Inventory,
    now_us: u64,
    distance_sq_milli: u64,
) -> (outcome: PickupOutcome)
    requires
        old(dropped).wf(),
        old(inventory).wf(),
        now_us >= old(dropped).drop_time_us,
    ensures
        final(dropped).wf(),
        final(inventory).wf(),
        crate::items::total_items(final(inventory).slots@, final(inventory).slots@.len() as int)
            + final(dropped).stack.size == crate::items::total_items(
            old(inventory).slots@,
            old(inventory).slots@.len() as int,
        ) + old(dropped).stack.size,
        outcome != (PickupOutcome::PickedUp { emptied: true }) && outcome != (
        PickupOutcome::PickedUp { emptied: false }) ==> *final(dropped) == *old(dropped)
            && *final(inventory) == *old(inventory),
        outcome == (PickupOutcome::PickedUp { emptied: true })
            ==> final(dropped).stack.spec_is_empty(),
        outcome is TooSoon ==> now_us - old(dropped).drop_time_us < old(dropped).pickup_delay_us,
        outcome is TooFar ==> distance_sq_milli >= ATTRACT_RADIUS_SQ_MILLI,
{
    if !dropped.can_pick_up(now_us) {
        return PickupOutcome::TooSoon;
    }
    if distance_sq_milli >= ATTRACT_RADIUS_SQ_MILLI {
        return PickupOutcome::TooFar;
    }
    if !inventory.has_capacity_for(&dropped.stack) {
        return PickupOutcome::NoRoom;
    }
    if distance_sq_milli >= PICKUP_RADIUS_SQ_MILLI {
        // Close enough to attract; the world moves the drop, items wait.
        return PickupOutcome::Attracting;
    }
    let mut stack = dropped.stack;
    inventory.absorb(&mut stack);
    dropped.stack = stack;
    let emptied = dropped.stack.is_empty();
    PickupOutcome::PickedUp { emptied }
}

} // verus!
