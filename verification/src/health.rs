//! Hearts, damage, healing, invincibility windows and fall tracking.
//!
//! Hearts saturate: damage never brings them below zero, healing never above
//! the maximum, and an entity is dead exactly when its hearts reach zero.

use vstd::prelude::*;
use crate::items::{Equipment, Inventory, ItemStack};

verus! {

/// How long a hit leaves its target invincible, in microseconds.
pub const INVINCIBILITY_US: u64 = 500_000;

/// An entity's hit points and the invincibility window after a hit.
#[derive(Clone, Debug)]
pub struct Health {
    /// Current hearts.
    pub hearts: u32,
    /// The most hearts the entity can have.
    pub max: u32,
    /// Microseconds of invincibility left, if a window is open.
    pub invincibility_us: Option<u64>,
}

impl Health {
    pub open spec fn wf(self) -> bool {
        self.hearts <= self.max
    }

    pub open spec fn spec_is_dead(self) -> bool {
        self.hearts == 0
    }

    /// Full health with `hearts` as the maximum.
    pub fn new(hearts: u32) -> (h: Health)
        ensures
            h.wf(),
            h == (Health { hearts, max: hearts, invincibility_us: None::<u64> }),
    {
        Health { hearts, max: hearts, invincibility_us: None }
    }

    /// The default player health of twenty hearts.
    pub fn new_player() -> (h: Health)
        ensures
            h.wf(),
            h == (Health { hearts: 20u32, max: 20u32, invincibility_us: None::<u64> }),
    {
        Health { hearts: 20, max: 20, invincibility_us: None }
    }

    pub fn is_dead(&self) -> (r: bool)
        ensures
            r == self.spec_is_dead(),
    {
        self.hearts == 0
    }

    pub fn is_invincible(&self) -> (r: bool)
        ensures
            r == (self.invincibility_us is Some),
    {
        self.invincibility_us.is_some()
    }

    /// Add hearts, saturating at the maximum. Returns the hearts before, so
    /// a caller can reveal exactly the heart icons that lit up.
    pub fn heal(&mut self, healing: u32) -> (before: u32)
        requires
            old(self).wf(),
        ensures
            final(self).wf(),
            before == old(self).hearts,
            final(self).max == old(self).max,
            final(self).invincibility_us == old(self).invincibility_us,
            final(self).hearts == if old(self).hearts + healing <= old(self).max {
                old(self).hearts + healing
            } else {
                old(self).max as int
            },
    {
        let before = self.hearts;
        let summed = if u32::MAX - self.hearts >= healing {
            self.hearts + healing
        } else {
            u32::MAX
        };
        self.hearts = if summed <= self.max {
            summed
        } else {
            self.max
        };
        before
    }

    /// Remove hearts, saturating at zero. Returns the hearts before, so a
    /// caller can reveal exactly the heart icons that went out.
    pub fn damage(&mut self, damage: u32) -> (before: u32)
        requires
            old(self).wf(),
        ensures
            final(self).wf(),
            before == old(self).hearts,
            final(self).max == old(self).max,
            final(self).invincibility_us == old(self).invincibility_us,
            final(self).hearts == if damage <= old(self).hearts {
                old(self).hearts - damage
            } else {
                0int
            },
            final(self).spec_is_dead() <==> damage >= old(self).hearts,
    {
        let before = self.hearts;
        self.hearts = if damage <= self.hearts {
            self.hearts - damage
        } else {
            0
        };
        before
    }

    /// Advance the invincibility window; it closes when its time runs out.
    /// Returns whether it closed on this call.
    pub fn tick_invincibility(&mut self, dt_us: u64) -> (closed: bool)
        requires
            old(self).wf(),
        ensures
            final(self).wf(),
            final(self).hearts == old(self).hearts,
            final(self).max == old(self).max,
            match old(self).invincibility_us {
                None => !closed && final(self).invincibility_us is None,
                Some(left) => {
                    if left <= dt_us {
                        closed && final(self).invincibility_us is None
                    } else {
                        !closed && final(self).invincibility_us == Some((left - dt_us) as u64)
                    }
                },
            },
    {
        match self.invincibility_us {
            None => false,
            Some(left) => {
                if left <= dt_us {
                    self.invincibility_us = None;
                    true
                } else {
                    self.invincibility_us = Some(left - dt_us);
                    false
                }
            },
        }
    }

    /// A hit on a live, vulnerable target: hearts drop and an invincibility
    /// window opens. A dead or invincible target is untouched.
    pub fn hit(&mut self, damage: u32) -> (applied: bool)
        requires
            old(self).wf(),
        ensures
            final(self).wf(),
            final(self).max == old(self).max,
            applied == (!old(self).spec_is_dead() && old(self).invincibility_us is None),
            !applied ==> *final(self) == *old(self),
            applied ==> final(self).invincibility_us == Some(INVINCIBILITY_US)
                && final(self).hearts == if damage <= old(self).hearts {
                old(self).hearts - damage
            } else {
                0int
            },
    {
        if self.hearts == 0 || self.invincibility_us.is_some() {
            return false;
        }
        self.invincibility_us = Some(INVINCIBILITY_US);
        self.damage(damage);
        true
    }
}

/// Healing any amount never passes the maximum; damaging any amount never
/// passes zero; in particular the extremes clamp exactly, and death is
/// exactly zero hearts.
pub proof fn lemma_health_saturation(h: Health, amount: u32)
    requires
        h.wf(),
    ensures
        ({
            let healed = if h.hearts + amount <= h.max {
                h.hearts + amount
            } else {
                h.max as int
            };
            healed <= h.max && (amount == u32::MAX ==> healed == h.max)
        }),
        ({
            let damaged = if amount <= h.hearts {
                h.hearts - amount
            } else {
                0int
            };
            damaged >= 0 && (amount == u32::MAX ==> damaged == 0)
        }),
        h.spec_is_dead() <==> h.hearts == 0,
{
}

/// Move one armor slot's stack (when any) onto the drop list, keeping the
/// running total: the list gains exactly the slot's former size.
fn drop_slot(slot: &mut ItemStack, dropped: &mut Vec<ItemStack>)
    requires
        old(slot).wf(),
    ensures
        final(slot).wf(),
        final(slot).spec_is_empty(),
        crate::items::total_items(final(dropped)@, final(dropped)@.len() as int)
            == crate::items::total_items(old(dropped)@, old(dropped)@.len() as int) + old(
            slot,
        ).size,
    {
    let ghost pre = dropped@;
    if !slot.is_empty() {
        let mut taken = ItemStack { item: None, size: 0, capacity: 0 };
        slot.swap(&mut taken);
        dropped.push(taken);
        proof {
            crate::items::lemma_total_items_prefix(pre, dropped@, pre.len() as int);
        }
    }
}

/// What one application of damage to a player caused.
pub struct DamageOutcome {
    /// Whether the hit landed (the target was alive and vulnerable).
    pub applied: bool,
    /// Whether the hit killed.
    pub died: bool,
    /// Stacks thrown out of the inventory and equipment on death, in slot
    /// order, inventory first.
    pub dropped: Vec<ItemStack>,
}

/// A hit on a player: hearts drop behind the invincibility rule, and a kill
/// empties the inventory and equipment, handing every non-empty stack back
/// in slot order for the world to scatter.
pub fn player_hit(
    health: &mut Health,
    inventory: &mut Inventory,
    equipment: &mut Equipment,
    damage: u32,
) -> (outcome: DamageOutcome)
    requires
        old(health).wf(),
        old(inventory).wf(),
        old(equipment).wf(),
    ensures
        final(health).wf(),
        final(inventory).wf(),
        final(equipment).wf(),
        outcome.applied == (!old(health).spec_is_dead() && old(health).invincibility_us is None),
        !outcome.applied ==> *final(health) == *old(health) && *final(inventory) == *old(inventory),
        outcome.applied ==> final(health).hearts == if damage <= old(health).hearts {
            old(health).hearts - damage
        } else {
            0int
        },
        outcome.died == (outcome.applied && final(health).spec_is_dead()),
        outcome.applied ==> final(health).invincibility_us == Some(INVINCIBILITY_US),
        outcome.died ==> forall|i: int|
            0 <= i < final(inventory).slots@.len() ==> (#[trigger] final(inventory).slots@[i]).spec_is_empty(),
        outcome.died ==> final(equipment).helmet.spec_is_empty()
            && final(equipment).chestplate.spec_is_empty()
            && final(equipment).leggings.spec_is_empty() && final(equipment).boots.spec_is_empty(),
        outcome.died ==> crate::items::total_items(
            outcome.dropped@,
            outcome.dropped@.len() as int,
        ) == crate::items::total_items(old(inventory).slots@, old(inventory).slots@.len() as int)
            + old(equipment).helmet.size + old(equipment).chestplate.size + old(
            equipment,
        ).leggings.size + old(equipment).boots.size,
        !outcome.died ==> *final(inventory) == *old(inventory) && *final(equipment) == *old(
            equipment,
        ) && outcome.dropped@.len() == 0,
{
    let applied = health.hit(damage);
    if !applied {
        return DamageOutcome { applied: false, died: false, dropped: Vec::new() };
    }
    if !health.is_dead() {
        return DamageOutcome { applied: true, died: false, dropped: Vec::new() };
    }

    // Death: every carried stack is dropped; the totals move to the drop
    // list, one for one.
    let mut dropped: Vec<ItemStack> = Vec::new();
    let mut i: usize = 0;
    while i < inventory.slots.len()
        invariant
            old(inventory).wf(),
            inventory.wf(),
            inventory.slots@.len() == old(inventory).slots@.len(),
            inventory.equipped == old(inventory).equipped,
            i <= inventory.slots@.len(),
            forall|j: int|
                0 <= j < i ==> (#[trigger] inventory.slots@[j]).spec_is_empty(),
            forall|j: int|
                i <= j < inventory.slots@.len() ==> #[trigger] inventory.slots@[j] == old(
                    inventory,
                ).slots@[j],
            crate::items::total_items(inventory.slots@, inventory.slots@.len() as int)
                + crate::items::total_items(dropped@, dropped@.len() as int)
                == crate::items::total_items(
                old(inventory).slots@,
                old(inventory).slots@.len() as int,
            ),
        decreases inventory.slots@.len() - i,
    {
        let ghost pre = inventory.slots@;
        let ghost pre_dropped = dropped@;
        if !inventory.slots[i].is_empty() {
            let mut taken = ItemStack { item: None, size: 0, capacity: 0 };
            let mut slot = inventory.slots[i];
            slot.swap(&mut taken);
            inventory.slots[i] = slot;
            dropped.push(taken);
            proof {
                crate::items::lemma_total_items_update(
                    pre,
                    inventory.slots@,
                    i as int,
                    inventory.slots@.len() as int,
                );
                crate::items::lemma_total_items_prefix(
                    pre_dropped,
                    dropped@,
                    pre_dropped.len() as int,
                );
            }
        }
        i = i + 1;
    }
    proof {
        // Everything left in the inventory is empty, so the drop list now
        // carries the whole former count.
        crate::items::lemma_total_items_all_empty(
            inventory.slots@,
            inventory.slots@.len() as int,
        );
    }
    // The four armor slots follow, each moving its whole stack.
    drop_slot(&mut equipment.helmet, &mut dropped);
    drop_slot(&mut equipment.chestplate, &mut dropped);
    drop_slot(&mut equipment.leggings, &mut dropped);
    drop_slot(&mut equipment.boots, &mut dropped);
    DamageOutcome { applied: true, died: true, dropped }
}

/// Truncating division for a positive divisor, the machine's signed `/`.
pub open spec fn spec_trunc_div(a: int, b: int) -> int {
    if a >= 0 {
        a / b
    } else {
        -((-a) / b)
    }
}

/// The machine's truncating signed division.
fn trunc_div(a: i64, b: i64) -> (r: i64)
    requires
        b > 0,
        a > i64::MIN,
    ensures
        r == spec_trunc_div(a as int, b as int),
{
    if a >= 0 {
        a / b
    } else {
        let neg = -a;
        -(neg / b)
    }
}

/// Floor division by a thousand: the whole block a milli-block height lies
/// in.
fn floor_div_1000(a: i64) -> (r: i64)
    requires
        -0x4000_0000_0000 <= a <= 0x4000_0000_0000,
    ensures
        r == a as int / 1000,
{
    let q = a / 1000;
    let rem = a % 1000;
    if rem < 0 {
        q - 1
    } else {
        q
    }
}

/// Accumulates fall height from reported positions and decides the damage a
/// landing deals. Heights are in thousandths of a block, time in
/// microseconds.
pub struct FallTracker {
    /// Hearts accrued from the fall so far.
    pub hearts: u32,
    /// The last reported height, in thousandths of a block.
    pub last_y_milli: i64,
    /// When the last report arrived.
    pub last_update_us: u64,
}

/// Downward speeds slower than this deal no damage (thousandths of a block
/// per second).
pub const FALL_SOFT_MILLI_PER_S: i64 = -100;

/// Downward speeds between the soft bound and this accrue no new fall
/// height.
pub const FALL_FAST_MILLI_PER_S: i64 = -3_500;

impl FallTracker {
    /// A tracker that starts so low nothing can look like a landing.
    pub fn new(y_milli: i64, now_us: u64) -> (t: FallTracker)
        ensures
            t.hearts == 0,
            t.last_y_milli == y_milli,
            t.last_update_us == now_us,
    {
        FallTracker { hearts: 0, last_y_milli: y_milli, last_update_us: now_us }
    }

    /// Take a new position report. Landing (vertical speed above the soft
    /// bound) converts accrued hearts beyond three into damage; slow falls
    /// reset the accrual; fast falls accrue the whole blocks descended.
    pub fn update(&mut self, y_milli: i64, now_us: u64) -> (damage: u32)
        requires
            old(self).last_update_us < now_us,
            now_us <= 0x7FFF_FFFF_FFFF_FFFF,
            -0x4000_0000 <= y_milli <= 0x4000_0000,
            -0x4000_0000 <= old(self).last_y_milli <= 0x4000_0000,
        ensures
            final(self).last_y_milli == y_milli,
            final(self).last_update_us == now_us,
            ({
                let dy = y_milli - old(self).last_y_milli;
                let dt = now_us - old(self).last_update_us;
                let speed = spec_trunc_div(dy * 1_000_000, dt as int);
                if speed > FALL_SOFT_MILLI_PER_S {
                    &&& final(self).hearts == 0
                    &&& damage == if old(self).hearts > 3 {
                        old(self).hearts - 3
                    } else {
                        0int
                    }
                } else if speed > FALL_FAST_MILLI_PER_S {
                    final(self).hearts == 0 && damage == 0
                } else {
                    // A fast fall accrues the whole blocks descended,
                    // saturating.
                    let fallen = old(self).last_y_milli as int / 1000 - y_milli as int / 1000;
                    let gain = if fallen <= 0 {
                        0int
                    } else if fallen <= u32::MAX {
                        fallen
                    } else {
                        u32::MAX as int
                    };
                    &&& damage == 0
                    &&& final(self).hearts == if old(self).hearts + gain <= u32::MAX {
                        old(self).hearts + gain
                    } else {
                        u32::MAX as int
                    }
                }
            }),
    {
        let dy = y_milli - self.last_y_milli;
        let dt = now_us - self.last_update_us;
        let speed = trunc_div(dy * 1_000_000, dt as i64);
        let damage: u32;
        if speed > FALL_SOFT_MILLI_PER_S {
            damage = if self.hearts > 3 {
                self.hearts - 3
            } else {
                0
            };
            self.hearts = 0;
        } else if speed > FALL_FAST_MILLI_PER_S {
            self.hearts = 0;
            damage = 0;
        } else {
            // Whole blocks descended since the last report.
            let fallen = floor_div_1000(self.last_y_milli) - floor_div_1000(y_milli);
            if fallen > 0 {
                let fallen32 = if fallen <= u32::MAX as i64 {
                    fallen as u32
                } else {
                    u32::MAX
                };
                self.hearts = if u32::MAX - self.hearts >= fallen32 {
                    self.hearts + fallen32
                } else {
                    u32::MAX
                };
            }
            damage = 0;
        }
        self.last_y_milli = y_milli;
        self.last_update_us = now_us;
        damage
    }
}

} // verus!
