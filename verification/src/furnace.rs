//! The furnace: fuel, heat, smelting progress and the interfaces they feed.
//!
//! Heat and progress run in microseconds. Smelting needs both a matching
//! recipe in the crucible and heat; burning one unit of fuel opens a heat
//! window, and a finished smelt moves its product to the output and starts
//! over while fuel and ingredients last.

use vstd::prelude::*;
use crate::crafting::{CraftingGrid, RecipeCollection};
use crate::interact::Items;
use crate::items::ItemStack;

verus! {

/// Microseconds one smelt takes.
pub const SMELT_TIME_US: u64 = 10_000_000;

/// Fire icons on the heat gauge.
pub const HEAT_STAGES: u64 = 12;

/// Arrow segments on the progress gauge.
pub const PROGRESS_STAGES: u64 = 16;

/// One furnace's state.
pub struct Furnace {
    /// The single ingredient slot.
    pub crucible: CraftingGrid,
    /// The fuel slot.
    pub fuel: ItemStack,
    /// The product slot; it holds arbitrarily many items.
    pub output: ItemStack,
    /// Microseconds smelted of the current item, if one is smelting.
    pub progress_us: Option<u64>,
    /// Microseconds of heat left.
    pub heat_us: u64,
    /// The heat one unit of the burning fuel opened with.
    pub heat_max_us: u64,
    /// Whether the world shows the lit block.
    pub on: bool,
}

impl Furnace {
    pub open spec fn wf(self) -> bool {
        &&& self.crucible.wf()
        &&& self.crucible.slots@.len() == 1
        &&& self.fuel.wf()
        &&& self.output.wf()
        &&& self.heat_us <= self.heat_max_us
        &&& match self.progress_us {
            Some(p) => p <= SMELT_TIME_US,
            None => true,
        }
    }

    /// A cold, empty furnace.
    pub fn new() -> (f: Furnace)
        ensures
            f.wf(),
            f.heat_us == 0,
            f.progress_us is None,
            !f.on,
    {
        Furnace {
            crucible: CraftingGrid::with_size(1),
            fuel: ItemStack::new_empty(),
            output: ItemStack::new_empty(),
            progress_us: None,
            heat_us: 0,
            heat_max_us: 0,
            on: false,
        }
    }

    /// Whether something is smelting right now: an item under way and heat
    /// to push it.
    pub fn is_smelting(&self) -> (r: bool)
        ensures
            r == (self.progress_us is Some && self.heat_us != 0),
    {
        self.progress_us.is_some() && self.heat_us != 0
    }

    /// How many fire icons show: heat left over the last fuel's full heat,
    /// rounded up to a twelfth.
    pub fn heat_stage(&self) -> (r: u64)
        requires
            self.wf(),
        ensures
            r <= HEAT_STAGES,
            (r == 0) == (self.heat_us == 0 || self.heat_max_us == 0),
    {
        if self.heat_max_us == 0 || self.heat_us == 0 {
            return 0;
        }
        // Ceiling division of heat * stages by the full heat.
        let scaled = (self.heat_us as u128) * (HEAT_STAGES as u128);
        let stage = (scaled + (self.heat_max_us as u128) - 1) / (self.heat_max_us as u128);
        proof {
            assert((self.heat_us as int) * (HEAT_STAGES as int) + self.heat_max_us - 1
                < (self.heat_max_us as int) * (HEAT_STAGES as int) + self.heat_max_us)
                by (nonlinear_arith)
                requires
                    0 < self.heat_us <= self.heat_max_us,
            ;
            assert(((self.heat_max_us as int) * (HEAT_STAGES as int) + self.heat_max_us - 1) / (
            self.heat_max_us as int) <= HEAT_STAGES) by (nonlinear_arith)
                requires
                    0 < self.heat_max_us,
            ;
            vstd::arithmetic::div_mod::lemma_div_is_ordered(
                (self.heat_us as int) * (HEAT_STAGES as int) + self.heat_max_us - 1,
                (self.heat_max_us as int) * (HEAT_STAGES as int) + self.heat_max_us - 1,
                self.heat_max_us as int,
            );
            assert(stage >= 1) by (nonlinear_arith)
                requires
                    0 < self.heat_us,
                    0 < self.heat_max_us,
                    stage == ((self.heat_us as int) * (HEAT_STAGES as int) + self.heat_max_us
                        - 1) / (self.heat_max_us as int),
                    HEAT_STAGES == 12,
            ;
        }
        stage as u64
    }

    /// How many arrow segments show: progress over the smelt time, in
    /// sixteenths, rounded down.
    pub fn progress_stage(&self) -> (r: u64)
        requires
            self.wf(),
        ensures
            r <= PROGRESS_STAGES,
            self.progress_us is None ==> r == 0,
    {
        let progress = match self.progress_us {
            Some(p) => p,
            None => return 0,
        };
        (progress * PROGRESS_STAGES) / SMELT_TIME_US
    }

    /// Try to (re)start smelting: a smeltable crucible keeps or gains a
    /// progress marker, anything else clears it; a cold furnace with a
    /// smeltable crucible burns one unit of fuel for its heat window.
    /// Returns whether fuel was burnt.
    pub fn cold_start(&mut self, items: &Items, smelting: &RecipeCollection) -> (burnt: bool)
        requires
            old(self).wf(),
            items.wf(),
            smelting.wf(),
        ensures
            final(self).wf(),
            final(self).crucible.slots@ == old(self).crucible.slots@,
            final(self).output == old(self).output,
            final(self).on == old(self).on,
            !burnt ==> final(self).heat_us == old(self).heat_us && final(self).heat_max_us == old(
                self,
            ).heat_max_us && final(self).fuel == old(self).fuel,
            burnt ==> old(self).heat_us == 0 && final(self).heat_us == final(self).heat_max_us
                && final(self).fuel.size == old(self).fuel.size - 1 && ({
                let it = old(self).fuel.item.unwrap() as int;
                old(self).fuel.item is Some && it < items.configs@.len() && items.configs@[
                    it
                ].fuel_us == Some(final(self).heat_us)
            }),
            crate::crafting::spec_collection_craftable(
                smelting.recipes@,
                old(self).crucible.slots@,
            ) ==> final(self).progress_us is Some,
            !crate::crafting::spec_collection_craftable(
                smelting.recipes@,
                old(self).crucible.slots@,
            ) ==> final(self).progress_us is None && !burnt,
    {
        let smeltable = smelting.get_output(&self.crucible).is_some();
        if smeltable {
            if self.progress_us.is_none() {
                self.progress_us = Some(0);
            }
        } else {
            self.progress_us = None;
            return false;
        }
        if self.heat_us == 0 {
            if let Some(item) = self.fuel.item {
                if let Some(config) = items.get_config(item) {
                    if let Some(fuel_us) = config.fuel_us {
                        self.fuel.take(1);
                        self.heat_us = fuel_us;
                        self.heat_max_us = fuel_us;
                        return true;
                    }
                }
            }
        }
        false
    }

    /// Burn down the heat window by one tick's time.
    pub fn tick_heat(&mut self, dt_us: u64)
        requires
            old(self).wf(),
        ensures
            final(self).wf(),
            final(self).heat_us == if old(self).heat_us >= dt_us {
                old(self).heat_us - dt_us
            } else {
                0int
            },
            final(self).heat_max_us == old(self).heat_max_us,
            final(self).progress_us == old(self).progress_us,
            final(self).fuel == old(self).fuel,
            final(self).output == old(self).output,
            final(self).on == old(self).on,
    {
        self.heat_us = if self.heat_us >= dt_us {
            self.heat_us - dt_us
        } else {
            0
        };
    }

    /// Advance an active smelt by one tick; when it completes, craft from
    /// the crucible into the output (which holds any amount) and clear the
    /// marker for the next round. Returns whether a smelt completed.
    pub fn tick_progress(&mut self, dt_us: u64, smelting: &RecipeCollection) -> (finished: bool)
        requires
            old(self).wf(),
            smelting.wf(),
        ensures
            final(self).wf(),
            !(old(self).progress_us is Some) || old(self).heat_us == 0 ==> !finished
                && *final(self) == *old(self),
            finished ==> final(self).progress_us is None && old(self).progress_us == Some(
                SMELT_TIME_US,
            ),
            old(self).heat_us != 0 && old(self).progress_us is Some && old(
                self,
            ).progress_us.unwrap() < SMELT_TIME_US ==> !finished && final(self).progress_us
                == Some(
                if old(self).progress_us.unwrap() + dt_us <= SMELT_TIME_US {
                    (old(self).progress_us.unwrap() + dt_us) as u64
                } else {
                    SMELT_TIME_US
                },
            ) && final(self).crucible.slots@ == old(self).crucible.slots@ && final(self).output
                == old(self).output,
    {
        if !(self.progress_us.is_some() && self.heat_us != 0) {
            return false;
        }
        let progress = match self.progress_us {
            Some(p) => p,
            None => return false,
        };
        if progress >= SMELT_TIME_US {
            // Done: move the product over and rearm.
            if let Some(mut product) = smelting.craft(&mut self.crucible, 1) {
                let mut output = self.output;
                product.transfer_to(&mut output, u32::MAX);
                // The output slot holds any amount.
                if output.size > 0 && output.capacity < u32::MAX {
                    output.capacity = u32::MAX;
                }
                self.output = output;
            }
            self.progress_us = None;
            return true;
        }
        let next = if SMELT_TIME_US - progress <= dt_us {
            SMELT_TIME_US
        } else {
            progress + dt_us
        };
        self.progress_us = Some(next);
        false
    }
}

} // verus!
