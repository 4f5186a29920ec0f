//! Wheat growth: a planted crop climbs through its stages on a steady timer.

use vstd::prelude::*;

verus! {

/// The last growth stage; a crop at this stage is ripe and grows no more.
pub const WHEAT_LAST_STAGE: u8 = 6;

/// Microseconds between growth steps.
pub const GROW_INTERVAL_US: u64 = 1_000_000;

/// One growing crop.
#[derive(Clone, Copy, PartialEq, Eq, Structural, Debug)]
pub struct Wheat {
    /// The current stage, up to the last.
    pub stage: u8,
    /// Microseconds towards the next step.
    pub timer_us: u64,
}

impl Wheat {
    pub open spec fn wf(self) -> bool {
        &&& self.stage <= WHEAT_LAST_STAGE
        &&& self.timer_us < GROW_INTERVAL_US
    }

    /// A crop planted at a stage.
    pub fn new(stage: u8) -> (w: Wheat)
        ensures
            w.wf(),
            w.stage == if stage <= WHEAT_LAST_STAGE {
                stage
            } else {
                WHEAT_LAST_STAGE
            },
            w.timer_us == 0,
    {
        let clamped = if stage <= WHEAT_LAST_STAGE {
            stage
        } else {
            WHEAT_LAST_STAGE
        };
        Wheat { stage: clamped, timer_us: 0 }
    }

    /// One tick of growth. A ripe crop stays put; otherwise the timer
    /// accrues, and each elapsed interval advances one stage (at most one
    /// step per tick, as the world replaces the block in between). Returns
    /// the stage grown into, if the crop stepped.
    pub fn tick(&mut self, dt_us: u64) -> (grown: Option<u8>)
        requires
            old(self).wf(),
            dt_us < GROW_INTERVAL_US,
        ensures
            final(self).wf(),
            old(self).stage == WHEAT_LAST_STAGE ==> grown is None && *final(self) == *old(self),
            match grown {
                Some(stage) => stage == old(self).stage + 1 && final(self).stage == stage
                    && old(self).timer_us + dt_us >= GROW_INTERVAL_US,
                None => final(self).stage == old(self).stage && (final(self).timer_us == old(
                    self,
                ).timer_us + dt_us || old(self).stage == WHEAT_LAST_STAGE),
            },
    {
        if self.stage == WHEAT_LAST_STAGE {
            return None;
        }
        let summed = self.timer_us + dt_us;
        if summed >= GROW_INTERVAL_US {
            self.timer_us = summed - GROW_INTERVAL_US;
            self.stage = self.stage + 1;
            Some(self.stage)
        } else {
            self.timer_us = summed;
            None
        }
    }
}

} // verus!
