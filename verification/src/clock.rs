//! The day/night clock: milliseconds into a twenty-minute day, wrapping.

use vstd::prelude::*;

verus! {

/// Milliseconds in one full day.
pub const DAY_LENGTH_MS: u64 = 1_200_000;

/// Dawn, the zero point.
pub const SUNRISE_MS: u64 = 0;

/// Half the day in: dusk.
pub const SUNSET_MS: u64 = 600_000;

/// A quarter in: noon.
pub const NOON_MS: u64 = 300_000;

/// Three quarters in: midnight.
pub const MIDNIGHT_MS: u64 = 900_000;

/// The current time of day.
#[derive(Clone, Copy, PartialEq, Eq, Structural, Debug)]
pub struct Clock {
    /// Milliseconds since dawn, always inside the day.
    pub time_ms: u64,
}

impl Clock {
    pub open spec fn wf(self) -> bool {
        self.time_ms < DAY_LENGTH_MS
    }

    /// A clock at dawn.
    pub fn new() -> (c: Clock)
        ensures
            c.wf(),
            c.time_ms == 0,
    {
        Clock { time_ms: 0 }
    }

    /// Set the time, wrapping into the day.
    pub fn set_time(&mut self, time_ms: u64)
        ensures
            final(self).wf(),
            final(self).time_ms == time_ms % DAY_LENGTH_MS,
    {
        self.time_ms = time_ms % DAY_LENGTH_MS;
    }

    /// The time since dawn, in milliseconds.
    pub fn get_time(&self) -> (r: u64)
        ensures
            r == self.time_ms,
    {
        self.time_ms
    }

    /// The time since dawn, in whole seconds.
    pub fn as_secs(&self) -> (r: u64)
        ensures
            r == self.time_ms / 1000,
    {
        self.time_ms / 1000
    }

    pub fn set_sunrise(&mut self)
        ensures
            final(self).wf(),
            final(self).time_ms == SUNRISE_MS,
    {
        self.time_ms = SUNRISE_MS;
    }

    pub fn set_sunset(&mut self)
        ensures
            final(self).wf(),
            final(self).time_ms == SUNSET_MS,
    {
        self.time_ms = SUNSET_MS;
    }

    pub fn set_noon(&mut self)
        ensures
            final(self).wf(),
            final(self).time_ms == NOON_MS,
    {
        self.time_ms = NOON_MS;
    }

    pub fn set_midnight(&mut self)
        ensures
            final(self).wf(),
            final(self).time_ms == MIDNIGHT_MS,
    {
        self.time_ms = MIDNIGHT_MS;
    }

    /// Advance by one tick, wrapping at the day's end.
    pub fn tick(&mut self, dt_ms: u64)
        requires
            old(self).wf(),
            dt_ms < DAY_LENGTH_MS,
        ensures
            final(self).wf(),
            final(self).time_ms == (old(self).time_ms + dt_ms) % (DAY_LENGTH_MS as int),
    {
        let summed = self.time_ms + dt_ms;
        self.time_ms = if summed >= DAY_LENGTH_MS {
            summed - DAY_LENGTH_MS
        } else {
            summed
        };
    }
}

} // verus!
