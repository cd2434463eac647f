//! Cooldown timers: simulation-time counters that gate firing.

use vstd::prelude::*;

verus! {

/// Time left before the owner may fire again; zero means ready.
#[derive(Clone, Copy, PartialEq, Eq, Structural, Debug)]
pub struct Cooldown {
    pub time_remaining_ms: u64,
}

impl Cooldown {
    /// A cooldown that is ready at once.
    pub fn ready() -> (r: Cooldown)
        ensures
            r.time_remaining_ms == 0,
    {
        Cooldown { time_remaining_ms: 0 }
    }

    /// Whether the owner may fire.
    pub fn is_ready(&self) -> (r: bool)
        ensures
            r <==> self.time_remaining_ms == 0,
    {
        self.time_remaining_ms == 0
    }

    /// Let `dt_ms` milliseconds of simulation time pass: the remaining
    /// time drops by that much, with a floor at zero.
    pub fn tick(&mut self, dt_ms: u32)
        ensures
            final(self).time_remaining_ms == (if old(self).time_remaining_ms >= dt_ms {
                old(self).time_remaining_ms - dt_ms
            } else {
                0
            }),
    {
        if self.time_remaining_ms >= dt_ms as u64 {
            self.time_remaining_ms = self.time_remaining_ms - dt_ms as u64;
        } else {
            self.time_remaining_ms = 0;
        }
    }

    /// Add a firing delay after a shot.
    pub fn arm(&mut self, duration_ms: u64)
        requires
            old(self).time_remaining_ms + duration_ms <= u64::MAX,
        ensures
            final(self).time_remaining_ms == old(self).time_remaining_ms + duration_ms,
    {
        self.time_remaining_ms = self.time_remaining_ms + duration_ms;
    }
}

} // verus!
