//! The fire status: damage over time with a refresh-not-stack policy.
//! Tick interval and per-tick damage are fixed per status; applying a new
//! stack while one is active only refreshes the duration.

use vstd::prelude::*;

verus! {

/// An active fire status on one entity.
#[derive(Clone, Copy, PartialEq, Eq, Structural, Debug)]
pub struct Burning {
    /// Damage dealt by each status tick.
    pub dmg_per_tick: u32,
    /// Simulation time between status ticks; positive.
    pub tick_interval_ms: u32,
    /// Time left before the status ends; the component is removed at
    /// zero.
    pub remaining_ms: u32,
    /// Time accumulated toward the next status tick.
    pub tick_elapsed_ms: u32,
}

/// The active share of a tick: damage accrues only while the status has
/// time left.
pub open spec fn spec_active_dt(remaining: int, dt: int) -> int {
    if dt <= remaining {
        dt
    } else {
        remaining
    }
}

impl Burning {
    pub open spec fn wf(self) -> bool {
        &&& 0 < self.tick_interval_ms
        &&& self.tick_elapsed_ms < self.tick_interval_ms
    }

    /// A fresh status with its whole duration ahead.
    pub fn new(dmg_per_tick: u32, tick_interval_ms: u32, duration_ms: u32) -> (r: Burning)
        requires
            0 < tick_interval_ms,
        ensures
            r.wf(),
            r == (Burning {
                dmg_per_tick,
                tick_interval_ms,
                remaining_ms: duration_ms,
                tick_elapsed_ms: 0,
            }),
    {
        Burning { dmg_per_tick, tick_interval_ms, remaining_ms: duration_ms, tick_elapsed_ms: 0 }
    }

    /// Apply a new stack: the duration refreshes; damage per tick, the
    /// interval, and the progress toward the next tick do not stack or
    /// reset.
    pub fn refresh(&mut self, duration_ms: u32)
        requires
            old(self).wf(),
        ensures
            final(self).wf(),
            *final(self) == (Burning { remaining_ms: duration_ms, ..*old(self) }),
    {
        self.remaining_ms = duration_ms;
    }

    /// Let `dt_ms` milliseconds pass: returns how many status ticks of
    /// `dmg_per_tick` damage fall due, and whether the status has ended
    /// and the component should be removed. Time past the end of the
    /// status accrues no damage.
    pub fn step(&mut self, dt_ms: u32) -> (r: (u64, bool))
        requires
            old(self).wf(),
        ensures
            final(self).wf(),
            final(self).dmg_per_tick == old(self).dmg_per_tick,
            final(self).tick_interval_ms == old(self).tick_interval_ms,
            final(self).remaining_ms == old(self).remaining_ms - spec_active_dt(
                old(self).remaining_ms as int,
                dt_ms as int,
            ),
            r.0 == ((old(self).tick_elapsed_ms as int) + spec_active_dt(
                old(self).remaining_ms as int,
                dt_ms as int,
            )) / (old(self).tick_interval_ms as int),
            final(self).tick_elapsed_ms == ((old(self).tick_elapsed_ms as int) + spec_active_dt(
                old(self).remaining_ms as int,
                dt_ms as int,
            )) % (old(self).tick_interval_ms as int),
            r.1 <==> final(self).remaining_ms == 0,
    {
        let active: u32 = if dt_ms <= self.remaining_ms {
            dt_ms
        } else {
            self.remaining_ms
        };
        let total: u64 = self.tick_elapsed_ms as u64 + active as u64;
        let n: u64 = total / self.tick_interval_ms as u64;
        let rem: u64 = total % self.tick_interval_ms as u64;
        self.tick_elapsed_ms = rem as u32;
        self.remaining_ms = self.remaining_ms - active;
        (n, self.remaining_ms == 0)
    }
}

} // verus!
