//! Knockback impulses: a transient velocity applied to a hit entity,
//! decaying linearly to zero over a fixed duration, after which the
//! component is removed.

use vstd::prelude::*;

use crate::geom::mul_div_trunc;
use crate::geom::spec_div_trunc;
use crate::geom::Vec2I;
use crate::SPEED_LIMIT;

verus! {

/// A decaying impulse velocity on one entity.
#[derive(Clone, Copy, PartialEq, Eq, Structural, Debug)]
pub struct Knockback {
    /// The impulse velocity at the moment of application, in coordinate
    /// units per second.
    pub initial: Vec2I,
    /// The fixed decay window, in milliseconds.
    pub duration_ms: u32,
    /// Time left; the component is removed when this reaches zero.
    pub remaining_ms: u32,
}

/// One coordinate of the decayed velocity: the initial value scaled by
/// the fraction of the window still remaining, truncated toward zero.
pub open spec fn spec_decayed(v: int, rem: int, dur: int) -> int {
    spec_div_trunc(v * rem, dur)
}

impl Knockback {
    pub open spec fn wf(self) -> bool {
        &&& 0 < self.duration_ms
        &&& self.remaining_ms <= self.duration_ms
        &&& -SPEED_LIMIT <= self.initial.x <= SPEED_LIMIT
        &&& -SPEED_LIMIT <= self.initial.y <= SPEED_LIMIT
    }

    /// The velocity this impulse contributes right now.
    pub open spec fn spec_velocity(self) -> Vec2I {
        Vec2I {
            x: spec_decayed(self.initial.x as int, self.remaining_ms as int, self.duration_ms as int) as i64,
            y: spec_decayed(self.initial.y as int, self.remaining_ms as int, self.duration_ms as int) as i64,
        }
    }

    /// A fresh impulse: the whole window lies ahead.
    pub fn new(initial: Vec2I, duration_ms: u32) -> (r: Knockback)
        requires
            0 < duration_ms,
            -SPEED_LIMIT <= initial.x <= SPEED_LIMIT,
            -SPEED_LIMIT <= initial.y <= SPEED_LIMIT,
        ensures
            r.wf(),
            r == (Knockback { initial, duration_ms, remaining_ms: duration_ms }),
    {
        Knockback { initial, duration_ms, remaining_ms: duration_ms }
    }

    /// The velocity this impulse contributes right now; its magnitude
    /// never exceeds the initial impulse.
    pub fn velocity(&self) -> (v: Vec2I)
        requires
            self.wf(),
        ensures
            v == self.spec_velocity(),
            -SPEED_LIMIT <= v.x <= SPEED_LIMIT,
            -SPEED_LIMIT <= v.y <= SPEED_LIMIT,
    {
        let vx = decayed_coord(self.initial.x, self.remaining_ms, self.duration_ms);
        let vy = decayed_coord(self.initial.y, self.remaining_ms, self.duration_ms);
        Vec2I { x: vx, y: vy }
    }

    /// Let `dt_ms` milliseconds pass: the remaining window shrinks, with
    /// a floor at zero. Returns whether the impulse has fully decayed and
    /// the component should be removed.
    pub fn step(&mut self, dt_ms: u32) -> (expired: bool)
        requires
            old(self).wf(),
        ensures
            final(self).wf(),
            final(self).initial == old(self).initial,
            final(self).duration_ms == old(self).duration_ms,
            final(self).remaining_ms == (if old(self).remaining_ms >= dt_ms {
                old(self).remaining_ms - dt_ms
            } else {
                0int
            }),
            expired <==> final(self).remaining_ms == 0,
    {
        if self.remaining_ms >= dt_ms {
            self.remaining_ms = self.remaining_ms - dt_ms;
        } else {
            self.remaining_ms = 0;
        }
        self.remaining_ms == 0
    }
}

fn decayed_coord(v: i64, rem: u32, dur: u32) -> (r: i64)
    requires
        0 < dur,
        rem <= dur,
        -SPEED_LIMIT <= v <= SPEED_LIMIT,
    ensures
        r == spec_decayed(v as int, rem as int, dur as int),
        -SPEED_LIMIT <= r <= SPEED_LIMIT,
{
    let a: u64 = if v < 0 {
        (-v) as u64
    } else {
        v as u64
    };
    let m: i64 = mul_div_trunc(rem as i64, a, dur as u64);
    proof {
        assert((rem as int) * (a as int) == (a as int) * (rem as int)) by (nonlinear_arith);
        assert((-(a as int)) * (rem as int) == -((a as int) * (rem as int))) by (nonlinear_arith);
        assert(m >= 0) by {
            assert((rem as int) * (a as int) >= 0) by (nonlinear_arith)
                requires
                    rem as int >= 0,
                    a as int >= 0,
            ;
        }
    }
    if v < 0 {
        -m
    } else {
        m
    }
}

/// A fully decayed impulse contributes no velocity: at the end of its
/// window the knockback is exactly zero and the component can go.
pub proof fn lemma_decay_reaches_zero(k: Knockback)
    requires
        k.wf(),
        k.remaining_ms == 0,
    ensures
        k.spec_velocity() == (Vec2I { x: 0, y: 0 }),
{
    assert((k.initial.x as int) * 0 == 0) by (nonlinear_arith);
    assert((k.initial.y as int) * 0 == 0) by (nonlinear_arith);
}

} // verus!
