//! Normalized angles with wraparound arithmetic, in thousandths of a
//! degree. Every directional computation goes through this type; the
//! conversion to and from unit vectors is presentation-side work.

use vstd::arithmetic::div_mod::lemma_fundamental_div_mod;
use vstd::arithmetic::div_mod::lemma_fundamental_div_mod_converse;
use vstd::prelude::*;

verus! {

/// Angle units in a full turn; one unit is a thousandth of a degree.
pub const FULL_TURN: i64 = 360_000;

/// Angle units in a half turn.
pub const HALF_TURN: i64 = 180_000;

/// An angle kept normalized to the canonical half-open range
/// `[0, FULL_TURN)`.
#[derive(Clone, Copy, PartialEq, Eq, Structural, Debug)]
pub struct Angle {
    pub units: i64,
}

/// `raw` brought into `[0, FULL_TURN)` by wraparound.
pub open spec fn spec_norm(raw: int) -> int {
    raw % (FULL_TURN as int)
}

/// The signed difference `a - b` the short way around, in
/// `[-HALF_TURN, HALF_TURN)`.
pub open spec fn spec_signed_diff(a: Angle, b: Angle) -> int {
    let d = spec_norm(a.units - b.units);
    if d >= HALF_TURN {
        d - FULL_TURN
    } else {
        d
    }
}

/// `spec_norm(raw) == u` exactly when `u` is in range and differs from
/// `raw` by a whole number of turns.
pub proof fn lemma_norm_is(raw: int, q: int, u: int)
    requires
        0 <= u < FULL_TURN,
        raw == q * (FULL_TURN as int) + u,
    ensures
        spec_norm(raw) == u,
{
    lemma_fundamental_div_mod_converse(raw, FULL_TURN as int, q, u);
}

impl Angle {
    pub open spec fn wf(self) -> bool {
        0 <= self.units < FULL_TURN
    }

    pub fn zero() -> (r: Angle)
        ensures
            r.wf(),
            r.units == 0,
    {
        Angle { units: 0 }
    }

    /// Any number of units, normalized by wraparound.
    pub fn from_raw(raw: i64) -> (r: Angle)
        ensures
            r.wf(),
            r.units == spec_norm(raw as int),
    {
        if raw >= 0 {
            let m: u64 = (raw as u64) % (FULL_TURN as u64);
            proof {
                lemma_fundamental_div_mod(raw as int, FULL_TURN as int);
            }
            Angle { units: m as i64 }
        } else {
            let k: u64 = (-(raw as i128)) as u64;
            let m: u64 = k % (FULL_TURN as u64);
            proof {
                lemma_fundamental_div_mod(k as int, FULL_TURN as int);
                let qk = (k as int) / (FULL_TURN as int);
                if m == 0 {
                    lemma_norm_is(raw as int, -qk, 0);
                } else {
                    lemma_norm_is(raw as int, -qk - 1, FULL_TURN - m);
                }
            }
            if m == 0 {
                Angle { units: 0 }
            } else {
                Angle { units: FULL_TURN - (m as i64) }
            }
        }
    }

    /// Wraparound sum of two normalized angles.
    pub fn add(self, other: Angle) -> (r: Angle)
        requires
            self.wf(),
            other.wf(),
        ensures
            r.wf(),
            r.units == spec_norm(self.units + other.units),
    {
        let s: i64 = self.units + other.units;
        if s >= FULL_TURN {
            proof {
                lemma_norm_is(s as int, 1, s - FULL_TURN);
            }
            Angle { units: s - FULL_TURN }
        } else {
            proof {
                lemma_norm_is(s as int, 0, s as int);
            }
            Angle { units: s }
        }
    }

    /// Wraparound difference of two normalized angles.
    pub fn sub(self, other: Angle) -> (r: Angle)
        requires
            self.wf(),
            other.wf(),
        ensures
            r.wf(),
            r.units == spec_norm(self.units - other.units),
    {
        let d: i64 = self.units - other.units;
        if d < 0 {
            proof {
                lemma_norm_is(d as int, -1, d + FULL_TURN);
            }
            Angle { units: d + FULL_TURN }
        } else {
            proof {
                lemma_norm_is(d as int, 0, d as int);
            }
            Angle { units: d }
        }
    }

    /// The signed difference `self - other` the short way around, in
    /// `[-HALF_TURN, HALF_TURN)`: negative when turning backward from
    /// `other` reaches `self` quickest.
    pub fn signed_diff(self, other: Angle) -> (r: i64)
        requires
            self.wf(),
            other.wf(),
        ensures
            r == spec_signed_diff(self, other),
            -HALF_TURN <= r < HALF_TURN,
    {
        let d: i64 = self.units - other.units;
        let n: i64 = if d < 0 {
            proof {
                lemma_norm_is(d as int, -1, d + FULL_TURN);
            }
            d + FULL_TURN
        } else {
            proof {
                lemma_norm_is(d as int, 0, d as int);
            }
            d
        };
        if n >= HALF_TURN {
            n - FULL_TURN
        } else {
            n
        }
    }
}

/// Whether a facing angle is within `tolerance` units of `target`, the
/// short way around.
pub open spec fn spec_aligned(cur: Angle, target: Angle, tolerance: int) -> bool {
    -tolerance <= spec_signed_diff(target, cur) <= tolerance
}

/// Where a facing angle stands after one bounded turn toward `target`:
/// directly on `target` when it is within `max_step` units, otherwise
/// `max_step` units along the shorter way around.
pub open spec fn spec_rotate_toward(cur: Angle, target: Angle, max_step: int) -> Angle {
    let d = spec_signed_diff(target, cur);
    if -max_step <= d <= max_step {
        target
    } else if d > 0 {
        Angle { units: spec_norm(cur.units + max_step) as i64 }
    } else {
        Angle { units: spec_norm(cur.units - max_step) as i64 }
    }
}

/// One bounded turn toward `target`. Returns the new facing angle and
/// whether it reached `target` this step.
pub fn rotate_toward(cur: Angle, target: Angle, max_step: u64) -> (r: (Angle, bool))
    requires
        cur.wf(),
        target.wf(),
    ensures
        r.0 == spec_rotate_toward(cur, target, max_step as int),
        r.1 <==> spec_aligned(cur, target, max_step as int),
        r.1 ==> r.0 == target,
        r.0.wf(),
{
    let d: i64 = target.signed_diff(cur);
    let ad: u64 = if d < 0 {
        (-d) as u64
    } else {
        d as u64
    };
    if ad <= max_step {
        (target, true)
    } else {
        let step: i64 = max_step as i64;
        let u: i64 = if d > 0 {
            let s: i64 = cur.units + step;
            if s >= FULL_TURN {
                proof {
                    lemma_norm_is(s as int, 1, s - FULL_TURN);
                }
                s - FULL_TURN
            } else {
                proof {
                    lemma_norm_is(s as int, 0, s as int);
                }
                s
            }
        } else {
            let s: i64 = cur.units - step;
            if s < 0 {
                proof {
                    lemma_norm_is(s as int, -1, s + FULL_TURN);
                }
                s + FULL_TURN
            } else {
                proof {
                    lemma_norm_is(s as int, 0, s as int);
                }
                s
            }
        };
        (Angle { units: u }, false)
    }
}

} // verus!
