//! Integer plane geometry: points, squared distances, an integer square
//! root, kinematic motion, and the seek step used by chasing entities.

use vstd::prelude::*;

use crate::COORD_LIMIT;
use crate::DT_LIMIT;
use crate::SPEED_LIMIT;

verus! {

/// A point or vector in the plane with integer coordinates.
#[derive(Clone, Copy, PartialEq, Eq, Structural, Debug)]
pub struct Vec2I {
    pub x: i64,
    pub y: i64,
}

impl Vec2I {
    /// Both coordinates small enough for the collision and seek math.
    pub open spec fn in_bounds(self) -> bool {
        &&& -COORD_LIMIT <= self.x <= COORD_LIMIT
        &&& -COORD_LIMIT <= self.y <= COORD_LIMIT
    }

    pub fn new(x: i64, y: i64) -> (r: Vec2I)
        ensures
            r == (Vec2I { x, y }),
    {
        Vec2I { x, y }
    }

    /// Runtime check for `in_bounds`, for callers that receive coordinates
    /// from outside and must establish the geometry preconditions.
    pub fn check_in_bounds(self) -> (r: bool)
        ensures
            r == self.in_bounds(),
    {
        -COORD_LIMIT <= self.x && self.x <= COORD_LIMIT && -COORD_LIMIT <= self.y
            && self.y <= COORD_LIMIT
    }
}

/// Squared Euclidean distance between two points.
pub open spec fn spec_dist_sq(a: Vec2I, b: Vec2I) -> int {
    (a.x - b.x) * (a.x - b.x) + (a.y - b.y) * (a.y - b.y)
}

proof fn lemma_square_bound(d: int, m: int)
    by (nonlinear_arith)
    requires
        -m <= d <= m,
        0 <= m,
    ensures
        0 <= d * d <= m * m,
{
}

/// Squared distance between two in-bounds points; exact, no overflow.
pub fn dist_sq(a: Vec2I, b: Vec2I) -> (r: u64)
    requires
        a.in_bounds(),
        b.in_bounds(),
    ensures
        r == spec_dist_sq(a, b),
{
    let dx: i64 = a.x - b.x;
    let dy: i64 = a.y - b.y;
    proof {
        lemma_square_bound(dx as int, 2 * COORD_LIMIT as int);
        lemma_square_bound(dy as int, 2 * COORD_LIMIT as int);
    }
    (dx * dx) as u64 + (dy * dy) as u64
}

/// Mathematical integer square root: the largest integer whose square does
/// not exceed `n`.
pub open spec fn spec_isqrt(n: int) -> int
    recommends
        n >= 0,
    decreases n,
{
    if n <= 0 {
        0
    } else {
        let p = spec_isqrt(n - 1);
        if (p + 1) * (p + 1) <= n {
            p + 1
        } else {
            p
        }
    }
}

pub proof fn lemma_isqrt_bounds(n: int)
    requires
        n >= 0,
    ensures
        0 <= spec_isqrt(n),
        spec_isqrt(n) * spec_isqrt(n) <= n,
        n < (spec_isqrt(n) + 1) * (spec_isqrt(n) + 1),
    decreases n,
{
    if n == 0 {
    } else {
        lemma_isqrt_bounds(n - 1);
        let p = spec_isqrt(n - 1);
        if (p + 1) * (p + 1) <= n {
            assert(n - 1 < (p + 1) * (p + 1));
            assert(n == (p + 1) * (p + 1));
            assert((p + 2) * (p + 2) > (p + 1) * (p + 1)) by (nonlinear_arith)
                requires
                    p >= 0,
            ;
        } else {
        }
    }
}

/// The square root characterization `r * r <= n < (r + 1) * (r + 1)` has at
/// most one non-negative solution.
pub proof fn lemma_isqrt_unique(n: int, r: int)
    requires
        n >= 0,
        r >= 0,
        r * r <= n,
        n < (r + 1) * (r + 1),
    ensures
        r == spec_isqrt(n),
{
    lemma_isqrt_bounds(n);
    let s = spec_isqrt(n);
    assert(r == s) by (nonlinear_arith)
        requires
            r >= 0,
            s >= 0,
            r * r <= n,
            n < (r + 1) * (r + 1),
            s * s <= n,
            n < (s + 1) * (s + 1),
    ;
}

/// `r` is the integer square root of `n`: the largest integer whose square
/// does not exceed `n`.
pub fn isqrt(n: u64) -> (r: u64)
    ensures
        r * r <= n < (r + 1) * (r + 1),
        r == spec_isqrt(n as int),
        r < 0x1_0000_0000,
{
    let mut lo: u64 = 0;
    let mut hi: u64 = 0x1_0000_0000;
    assert(n < hi * hi) by (nonlinear_arith)
        requires
            hi == 0x1_0000_0000,
            n <= u64::MAX,
    ;
    while lo + 1 < hi
        invariant
            lo < hi <= 0x1_0000_0000,
            lo * lo <= n < hi * hi,
        decreases hi - lo,
    {
        let mid: u64 = lo + (hi - lo) / 2;
        proof {
            assert((mid as int) * (mid as int) <= 0x1_0000_0000_0000_0000) by (nonlinear_arith)
                requires
                    0 <= mid as int <= 0x1_0000_0000,
            ;
        }
        let sq: u128 = (mid as u128) * (mid as u128);
        if sq <= n as u128 {
            lo = mid;
        } else {
            hi = mid;
        }
    }
    proof {
        lemma_isqrt_unique(n as int, lo as int);
    }
    lo
}

/// Truncating division by 1000, rounding toward zero as Rust's `/` does.
pub open spec fn spec_div1000(p: int) -> int {
    if p >= 0 {
        p / 1000
    } else {
        -((-p) / 1000)
    }
}

/// One coordinate of a motion step: `v * dt / 1000`, truncated toward zero,
/// for a speed in units per second and an elapsed time in milliseconds.
pub open spec fn spec_step(v: int, dt_ms: int) -> int {
    spec_div1000(v * dt_ms)
}

fn step_coord(v: i64, dt_ms: u32) -> (r: i64)
    requires
        -SPEED_LIMIT <= v <= SPEED_LIMIT,
        dt_ms <= DT_LIMIT,
    ensures
        r == spec_step(v as int, dt_ms as int),
        -(SPEED_LIMIT as int) * (DT_LIMIT as int) <= r as int <= (SPEED_LIMIT as int) * (
        DT_LIMIT as int),
{
    proof {
        assert(-(SPEED_LIMIT as int) * (DT_LIMIT as int) <= (v as int) * (dt_ms as int) <= (
        SPEED_LIMIT as int) * (DT_LIMIT as int)) by (nonlinear_arith)
            requires
                -SPEED_LIMIT <= v as int <= SPEED_LIMIT,
                0 <= dt_ms as int <= DT_LIMIT,
        ;
    }
    let p: i64 = v * (dt_ms as i64);
    if p >= 0 {
        p / 1000
    } else {
        -((-p) / 1000)
    }
}

/// Where a point moving at `vel` units per second stands after `dt_ms`
/// milliseconds: each coordinate advances by `vel * dt_ms / 1000`,
/// truncated toward zero.
pub fn advance(pos: Vec2I, vel: Vec2I, dt_ms: u32) -> (r: Vec2I)
    requires
        pos.in_bounds(),
        -SPEED_LIMIT <= vel.x <= SPEED_LIMIT,
        -SPEED_LIMIT <= vel.y <= SPEED_LIMIT,
        dt_ms <= DT_LIMIT,
    ensures
        r.x == pos.x + spec_step(vel.x as int, dt_ms as int),
        r.y == pos.y + spec_step(vel.y as int, dt_ms as int),
{
    let sx: i64 = step_coord(vel.x, dt_ms);
    let sy: i64 = step_coord(vel.y, dt_ms);
    Vec2I { x: pos.x + sx, y: pos.y + sy }
}

/// Truncating division of `p` by a positive `q`, rounding toward zero as
/// Rust's `/` does.
pub open spec fn spec_div_trunc(p: int, q: int) -> int
    recommends
        q > 0,
{
    if p >= 0 {
        p / q
    } else {
        -((-p) / q)
    }
}

/// Largest per-tick travel distance: a speed at `SPEED_LIMIT` sustained for
/// `DT_LIMIT` milliseconds.
pub const STEP_LIMIT: u64 = 1_000_000_000_000;

/// Where a chasing entity stands after one seek step of length `step`
/// toward `target`: it snaps onto the target when the target is less than
/// one step away, and otherwise moves `step` along the straight line toward
/// it, each coordinate truncated toward zero.
pub open spec fn spec_seek(pos: Vec2I, target: Vec2I, step: int) -> Vec2I {
    let d2 = spec_dist_sq(pos, target);
    if d2 < step * step {
        target
    } else if d2 == 0 {
        pos
    } else {
        let len = spec_isqrt(d2);
        Vec2I {
            x: (pos.x + spec_div_trunc((target.x - pos.x) * step, len)) as i64,
            y: (pos.y + spec_div_trunc((target.y - pos.y) * step, len)) as i64,
        }
    }
}

/// `d * step / len`, truncated toward zero, for a `d` no larger in
/// magnitude than `len`; the result is then no larger in magnitude than
/// `step`. Shared by the seek step and by linear decay.
pub fn mul_div_trunc(d: i64, step: u64, len: u64) -> (r: i64)
    requires
        1 <= len < 0x1_0000_0000,
        -(len as int) <= d as int <= len as int,
        step <= STEP_LIMIT,
    ensures
        r as int == spec_div_trunc(d as int * step as int, len as int),
        -(step as int) <= r as int <= step as int,
{
    let neg = d < 0;
    let a: u64 = if neg {
        (-d) as u64
    } else {
        d as u64
    };
    proof {
        assert((a as int) * (step as int) <= (len as int) * (step as int)
            <= 0x1_0000_0000 * 1_000_000_000_000) by (nonlinear_arith)
            requires
                0 <= a as int <= len as int,
                len as int <= 0x1_0000_0000,
                0 <= step as int <= 1_000_000_000_000,
        ;
        vstd::arithmetic::div_mod::lemma_div_is_ordered(
            (a as int) * (step as int),
            (len as int) * (step as int),
            len as int,
        );
        vstd::arithmetic::div_mod::lemma_div_multiples_vanish(step as int, len as int);
    }
    proof {
        assert((-(d as int)) * (step as int) == -((d as int) * (step as int)))
            by (nonlinear_arith);
    }
    let p: u128 = (a as u128) * (step as u128);
    let q: u128 = p / (len as u128);
    let q64: i64 = q as i64;
    if neg {
        -q64
    } else {
        q64
    }
}

/// One seek step: move `step` units toward `target`, snapping onto it when
/// it is nearer than one step. The result is `spec_seek` exactly.
pub fn seek_step(pos: Vec2I, target: Vec2I, step: u64) -> (r: Vec2I)
    requires
        pos.in_bounds(),
        target.in_bounds(),
        step <= STEP_LIMIT,
    ensures
        r == spec_seek(pos, target, step as int),
{
    let d2 = dist_sq(pos, target);
    proof {
        assert((step as int) * (step as int) <= 1_000_000_000_000 * 1_000_000_000_000)
            by (nonlinear_arith)
            requires
                0 <= step as int <= 1_000_000_000_000,
        ;
    }
    if (d2 as u128) < (step as u128) * (step as u128) {
        return target;
    }
    if d2 == 0 {
        return pos;
    }
    let len = isqrt(d2);
    let dx: i64 = target.x - pos.x;
    let dy: i64 = target.y - pos.y;
    proof {
        lemma_diff_sq(pos.x as int, pos.y as int, target.x as int, target.y as int);
        lemma_component_le(dx as int, d2 as int, len as int);
        lemma_component_le(dy as int, d2 as int, len as int);
    }
    let mx = mul_div_trunc(dx, step, len);
    let my = mul_div_trunc(dy, step, len);
    Vec2I { x: pos.x + mx, y: pos.y + my }
}

/// The velocity of magnitude `speed` aimed from `from` toward `toward`:
/// the difference vector scaled to `speed`, each coordinate truncated
/// toward zero; zero when the points coincide.
pub open spec fn spec_aimed(from: Vec2I, toward: Vec2I, speed: int) -> Vec2I {
    let d2 = spec_dist_sq(from, toward);
    if d2 == 0 {
        Vec2I { x: 0, y: 0 }
    } else {
        let len = spec_isqrt(d2);
        Vec2I {
            x: spec_div_trunc((toward.x - from.x) * speed, len) as i64,
            y: spec_div_trunc((toward.y - from.y) * speed, len) as i64,
        }
    }
}

/// The velocity of magnitude `speed` aimed from `from` toward `toward`,
/// exactly as `spec_aimed` says; each component stays within `speed`.
pub fn aimed_velocity(from: Vec2I, toward: Vec2I, speed: u32) -> (r: Vec2I)
    requires
        from.in_bounds(),
        toward.in_bounds(),
    ensures
        r == spec_aimed(from, toward, speed as int),
        -(speed as int) <= r.x <= speed as int,
        -(speed as int) <= r.y <= speed as int,
{
    let d2 = dist_sq(from, toward);
    if d2 == 0 {
        return Vec2I { x: 0, y: 0 };
    }
    let len = isqrt(d2);
    let dx: i64 = toward.x - from.x;
    let dy: i64 = toward.y - from.y;
    proof {
        lemma_diff_sq(from.x as int, from.y as int, toward.x as int, toward.y as int);
        lemma_component_le(dx as int, d2 as int, len as int);
        lemma_component_le(dy as int, d2 as int, len as int);
    }
    let mx = mul_div_trunc(dx, speed as u64, len);
    let my = mul_div_trunc(dy, speed as u64, len);
    Vec2I { x: mx, y: my }
}

proof fn lemma_diff_sq(px: int, py: int, tx: int, ty: int)
    by (nonlinear_arith)
    ensures
        (tx - px) * (tx - px) <= (px - tx) * (px - tx) + (py - ty) * (py - ty),
        (ty - py) * (ty - py) <= (px - tx) * (px - tx) + (py - ty) * (py - ty),
{
}

proof fn lemma_component_le(d: int, d2: int, len: int)
    by (nonlinear_arith)
    requires
        d * d <= d2,
        d2 < (len + 1) * (len + 1),
        len >= 0,
    ensures
        -len <= d <= len,
{
}

} // verus!
