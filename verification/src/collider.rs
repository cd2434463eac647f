//! Collider shapes and the pairwise overlap tests: circle against circle
//! and circle against rectangle, both boundary inclusive.

use vstd::prelude::*;

use crate::geom::spec_dist_sq;
use crate::geom::Vec2I;
use crate::RADIUS_LIMIT;

verus! {

/// The geometric shape of a collider: a circle with a radius, or an
/// axis-aligned rectangle with half-extents.
#[derive(Clone, Copy, PartialEq, Eq, Structural, Debug)]
pub enum Shape {
    Circle { radius: u32 },
    Rect { half_w: u32, half_h: u32 },
}

impl Shape {
    /// Radii and half-extents are positive and small enough for the
    /// squared-distance math.
    pub open spec fn wf(self) -> bool {
        match self {
            Shape::Circle { radius } => 0 < radius <= RADIUS_LIMIT,
            Shape::Rect { half_w, half_h } => 0 < half_w <= RADIUS_LIMIT && 0 < half_h
                <= RADIUS_LIMIT,
        }
    }
}

/// A collider: a shape, tested at the owning entity's position displaced
/// by a local offset. Used only for overlap testing, never rendering.
#[derive(Clone, Copy, PartialEq, Eq, Structural, Debug)]
pub struct Collider {
    pub shape: Shape,
    pub offset: Vec2I,
}

impl Collider {
    pub open spec fn wf(self) -> bool {
        self.shape.wf()
    }

    pub fn new_circle(radius: u32, offset: Vec2I) -> (r: Collider)
        requires
            0 < radius <= RADIUS_LIMIT,
        ensures
            r.wf(),
            r == (Collider { shape: Shape::Circle { radius }, offset }),
    {
        Collider { shape: Shape::Circle { radius }, offset }
    }

    pub fn new_rect(half_w: u32, half_h: u32, offset: Vec2I) -> (r: Collider)
        requires
            0 < half_w <= RADIUS_LIMIT,
            0 < half_h <= RADIUS_LIMIT,
        ensures
            r.wf(),
            r == (Collider { shape: Shape::Rect { half_w, half_h }, offset }),
    {
        Collider { shape: Shape::Rect { half_w, half_h }, offset }
    }
}

/// Two circles overlap exactly when the distance between their centers is
/// at most the sum of their radii; squaring both sides keeps the test in
/// integers and keeps the boundary inclusive.
pub open spec fn spec_circles_overlap(ca: Vec2I, ra: int, cb: Vec2I, rb: int) -> bool {
    spec_dist_sq(ca, cb) <= (ra + rb) * (ra + rb)
}

/// `v` clamped into `[lo, hi]`.
pub open spec fn spec_clamp(v: int, lo: int, hi: int) -> int {
    if v < lo {
        lo
    } else if v > hi {
        hi
    } else {
        v
    }
}

/// The point of an axis-aligned rectangle (center `c`, half-extents `hw`
/// and `hh`) closest to `p`.
pub open spec fn spec_closest_on_rect(p: Vec2I, c: Vec2I, hw: int, hh: int) -> Vec2I {
    Vec2I {
        x: spec_clamp(p.x as int, c.x - hw, c.x + hw) as i64,
        y: spec_clamp(p.y as int, c.y - hh, c.y + hh) as i64,
    }
}

/// A circle overlaps a rectangle exactly when the rectangle's closest
/// point lies within the circle's radius, boundary inclusive.
pub open spec fn spec_circle_rect_overlap(cc: Vec2I, r: int, rc: Vec2I, hw: int, hh: int) -> bool {
    spec_dist_sq(cc, spec_closest_on_rect(cc, rc, hw, hh)) <= r * r
}

/// Whether two placed shapes overlap. Rectangle pairs are not part of the
/// combat rules and never report an overlap.
pub open spec fn spec_overlap(ca: Vec2I, a: Shape, cb: Vec2I, b: Shape) -> bool {
    match (a, b) {
        (Shape::Circle { radius: ra }, Shape::Circle { radius: rb }) => spec_circles_overlap(
            ca,
            ra as int,
            cb,
            rb as int,
        ),
        (Shape::Circle { radius: ra }, Shape::Rect { half_w, half_h }) => spec_circle_rect_overlap(
            ca,
            ra as int,
            cb,
            half_w as int,
            half_h as int,
        ),
        (Shape::Rect { half_w, half_h }, Shape::Circle { radius: rb }) => spec_circle_rect_overlap(
            cb,
            rb as int,
            ca,
            half_w as int,
            half_h as int,
        ),
        (Shape::Rect { .. }, Shape::Rect { .. }) => false,
    }
}

fn clamp_coord(v: i64, lo: i64, hi: i64) -> (r: i64)
    requires
        lo <= hi,
    ensures
        r == spec_clamp(v as int, lo as int, hi as int),
{
    if v < lo {
        lo
    } else if v > hi {
        hi
    } else {
        v
    }
}

/// Whether two placed shapes overlap, exactly as `spec_overlap` says.
pub fn shapes_overlap(ca: Vec2I, a: Shape, cb: Vec2I, b: Shape) -> (r: bool)
    requires
        ca.in_bounds(),
        cb.in_bounds(),
        a.wf(),
        b.wf(),
    ensures
        r == spec_overlap(ca, a, cb, b),
{
    match (a, b) {
        (Shape::Circle { radius: ra }, Shape::Circle { radius: rb }) => {
            circles_overlap(ca, ra, cb, rb)
        },
        (Shape::Circle { radius: ra }, Shape::Rect { half_w, half_h }) => {
            circle_rect_overlap(ca, ra, cb, half_w, half_h)
        },
        (Shape::Rect { half_w, half_h }, Shape::Circle { radius: rb }) => {
            circle_rect_overlap(cb, rb, ca, half_w, half_h)
        },
        (Shape::Rect { .. }, Shape::Rect { .. }) => false,
    }
}

fn circles_overlap(ca: Vec2I, ra: u32, cb: Vec2I, rb: u32) -> (r: bool)
    requires
        ca.in_bounds(),
        cb.in_bounds(),
        0 < ra <= RADIUS_LIMIT,
        0 < rb <= RADIUS_LIMIT,
    ensures
        r == spec_circles_overlap(ca, ra as int, cb, rb as int),
{
    let d2: u64 = crate::geom::dist_sq(ca, cb);
    let rsum: u64 = ra as u64 + rb as u64;
    proof {
        assert((rsum as int) * (rsum as int) <= 4_000_000_000_000_000_000) by (nonlinear_arith)
            requires
                0 <= rsum as int <= 2_000_000_000,
        ;
    }
    d2 <= rsum * rsum
}

fn circle_rect_overlap(cc: Vec2I, r: u32, rc: Vec2I, hw: u32, hh: u32) -> (res: bool)
    requires
        cc.in_bounds(),
        rc.in_bounds(),
        0 < r <= RADIUS_LIMIT,
        0 < hw <= RADIUS_LIMIT,
        0 < hh <= RADIUS_LIMIT,
    ensures
        res == spec_circle_rect_overlap(cc, r as int, rc, hw as int, hh as int),
{
    let lox: i64 = rc.x - hw as i64;
    let hix: i64 = rc.x + hw as i64;
    let loy: i64 = rc.y - hh as i64;
    let hiy: i64 = rc.y + hh as i64;
    let px: i64 = clamp_coord(cc.x, lox, hix);
    let py: i64 = clamp_coord(cc.y, loy, hiy);
    let closest = Vec2I { x: px, y: py };
    assert(closest.in_bounds());
    let d2: u64 = crate::geom::dist_sq(cc, closest);
    proof {
        assert((r as int) * (r as int) <= 1_000_000_000_000_000_000) by (nonlinear_arith)
            requires
                0 <= r as int <= 1_000_000_000,
        ;
    }
    let r64: u64 = r as u64;
    d2 <= r64 * r64
}

} // verus!
