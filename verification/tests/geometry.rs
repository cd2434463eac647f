use combat_core::angle::Angle;
use combat_core::angle::FULL_TURN;
use combat_core::angle::HALF_TURN;
use combat_core::collider::Collider;
use combat_core::collider::Shape;
use combat_core::collision::detect_overlaps;
use combat_core::collision::Body;
use combat_core::collision::OverlapEvent;
use combat_core::geom::advance;
use combat_core::geom::aimed_velocity;
use combat_core::geom::dist_sq;
use combat_core::geom::isqrt;
use combat_core::geom::seek_step;
use combat_core::geom::Vec2I;

fn v(x: i64, y: i64) -> Vec2I {
    Vec2I { x, y }
}

#[test]
fn dist_sq_pythagorean() {
    assert_eq!(dist_sq(v(0, 0), v(3, 4)), 25);
    assert_eq!(dist_sq(v(-3, 0), v(0, 4)), 25);
    assert_eq!(dist_sq(v(7, 7), v(7, 7)), 0);
}

#[test]
fn isqrt_exact_and_floor() {
    assert_eq!(isqrt(0), 0);
    assert_eq!(isqrt(1), 1);
    assert_eq!(isqrt(24), 4);
    assert_eq!(isqrt(25), 5);
    assert_eq!(isqrt(26), 5);
    assert_eq!(isqrt(u64::MAX), 0xFFFF_FFFF);
}

#[test]
fn advance_is_velocity_times_time() {
    // A projectile at 40 units per second along a 3-4-5 unit vector is 40
    // units from the origin after one second of simulated time.
    let pos = advance(v(0, 0), v(24_000, 32_000), 1000);
    assert_eq!(pos, v(24_000, 32_000));
    assert_eq!(isqrt(dist_sq(v(0, 0), pos)), 40_000);
}

#[test]
fn advance_truncates_toward_zero() {
    assert_eq!(advance(v(0, 0), v(999, -999), 1), v(0, 0));
    assert_eq!(advance(v(10, 10), v(1500, -1500), 1), v(11, 9));
}

#[test]
fn seek_snaps_when_close() {
    // One step of length 10 from distance 5: snap onto the target.
    assert_eq!(seek_step(v(0, 0), v(3, 4), 10), v(3, 4));
    // Exactly one step away: no snap, land on the target by moving.
    assert_eq!(seek_step(v(0, 0), v(3, 4), 5), v(3, 4));
}

#[test]
fn seek_moves_along_the_line() {
    // Distance 50 toward (30, 40), step 5: one tenth of the way.
    assert_eq!(seek_step(v(0, 0), v(30, 40), 5), v(3, 4));
    // Zero step: stay put.
    assert_eq!(seek_step(v(0, 0), v(30, 40), 0), v(0, 0));
}

#[test]
fn aimed_velocity_scales_direction() {
    assert_eq!(aimed_velocity(v(0, 0), v(30, 40), 40_000), v(24_000, 32_000));
    assert_eq!(aimed_velocity(v(5, 5), v(5, 5), 40_000), v(0, 0));
    assert_eq!(aimed_velocity(v(30, 40), v(0, 0), 100), v(-60, -80));
}

#[test]
fn angle_normalizes_into_one_turn() {
    assert_eq!(Angle::from_raw(0).units, 0);
    assert_eq!(Angle::from_raw(FULL_TURN).units, 0);
    assert_eq!(Angle::from_raw(-90_000).units, 270_000);
    assert_eq!(Angle::from_raw(FULL_TURN * 3 + 1).units, 1);
    assert_eq!(Angle::from_raw(-FULL_TURN * 2 - 1).units, FULL_TURN - 1);
}

#[test]
fn angle_arithmetic_wraps() {
    let a = Angle::from_raw(350_000);
    let b = Angle::from_raw(20_000);
    assert_eq!(a.add(b).units, 10_000);
    assert_eq!(b.sub(a).units, 30_000);
    assert_eq!(a.signed_diff(b), -30_000);
    assert_eq!(b.signed_diff(a), 30_000);
    // Opposite angles differ by exactly a half turn, reported negative.
    let c = Angle::from_raw(0);
    let d = Angle::from_raw(HALF_TURN);
    assert_eq!(c.signed_diff(d), -HALF_TURN);
}

#[test]
fn rotation_is_clamped_then_snaps() {
    let cur = Angle::from_raw(0);
    let target = Angle::from_raw(90_000);
    let (step1, aligned1) = combat_core::angle::rotate_toward(cur, target, 30_000);
    assert!(!aligned1);
    assert_eq!(step1.units, 30_000);
    let (step2, aligned2) = combat_core::angle::rotate_toward(step1, target, 60_000);
    assert!(aligned2);
    assert_eq!(step2.units, 90_000);
    // The short way can cross zero.
    let near = Angle::from_raw(10_000);
    let (step3, aligned3) = combat_core::angle::rotate_toward(near, Angle::from_raw(350_000), 5_000);
    assert!(!aligned3);
    assert_eq!(step3.units, 5_000);
}

fn circle(id: u64, x: i64, y: i64, radius: u32) -> Body {
    Body { id, center: v(x, y), shape: Shape::Circle { radius } }
}

#[test]
fn circles_overlap_boundary_inclusive() {
    // Centers 25 apart; radii sum exactly 25: reported.
    let touching = vec![circle(1, 0, 0, 10), circle(2, 15, 20, 15)];
    let evs = detect_overlaps(&touching);
    assert_eq!(evs, vec![OverlapEvent { first: 1, second: 2 }]);
    // One unit farther: not reported.
    let apart = vec![circle(1, 0, 0, 10), circle(2, 15, 20, 14)];
    assert_eq!(detect_overlaps(&apart), vec![]);
}

#[test]
fn no_self_pairs_and_no_duplicates() {
    // Three mutually overlapping circles: exactly the three unordered
    // pairs, in discovery order, no pair twice, no self-pairs.
    let bodies = vec![circle(7, 0, 0, 10), circle(8, 5, 0, 10), circle(9, 0, 5, 10)];
    let evs = detect_overlaps(&bodies);
    assert_eq!(
        evs,
        vec![
            OverlapEvent { first: 7, second: 8 },
            OverlapEvent { first: 7, second: 9 },
            OverlapEvent { first: 8, second: 9 },
        ]
    );
}

#[test]
fn circle_against_rectangle() {
    // A rectangle of half-extents 10 centered at the origin; a circle of
    // radius 5 centered at (14, 0) reaches the closest point (10, 0).
    let rect = Body { id: 1, center: v(0, 0), shape: Shape::Rect { half_w: 10, half_h: 10 } };
    let near = vec![rect.clone(), circle(2, 14, 0, 5)];
    assert_eq!(detect_overlaps(&near).len(), 1);
    let far = vec![rect.clone(), circle(2, 16, 0, 5)];
    assert_eq!(detect_overlaps(&far).len(), 0);
    // Rectangle pairs are not part of the combat rules.
    let rects = vec![rect.clone(), Body { id: 2, ..rect }];
    assert_eq!(detect_overlaps(&rects).len(), 0);
}

#[test]
fn collider_constructors_keep_their_fields() {
    let c = Collider::new_circle(12_000, v(1, 2));
    assert_eq!(c.shape, Shape::Circle { radius: 12_000 });
    assert_eq!(c.offset, v(1, 2));
    let r = Collider::new_rect(500_000, 400_000, v(0, 0));
    assert_eq!(r.shape, Shape::Rect { half_w: 500_000, half_h: 400_000 });
}
