//! Stationary towers: range-filtered target acquisition, facing-angle
//! rotation bounded by a rotation speed, and cooldown-gated firing.
//!
//! A tick proceeds in two calls: `tower_acquire` picks a target among the
//! enemies in range, the caller computes the bearing of that target, and
//! `tower_aim_step` turns toward it and decides whether to fire.

use vstd::prelude::*;

use crate::angle::spec_aligned;
use crate::angle::spec_rotate_toward;
use crate::angle::Angle;
use crate::cooldown::Cooldown;
use crate::geom::spec_dist_sq;
use crate::geom::Vec2I;
use crate::targeting::Targeting;
use crate::DT_LIMIT;

verus! {

/// A tower's fixed parameters.
#[derive(Clone, Copy, PartialEq, Eq, Structural, Debug)]
pub struct TowerStats {
    /// Targets farther than this are ignored.
    pub range: u32,
    /// The firing delay armed after each shot, in milliseconds.
    pub cooldown_ms: u64,
    pub targeting: Targeting,
    /// How fast the facing angle may turn, in angle units per second.
    pub rotation_speed: u32,
}

/// A tower: fixed stats and its current facing angle.
#[derive(Clone, Copy, PartialEq, Eq, Structural, Debug)]
pub struct Tower {
    pub stats: TowerStats,
    pub rotation: Angle,
}

/// One enemy as the tower sees it.
#[derive(Clone, Copy, PartialEq, Eq, Structural, Debug)]
pub struct EnemyRef {
    pub id: u64,
    pub pos: Vec2I,
    pub health: u32,
}

/// Whether an enemy lies within the tower's range, boundary inclusive.
pub open spec fn spec_in_range(e: EnemyRef, tower_pos: Vec2I, range: int) -> bool {
    spec_dist_sq(tower_pos, e.pos) <= range * range
}

/// Whether position `i` is the target the tower picks: in range, and
/// selected by the targeting policy among the in-range enemies, ties
/// going to the earlier input position.
pub open spec fn spec_tower_pick(
    mode: Targeting,
    s: Seq<EnemyRef>,
    tower_pos: Vec2I,
    range: int,
    i: int,
) -> bool {
    &&& 0 <= i < s.len()
    &&& spec_in_range(s[i], tower_pos, range)
    &&& match mode {
        Targeting::First => forall|j: int|
            0 <= j < i ==> !spec_in_range(#[trigger] s[j], tower_pos, range),
        Targeting::Closest => {
            &&& forall|j: int|
                0 <= j < s.len() && spec_in_range(#[trigger] s[j], tower_pos, range)
                    ==> spec_dist_sq(tower_pos, s[i].pos) <= spec_dist_sq(tower_pos, s[j].pos)
            &&& forall|j: int|
                0 <= j < i && spec_in_range(#[trigger] s[j], tower_pos, range) ==> spec_dist_sq(
                    tower_pos,
                    s[j].pos,
                ) > spec_dist_sq(tower_pos, s[i].pos)
        },
        Targeting::LowestHealth => {
            &&& forall|j: int|
                0 <= j < s.len() && spec_in_range(#[trigger] s[j], tower_pos, range)
                    ==> s[i].health <= s[j].health
            &&& forall|j: int|
                0 <= j < i && spec_in_range(#[trigger] s[j], tower_pos, range) ==> s[j].health
                    > s[i].health
        },
    }
}

/// Pick a target among the enemies in range: the position of the chosen
/// enemy in the input, or nothing when none is in range.
pub fn tower_acquire(tower: &Tower, tower_pos: Vec2I, enemies: &Vec<EnemyRef>) -> (r: Option<usize>)
    requires
        tower_pos.in_bounds(),
        forall|j: int| 0 <= j < enemies@.len() ==> (#[trigger] enemies@[j]).pos.in_bounds(),
    ensures
        match r {
            Some(i) => spec_tower_pick(
                tower.stats.targeting,
                enemies@,
                tower_pos,
                tower.stats.range as int,
                i as int,
            ),
            None => forall|j: int|
                0 <= j < enemies@.len() ==> !spec_in_range(
                    #[trigger] enemies@[j],
                    tower_pos,
                    tower.stats.range as int,
                ),
        },
{
    let range = tower.stats.range;
    proof {
        assert((range as int) * (range as int) <= 0xFFFF_FFFF * 0xFFFF_FFFF) by (nonlinear_arith)
            requires
                0 <= range as int <= 0xFFFF_FFFF,
        ;
    }
    let range_sq: u64 = (range as u64) * (range as u64);
    let n = enemies.len();
    let mut best: Option<usize> = None;
    let mut i: usize = 0;
    while i < n
        invariant
            n == enemies@.len(),
            i <= n,
            tower_pos.in_bounds(),
            forall|j: int| 0 <= j < enemies@.len() ==> (#[trigger] enemies@[j]).pos.in_bounds(),
            range_sq == (range as int) * (range as int),
            match best {
                Some(b) => {
                    &&& 0 <= b < i
                    &&& spec_in_range(enemies@[b as int], tower_pos, range as int)
                    &&& match tower.stats.targeting {
                        Targeting::First => forall|j: int|
                            0 <= j < b ==> !spec_in_range(
                                #[trigger] enemies@[j],
                                tower_pos,
                                range as int,
                            ),
                        Targeting::Closest => {
                            &&& forall|j: int|
                                0 <= j < i && spec_in_range(
                                    #[trigger] enemies@[j],
                                    tower_pos,
                                    range as int,
                                ) ==> spec_dist_sq(tower_pos, enemies@[b as int].pos)
                                    <= spec_dist_sq(tower_pos, enemies@[j].pos)
                            &&& forall|j: int|
                                0 <= j < b && spec_in_range(
                                    #[trigger] enemies@[j],
                                    tower_pos,
                                    range as int,
                                ) ==> spec_dist_sq(tower_pos, enemies@[j].pos) > spec_dist_sq(
                                    tower_pos,
                                    enemies@[b as int].pos,
                                )
                        },
                        Targeting::LowestHealth => {
                            &&& forall|j: int|
                                0 <= j < i && spec_in_range(
                                    #[trigger] enemies@[j],
                                    tower_pos,
                                    range as int,
                                ) ==> enemies@[b as int].health <= enemies@[j].health
                            &&& forall|j: int|
                                0 <= j < b && spec_in_range(
                                    #[trigger] enemies@[j],
                                    tower_pos,
                                    range as int,
                                ) ==> enemies@[j].health > enemies@[b as int].health
                        },
                    }
                },
                None => forall|j: int|
                    0 <= j < i ==> !spec_in_range(#[trigger] enemies@[j], tower_pos, range as int),
            },
        decreases n - i,
    {
        let d2 = crate::geom::dist_sq(tower_pos, enemies[i].pos);
        if d2 <= range_sq {
            match best {
                None => {
                    best = Some(i);
                },
                Some(b) => {
                    match tower.stats.targeting {
                        Targeting::First => {},
                        Targeting::Closest => {
                            let bd2 = crate::geom::dist_sq(tower_pos, enemies[b].pos);
                            if d2 < bd2 {
                                best = Some(i);
                            }
                        },
                        Targeting::LowestHealth => {
                            if enemies[i].health < enemies[b].health {
                                best = Some(i);
                            }
                        },
                    }
                },
            }
        }
        i = i + 1;
    }
    best
}

/// One aiming tick: turn toward the target's bearing, the angular step
/// clamped to `rotation_speed * dt`, and fire exactly when the facing
/// angle reaches the bearing with the cooldown elapsed; firing arms the
/// cooldown.
pub fn tower_aim_step(
    tower: &mut Tower,
    cooldown: &mut Cooldown,
    target_bearing: Angle,
    dt_ms: u32,
) -> (fired: bool)
    requires
        old(tower).rotation.wf(),
        target_bearing.wf(),
        dt_ms <= DT_LIMIT,
        old(cooldown).time_remaining_ms + old(tower).stats.cooldown_ms <= u64::MAX,
    ensures
        final(tower).stats == old(tower).stats,
        final(tower).rotation.wf(),
        final(tower).rotation == spec_rotate_toward(
            old(tower).rotation,
            target_bearing,
            (old(tower).stats.rotation_speed as int) * (dt_ms as int) / 1000,
        ),
        fired <==> (spec_aligned(
            old(tower).rotation,
            target_bearing,
            (old(tower).stats.rotation_speed as int) * (dt_ms as int) / 1000,
        ) && old(cooldown).time_remaining_ms == 0),
        final(cooldown).time_remaining_ms == old(cooldown).time_remaining_ms + (if fired {
            old(tower).stats.cooldown_ms
        } else {
            0u64
        }),
{
    let speed: u32 = tower.stats.rotation_speed;
    proof {
        assert((speed as int) * (dt_ms as int) <= 0xFFFF_FFFF * 1_000_000) by (nonlinear_arith)
            requires
                0 <= speed as int <= 0xFFFF_FFFF,
                0 <= dt_ms as int <= 1_000_000,
        ;
    }
    let max_step: u64 = (speed as u64) * (dt_ms as u64) / 1000;
    let (rot, aligned) = crate::angle::rotate_toward(tower.rotation, target_bearing, max_step);
    tower.rotation = rot;
    if aligned {
        if cooldown.is_ready() {
            cooldown.arm(tower.stats.cooldown_ms);
            return true;
        }
    }
    false
}

/// A tower bullet's speed, in coordinate units per second.
pub const TOWER_BULLET_SPEED: u32 = 600_000;

/// A tower bullet's collider radius.
pub const TOWER_BULLET_RADIUS: u32 = 5_000;

/// How far in front of the tower a bullet appears, along the firing
/// line.
pub const TOWER_MUZZLE_OFFSET: u32 = 30_000;

/// The bullet a tower fires at a target: damage one, no piercing,
/// harming the enemy team only, spawned a muzzle's length toward the
/// target and flying straight at it.
pub fn tower_bullet(tower_pos: Vec2I, target_pos: Vec2I) -> (r: crate::world::ProjectileSpawn)
    requires
        tower_pos.in_bounds(),
        target_pos.in_bounds(),
    ensures
        r.origin.x == tower_pos.x + crate::geom::spec_aimed(
            tower_pos,
            target_pos,
            TOWER_MUZZLE_OFFSET as int,
        ).x,
        r.origin.y == tower_pos.y + crate::geom::spec_aimed(
            tower_pos,
            target_pos,
            TOWER_MUZZLE_OFFSET as int,
        ).y,
        r.velocity == crate::geom::spec_aimed(tower_pos, target_pos, TOWER_BULLET_SPEED as int),
        r.dmg == 1,
        r.damage_target == crate::projectile::DamageTarget::Team(crate::team::Team::Enemy),
        r.piercing_mode == crate::projectile::PiercingMode::NoPierce,
        r.collider_radius == TOWER_BULLET_RADIUS,
{
    let muzzle = crate::geom::aimed_velocity(tower_pos, target_pos, TOWER_MUZZLE_OFFSET);
    let velocity = crate::geom::aimed_velocity(tower_pos, target_pos, TOWER_BULLET_SPEED);
    crate::world::ProjectileSpawn {
        origin: Vec2I { x: tower_pos.x + muzzle.x, y: tower_pos.y + muzzle.y },
        velocity,
        dmg: 1,
        damage_target: crate::projectile::DamageTarget::Team(crate::team::Team::Enemy),
        piercing_mode: crate::projectile::PiercingMode::NoPierce,
        collider_radius: TOWER_BULLET_RADIUS,
    }
}

/// A fresh tower with the standard loadout: two hundred units of range,
/// a one-second cooldown, first-in-order targeting, a full turn per
/// second of rotation, facing angle zero, ready to fire, and a broad
/// rectangular footprint collider.
pub fn spawn_tower() -> (r: (Tower, Cooldown, crate::collider::Collider))
    ensures
        r.0 == (Tower {
            stats: TowerStats {
                range: 200_000,
                cooldown_ms: 1_000,
                targeting: Targeting::First,
                rotation_speed: 360_000,
            },
            rotation: Angle { units: 0 },
        }),
        r.1.time_remaining_ms == 0,
        r.2 == (crate::collider::Collider {
            shape: crate::collider::Shape::Rect { half_w: 500_000, half_h: 500_000 },
            offset: Vec2I { x: 0, y: 0 },
        }),
{
    (
        Tower {
            stats: TowerStats {
                range: 200_000,
                cooldown_ms: 1_000,
                targeting: Targeting::First,
                rotation_speed: 360_000,
            },
            rotation: Angle::zero(),
        },
        Cooldown::ready(),
        crate::collider::Collider::new_rect(500_000, 500_000, Vec2I { x: 0, y: 0 }),
    )
}

} // verus!
