//! Enemy kinds, their spawn parameters, and their reactions to the
//! charge and fire signals: the beholder's fireballs (three for the
//! prince) and the reaper's whirling blade.

use vstd::prelude::*;

use crate::ai::FollowPlayerAI;
use crate::ai::MoveAndShootAI;
use crate::collider::Collider;
use crate::events::AnimationTrigger;
use crate::events::AudioCue;
use crate::events::SemanticState;
use crate::geom::spec_aimed;
use crate::geom::Vec2I;
use crate::health::Health;
use crate::projectile::DamageTarget;
use crate::projectile::PiercingMode;
use crate::team::Team;
use crate::world::ProjectileSpawn;
use crate::world::Unit;

verus! {

/// The enemy kinds of the combat core.
#[derive(Clone, Copy, PartialEq, Eq, Structural, Debug)]
pub enum EnemyType {
    Imp,
    Beholder,
    BeholderPrince,
    Reaper,
}

/// The enemy component: the reward it is worth and its kind.
#[derive(Clone, Copy, PartialEq, Eq, Structural, Debug)]
pub struct Enemy {
    pub xp: u32,
    pub enemy_type: EnemyType,
}

/// A freshly spawned enemy: its registry unit, its behavior controller
/// (chaser or ranged attacker), and its enemy component.
pub struct EnemySpawn {
    pub unit: Unit,
    pub follow: Option<FollowPlayerAI>,
    pub move_shoot: Option<MoveAndShootAI>,
    pub enemy: Enemy,
}

/// A beholder fireball's speed, in coordinate units per second.
pub const BEHOLDER_SHOT_SPEED: u32 = 40_000;

/// A beholder fireball's collider radius.
pub const BEHOLDER_SHOT_RADIUS: u32 = 15_000;

/// The reaper blade's collider radius.
pub const REAPER_BLADE_RADIUS: u32 = 50_000;

/// How long the reaper blade whirls before it vanishes, in milliseconds.
pub const REAPER_BLADE_DURATION_MS: u32 = 500;

/// The reaper's travel speed, restored when its blade vanishes.
pub const REAPER_SPEED: u32 = 40_000;

/// The common part of an enemy unit: full health, a circle collider at
/// the entity's own position, the enemy team, a reward, no projectile.
fn enemy_unit(id: u64, pos: Vec2I, max_health: u32, radius: u32, xp: u32) -> (r: Unit)
    requires
        0 < radius <= crate::RADIUS_LIMIT,
    ensures
        r.id == id,
        r.pos == pos,
        r.vel == (Vec2I { x: 0, y: 0 }),
        r.collider == Some(
            Collider {
                shape: crate::collider::Shape::Circle { radius },
                offset: Vec2I { x: 0, y: 0 },
            },
        ),
        r.health == Some(Health { current: max_health, max: max_health, death_signaled: false }),
        r.team == Some(Team::Enemy),
        r.projectile is None,
        r.knockback is None,
        r.burning is None,
        r.reward == xp,
        !r.despawn,
        r.wf(),
{
    Unit {
        id,
        pos,
        vel: Vec2I { x: 0, y: 0 },
        collider: Some(Collider::new_circle(radius, Vec2I { x: 0, y: 0 })),
        health: Some(Health::new(max_health)),
        team: Some(Team::Enemy),
        projectile: None,
        knockback: None,
        burning: None,
        reward: xp,
        despawn: false,
    }
}

/// A fresh imp: a seek-only chaser worth five experience, fifteen
/// health, a ten-unit collider.
pub fn spawn_imp(id: u64, pos: Vec2I) -> (r: EnemySpawn)
    ensures
        r.enemy == (Enemy { xp: 5, enemy_type: EnemyType::Imp }),
        r.follow == Some(FollowPlayerAI { speed: 15_000 }),
        r.move_shoot is None,
        r.unit.id == id && r.unit.pos == pos && r.unit.reward == 5,
        r.unit.health == Some(Health { current: 15, max: 15, death_signaled: false }),
        r.unit.collider == Some(
            Collider {
                shape: crate::collider::Shape::Circle { radius: 10_000 },
                offset: Vec2I { x: 0, y: 0 },
            },
        ),
        r.unit.team == Some(Team::Enemy),
        r.unit.wf(),
{
    EnemySpawn {
        unit: enemy_unit(id, pos, 15, 10_000, 5),
        follow: Some(FollowPlayerAI { speed: 15_000 }),
        move_shoot: None,
        enemy: Enemy { xp: 5, enemy_type: EnemyType::Imp },
    }
}

/// A fresh beholder: a ranged attacker worth ten experience, twenty-five
/// health, a three-second charge, a two-second cooldown, and a
/// two-hundred-unit shoot range.
pub fn spawn_beholder(id: u64, pos: Vec2I) -> (r: EnemySpawn)
    ensures
        r.enemy == (Enemy { xp: 10, enemy_type: EnemyType::Beholder }),
        r.follow is None,
        r.move_shoot == Some(MoveAndShootAI {
            speed: 20_000,
            charge_duration_ms: 3_000,
            shoot_range: 200_000,
            cooldown_ms: 2_000,
            phase: crate::ai::AiPhase::Approach,
            phase_elapsed_ms: 0,
            cooldown_remaining_ms: 0,
        }),
        r.unit.id == id && r.unit.pos == pos && r.unit.reward == 10,
        r.unit.health == Some(Health { current: 25, max: 25, death_signaled: false }),
        r.unit.collider == Some(
            Collider {
                shape: crate::collider::Shape::Circle { radius: 12_000 },
                offset: Vec2I { x: 0, y: 0 },
            },
        ),
        r.unit.team == Some(Team::Enemy),
        r.unit.wf(),
{
    EnemySpawn {
        unit: enemy_unit(id, pos, 25, 12_000, 10),
        follow: None,
        move_shoot: Some(MoveAndShootAI::new(20_000, 3_000, 200_000, 2_000)),
        enemy: Enemy { xp: 10, enemy_type: EnemyType::Beholder },
    }
}

/// A fresh beholder prince: worth a hundred experience, two hundred
/// health, a five-second charge, a three-second cooldown, a
/// three-hundred-unit shoot range, and a three-way fireball volley.
pub fn spawn_beholder_prince(id: u64, pos: Vec2I) -> (r: EnemySpawn)
    ensures
        r.enemy == (Enemy { xp: 100, enemy_type: EnemyType::BeholderPrince }),
        r.follow is None,
        r.move_shoot == Some(MoveAndShootAI {
            speed: 20_000,
            charge_duration_ms: 5_000,
            shoot_range: 300_000,
            cooldown_ms: 3_000,
            phase: crate::ai::AiPhase::Approach,
            phase_elapsed_ms: 0,
            cooldown_remaining_ms: 0,
        }),
        r.unit.id == id && r.unit.pos == pos && r.unit.reward == 100,
        r.unit.health == Some(Health { current: 200, max: 200, death_signaled: false }),
        r.unit.team == Some(Team::Enemy),
        r.unit.wf(),
{
    EnemySpawn {
        unit: enemy_unit(id, pos, 200, 12_000, 100),
        follow: None,
        move_shoot: Some(MoveAndShootAI::new(20_000, 5_000, 300_000, 3_000)),
        enemy: Enemy { xp: 100, enemy_type: EnemyType::BeholderPrince },
    }
}

/// A fresh reaper: worth one hundred fifty experience, three hundred
/// health, a ten-second charge, a two-second cooldown, and a short
/// fifty-unit shoot range for its whirling blade.
pub fn spawn_reaper(id: u64, pos: Vec2I) -> (r: EnemySpawn)
    ensures
        r.enemy == (Enemy { xp: 150, enemy_type: EnemyType::Reaper }),
        r.follow is None,
        r.move_shoot == Some(MoveAndShootAI {
            speed: REAPER_SPEED,
            charge_duration_ms: 10_000,
            shoot_range: 50_000,
            cooldown_ms: 2_000,
            phase: crate::ai::AiPhase::Approach,
            phase_elapsed_ms: 0,
            cooldown_remaining_ms: 0,
        }),
        r.unit.id == id && r.unit.pos == pos && r.unit.reward == 150,
        r.unit.health == Some(Health { current: 300, max: 300, death_signaled: false }),
        r.unit.team == Some(Team::Enemy),
        r.unit.wf(),
{
    EnemySpawn {
        unit: enemy_unit(id, pos, 300, 12_000, 150),
        follow: None,
        move_shoot: Some(MoveAndShootAI::new(REAPER_SPEED, 10_000, 50_000, 2_000)),
        enemy: Enemy { xp: 150, enemy_type: EnemyType::Reaper },
    }
}

/// A beholder that begins its windup: the presentation layer shows the
/// charging animation.
pub fn beholder_charge_response(entity: u64) -> (r: AnimationTrigger)
    ensures
        r == (AnimationTrigger { entity, state: SemanticState::Charging }),
{
    AnimationTrigger { entity, state: SemanticState::Charging }
}

/// A beholder fires: one fireball straight at the player — and for the
/// prince, two more toward the given spread points, computed by the
/// caller a small angle to either side of the player. Every fireball
/// deals one damage to the first player-team entity it touches.
pub fn beholder_shoot_response(
    entity: u64,
    is_prince: bool,
    origin: Vec2I,
    player_pos: Vec2I,
    spread_a: Vec2I,
    spread_b: Vec2I,
) -> (r: (Vec<ProjectileSpawn>, AnimationTrigger, AudioCue))
    requires
        origin.in_bounds(),
        player_pos.in_bounds(),
        spread_a.in_bounds(),
        spread_b.in_bounds(),
    ensures
        r.0@.len() == (if is_prince {
            3int
        } else {
            1int
        }),
        forall|k: int|
            0 <= k < r.0@.len() ==> {
                let sp = #[trigger] r.0@[k];
                &&& sp.origin == origin
                &&& sp.dmg == 1
                &&& sp.damage_target == DamageTarget::Team(Team::Player)
                &&& sp.piercing_mode == PiercingMode::NoPierce
                &&& sp.collider_radius == BEHOLDER_SHOT_RADIUS
            },
        r.0@[0].velocity == spec_aimed(origin, player_pos, BEHOLDER_SHOT_SPEED as int),
        is_prince ==> r.0@[1].velocity == spec_aimed(origin, spread_a, BEHOLDER_SHOT_SPEED as int),
        is_prince ==> r.0@[2].velocity == spec_aimed(origin, spread_b, BEHOLDER_SHOT_SPEED as int),
        r.1 == (AnimationTrigger { entity, state: SemanticState::Firing }),
        r.2 == AudioCue::Fire,
{
    let mut shots: Vec<ProjectileSpawn> = Vec::new();
    shots.push(beholder_shot(origin, player_pos));
    if is_prince {
        shots.push(beholder_shot(origin, spread_a));
        shots.push(beholder_shot(origin, spread_b));
    }
    (shots, AnimationTrigger { entity, state: SemanticState::Firing }, AudioCue::Fire)
}

fn beholder_shot(origin: Vec2I, toward: Vec2I) -> (r: ProjectileSpawn)
    requires
        origin.in_bounds(),
        toward.in_bounds(),
    ensures
        r.origin == origin,
        r.velocity == spec_aimed(origin, toward, BEHOLDER_SHOT_SPEED as int),
        r.dmg == 1,
        r.damage_target == DamageTarget::Team(Team::Player),
        r.piercing_mode == PiercingMode::NoPierce,
        r.collider_radius == BEHOLDER_SHOT_RADIUS,
{
    ProjectileSpawn {
        origin,
        velocity: crate::geom::aimed_velocity(origin, toward, BEHOLDER_SHOT_SPEED),
        dmg: 1,
        damage_target: DamageTarget::Team(Team::Player),
        piercing_mode: PiercingMode::NoPierce,
        collider_radius: BEHOLDER_SHOT_RADIUS,
    }
}

/// The reaper's whirling blade, tied to its owner for the length of its
/// whirl.
#[derive(Clone, Copy, PartialEq, Eq, Structural, Debug)]
pub struct ReaperBlade {
    pub parent: u64,
    pub remaining_ms: u32,
}

/// A reaper fires: it stops in place (the caller sets its approach speed
/// to the returned value) and a stationary all-piercing blade appears at
/// its position, damaging every player-team entity it touches at most
/// once each.
pub fn reaper_shoot_response(entity: u64, origin: Vec2I) -> (r: (
    ProjectileSpawn,
    ReaperBlade,
    AnimationTrigger,
    AudioCue,
    u32,
))
    ensures
        r.0.origin == origin,
        r.0.velocity == (Vec2I { x: 0, y: 0 }),
        r.0.dmg == 1,
        r.0.damage_target == DamageTarget::Team(Team::Player),
        r.0.piercing_mode == PiercingMode::All,
        r.0.collider_radius == REAPER_BLADE_RADIUS,
        r.1 == (ReaperBlade { parent: entity, remaining_ms: REAPER_BLADE_DURATION_MS }),
        r.2 == (AnimationTrigger { entity, state: SemanticState::Firing }),
        r.3 == AudioCue::Fire,
        r.4 == 0,
{
    (
        ProjectileSpawn {
            origin,
            velocity: Vec2I { x: 0, y: 0 },
            dmg: 1,
            damage_target: DamageTarget::Team(Team::Player),
            piercing_mode: PiercingMode::All,
            collider_radius: REAPER_BLADE_RADIUS,
        },
        ReaperBlade { parent: entity, remaining_ms: REAPER_BLADE_DURATION_MS },
        AnimationTrigger { entity, state: SemanticState::Firing },
        AudioCue::Fire,
        0,
    )
}

/// One tick of a whirling blade: the clock runs down; on the tick it
/// reaches zero the blade vanishes — the caller despawns it, restores
/// its owner's speed to `REAPER_SPEED`, and shows the owner moving
/// again.
pub fn reaper_blade_step(blade: &mut ReaperBlade, dt_ms: u32) -> (r: Option<AnimationTrigger>)
    ensures
        final(blade).parent == old(blade).parent,
        final(blade).remaining_ms == (if old(blade).remaining_ms >= dt_ms {
            old(blade).remaining_ms - dt_ms
        } else {
            0int
        }),
        r is Some <==> (old(blade).remaining_ms > 0 && final(blade).remaining_ms == 0),
        r is Some ==> r == Some(
            AnimationTrigger { entity: old(blade).parent, state: SemanticState::Running },
        ),
{
    let before = blade.remaining_ms;
    if blade.remaining_ms >= dt_ms {
        blade.remaining_ms = blade.remaining_ms - dt_ms;
    } else {
        blade.remaining_ms = 0;
    }
    if before > 0 && blade.remaining_ms == 0 {
        Some(AnimationTrigger { entity: blade.parent, state: SemanticState::Running })
    } else {
        None
    }
}

} // verus!
