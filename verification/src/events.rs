//! Outbound event types: the narrow interfaces through which this core
//! reports to presentation, loot, and UI collaborators.

use vstd::prelude::*;

use crate::geom::Vec2I;

verus! {

/// A semantic animation state; the presentation layer owns frame timing.
#[derive(Clone, Copy, PartialEq, Eq, Structural, Debug)]
pub enum SemanticState {
    Idle,
    Running,
    Charging,
    Firing,
}

/// An animation trigger for the presentation layer.
#[derive(Clone, Copy, PartialEq, Eq, Structural, Debug)]
pub struct AnimationTrigger {
    pub entity: u64,
    pub state: SemanticState,
}

/// A semantic audio cue; no waveform or asset reference crosses here.
#[derive(Clone, Copy, PartialEq, Eq, Structural, Debug)]
pub enum AudioCue {
    Death,
    Fire,
    Hit,
}

/// What caused a damage application.
#[derive(Clone, Copy, PartialEq, Eq, Structural, Debug)]
pub enum DamageSource {
    /// A projectile, by entity id.
    Projectile(u64),
    /// A damage-over-time status tick.
    Burning,
}

/// A took-damage notification for UI and health-bar collaborators.
#[derive(Clone, Copy, PartialEq, Eq, Structural, Debug)]
pub struct TookDamageEvent {
    pub entity: u64,
    pub amount: u32,
    pub source: DamageSource,
}

/// A death notification for loot and experience collaborators: emitted
/// exactly once per entity, with its last known position and reward.
#[derive(Clone, Copy, PartialEq, Eq, Structural, Debug)]
pub struct DeathEvent {
    pub entity: u64,
    pub position: Vec2I,
    pub reward: u32,
}

/// A hit notification for observers such as the knockback layer.
#[derive(Clone, Copy, PartialEq, Eq, Structural, Debug)]
pub struct ProjectileHitEvent {
    pub projectile: u64,
    pub target: u64,
}

/// A ranged attacker began its windup.
#[derive(Clone, Copy, PartialEq, Eq, Structural, Debug)]
pub struct ChargeShootEvent {
    pub entity: u64,
}

/// A ranged attacker fired; an external factory spawns the projectile.
#[derive(Clone, Copy, PartialEq, Eq, Structural, Debug)]
pub struct ShootEvent {
    pub entity: u64,
}

/// One event out of the combat pipeline, in emission order.
#[derive(Clone, Copy, PartialEq, Eq, Structural, Debug)]
pub enum CombatEvent {
    Hit(ProjectileHitEvent),
    TookDamage(TookDamageEvent),
    Death(DeathEvent),
}

} // verus!
