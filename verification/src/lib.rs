//! Combat simulation core: collision detection, projectile resolution,
//! health and damage, target selection, and per-entity AI state machines.
//!
//! All quantities are integers. Positions and velocities are fixed-point
//! coordinates (the caller picks the unit; one thousandth of a world unit
//! works well), elapsed time is in milliseconds, and angles are in
//! thousandths of a degree. A presentation layer owns floating-point
//! rendering math and converts at the boundary.

pub mod ai;
pub mod angle;
pub mod burning;
pub mod collider;
pub mod cooldown;
pub mod collision;
pub mod enemies;
pub mod events;
pub mod geom;
pub mod health;
pub mod knockback;
pub mod player;
pub mod projectile;
pub mod targeting;
pub mod team;
pub mod tower;
pub mod world;

use vstd::prelude::*;

verus! {

/// Largest coordinate magnitude the collision math accepts. With both
/// coordinates bounded by this, a squared distance fits in `u64`.
pub const COORD_LIMIT: i64 = 1_000_000_000;

/// Largest collider radius or half-extent the collision math accepts.
pub const RADIUS_LIMIT: u32 = 1_000_000_000;

/// Largest elapsed time, in milliseconds, a single tick may carry.
pub const DT_LIMIT: u32 = 1_000_000;

/// Largest speed magnitude, in coordinate units per second, the motion
/// math accepts.
pub const SPEED_LIMIT: i64 = 1_000_000_000;

} // verus!
