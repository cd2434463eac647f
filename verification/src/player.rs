//! The player's combat-facing pieces: its component values, and the
//! per-tick movement step that also decides the semantic animation
//! triggers (idle against running, and which way to face).

use vstd::prelude::*;

use crate::collider::Collider;
use crate::events::SemanticState;
use crate::geom::spec_step;
use crate::geom::Vec2I;
use crate::DT_LIMIT;

verus! {

/// The player's ammunition and reload bookkeeping.
#[derive(Clone, Copy, PartialEq, Eq, Structural, Debug)]
pub struct Player {
    pub curr_bullets: u32,
    pub max_bullets: u32,
    pub reload_time_ms: u32,
    pub shoot_time_ms: u32,
    pub is_reloading: bool,
}

/// The player's travel speed, in coordinate units per second.
pub const PLAYER_SPEED: i64 = 150_000;

/// A fresh player: six bullets, a one-second reload, a half-second shot
/// delay, and a fifty-unit collider.
pub fn spawn_player() -> (r: (Player, Collider))
    ensures
        r.0 == (Player {
            curr_bullets: 6,
            max_bullets: 6,
            reload_time_ms: 1_000,
            shoot_time_ms: 500,
            is_reloading: false,
        }),
        r.1 == (Collider {
            shape: crate::collider::Shape::Circle { radius: 50_000 },
            offset: Vec2I { x: 0, y: 0 },
        }),
{
    (
        Player {
            curr_bullets: 6,
            max_bullets: 6,
            reload_time_ms: 1_000,
            shoot_time_ms: 500,
            is_reloading: false,
        },
        Collider::new_circle(50_000, Vec2I { x: 0, y: 0 }),
    )
}

/// What one movement tick decided.
#[derive(Clone, Copy, PartialEq, Eq, Structural, Debug)]
pub struct PlayerMove {
    pub pos: Vec2I,
    /// The semantic animation to switch to, when it changed.
    pub trigger: Option<SemanticState>,
    /// Which way the sprite faces after this tick.
    pub facing_right: bool,
}

/// One movement tick. `input` is the movement direction scaled so a full
/// deflection has coordinates of magnitude 1000; no input means the
/// player stands still. The position advances by the input times the
/// player's speed; an animation trigger goes out exactly when standing
/// or running begins, and the sprite turns to face the side it moves
/// toward.
pub fn player_move_step(
    pos: Vec2I,
    input: Option<Vec2I>,
    facing_right: bool,
    state: SemanticState,
    dt_ms: u32,
) -> (r: PlayerMove)
    requires
        pos.in_bounds(),
        dt_ms <= DT_LIMIT,
        input matches Some(d) ==> -1000 <= d.x <= 1000 && -1000 <= d.y <= 1000,
    ensures
        match input {
            None => {
                &&& r.pos == pos
                &&& r.trigger == (if state != SemanticState::Idle {
                    Some(SemanticState::Idle)
                } else {
                    Option::<SemanticState>::None
                })
                &&& r.facing_right == facing_right
            },
            Some(d) => {
                let vx = d.x * 150;
                let vy = d.y * 150;
                &&& r.pos.x == pos.x + spec_step(vx, dt_ms as int)
                &&& r.pos.y == pos.y + spec_step(vy, dt_ms as int)
                &&& r.trigger == (if state != SemanticState::Running {
                    Some(SemanticState::Running)
                } else {
                    Option::<SemanticState>::None
                })
                &&& r.facing_right == (if vx > 0 {
                    true
                } else if vx < 0 {
                    false
                } else {
                    facing_right
                })
            },
        },
{
    match input {
        None => {
            let trigger = if !matches!(state, SemanticState::Idle) {
                Some(SemanticState::Idle)
            } else {
                None
            };
            PlayerMove { pos, trigger, facing_right }
        },
        Some(d) => {
            let vel = Vec2I { x: d.x * 150, y: d.y * 150 };
            let new_pos = crate::geom::advance(pos, vel, dt_ms);
            let trigger = if !matches!(state, SemanticState::Running) {
                Some(SemanticState::Running)
            } else {
                None
            };
            let facing = if vel.x > 0 {
                true
            } else if vel.x < 0 {
                false
            } else {
                facing_right
            };
            PlayerMove { pos: new_pos, trigger, facing_right: facing }
        },
    }
}

} // verus!
