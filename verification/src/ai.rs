//! Per-entity AI behavior controllers: the seek-only chaser, and the
//! four-phase ranged attacker cycling Approach, Charge, Shoot, Cooldown.

use vstd::prelude::*;

use crate::geom::seek_step;
use crate::geom::spec_seek;
use crate::geom::Vec2I;
use crate::DT_LIMIT;
use crate::SPEED_LIMIT;

verus! {

/// A seek-only chaser: every tick it moves straight toward its target,
/// snapping onto it when closer than one tick's travel.
#[derive(Clone, Copy, PartialEq, Eq, Structural, Debug)]
pub struct FollowPlayerAI {
    /// Travel speed, in coordinate units per second.
    pub speed: u32,
}

impl FollowPlayerAI {
    pub open spec fn wf(self) -> bool {
        self.speed <= SPEED_LIMIT
    }

    /// One seek step: the position after `dt_ms` milliseconds of chasing
    /// `target` from `pos`.
    pub fn step(&self, pos: Vec2I, target: Vec2I, dt_ms: u32) -> (r: Vec2I)
        requires
            self.wf(),
            pos.in_bounds(),
            target.in_bounds(),
            dt_ms <= DT_LIMIT,
        ensures
            r == spec_seek(pos, target, (self.speed as int) * (dt_ms as int) / 1000),
    {
        proof {
            assert((self.speed as int) * (dt_ms as int) <= 1_000_000_000 * 1_000_000)
                by (nonlinear_arith)
                requires
                    0 <= self.speed as int <= 1_000_000_000,
                    0 <= dt_ms as int <= 1_000_000,
            ;
        }
        let travel: u64 = (self.speed as u64) * (dt_ms as u64) / 1000;
        seek_step(pos, target, travel)
    }
}

/// The phase of a ranged attacker's firing cycle. Transitions run one way
/// around the cycle: Approach, then Charge, then Shoot, then Cooldown,
/// then Approach again.
#[derive(Clone, Copy, PartialEq, Eq, Structural, Debug)]
pub enum AiPhase {
    /// Move toward the target while out of shoot range.
    Approach,
    /// Wind up, immobile, for a fixed duration.
    Charge,
    /// Emit one fire signal, then rest.
    Shoot,
    /// Rest, immobile, until the cooldown elapses.
    Cooldown,
}

/// What one AI step asks the caller to do.
#[derive(Clone, Copy, PartialEq, Eq, Structural, Debug)]
pub struct AiAction {
    /// A charge-begin signal is owed (animation and audio cue).
    pub start_charge: bool,
    /// A fire signal is owed: the caller spawns the projectile.
    pub fire: bool,
    /// The speed to move toward the target this tick; zero in every phase
    /// but Approach.
    pub move_speed: u32,
}

/// A ranged attacker's controller: approach into range, charge for a
/// fixed duration, fire once, rest for the cooldown, repeat.
#[derive(Clone, Copy, PartialEq, Eq, Structural, Debug)]
pub struct MoveAndShootAI {
    /// Approach speed, in coordinate units per second.
    pub speed: u32,
    /// How long the windup lasts, in milliseconds.
    pub charge_duration_ms: u32,
    /// The distance at which the attacker stops approaching and fires.
    pub shoot_range: u32,
    /// The rest after each shot, in milliseconds.
    pub cooldown_ms: u32,
    pub phase: AiPhase,
    /// Time spent so far in the current Charge phase.
    pub phase_elapsed_ms: u32,
    /// Time left in the current Cooldown phase; also gates leaving
    /// Approach, so a fresh controller with a nonzero value holds fire.
    pub cooldown_remaining_ms: u32,
}

/// One controller step as a mathematical transition: given the squared
/// distance to the target and the elapsed time, the next state and the
/// actions owed. A completed charge passes through Shoot within the same
/// step: the fire signal is emitted the moment the charge duration is
/// reached, and the attacker is resting afterwards.
pub open spec fn spec_ai_step(ai: MoveAndShootAI, dist_sq: int, dt_ms: int) -> (
    MoveAndShootAI,
    AiAction,
) {
    match ai.phase {
        AiPhase::Approach => {
            if dist_sq <= (ai.shoot_range as int) * (ai.shoot_range as int)
                && ai.cooldown_remaining_ms == 0 {
                (
                    MoveAndShootAI { phase: AiPhase::Charge, phase_elapsed_ms: 0, ..ai },
                    AiAction { start_charge: true, fire: false, move_speed: 0 },
                )
            } else {
                let rem = if ai.cooldown_remaining_ms >= dt_ms {
                    ai.cooldown_remaining_ms - dt_ms
                } else {
                    0
                };
                (
                    MoveAndShootAI { cooldown_remaining_ms: rem as u32, ..ai },
                    AiAction { start_charge: false, fire: false, move_speed: ai.speed },
                )
            }
        },
        AiPhase::Charge => {
            let e = ai.phase_elapsed_ms + dt_ms;
            if e >= ai.charge_duration_ms {
                spec_shoot_step(ai)
            } else {
                (
                    MoveAndShootAI { phase_elapsed_ms: e as u32, ..ai },
                    AiAction { start_charge: false, fire: false, move_speed: 0 },
                )
            }
        },
        AiPhase::Shoot => spec_shoot_step(ai),
        AiPhase::Cooldown => {
            let rem = if ai.cooldown_remaining_ms >= dt_ms {
                ai.cooldown_remaining_ms - dt_ms
            } else {
                0
            };
            let phase = if rem == 0 {
                AiPhase::Approach
            } else {
                AiPhase::Cooldown
            };
            (
                MoveAndShootAI { phase, cooldown_remaining_ms: rem as u32, ..ai },
                AiAction { start_charge: false, fire: false, move_speed: 0 },
            )
        },
    }
}

/// The Shoot phase's action: emit the fire signal exactly once, arm the
/// cooldown, and rest.
pub open spec fn spec_shoot_step(ai: MoveAndShootAI) -> (MoveAndShootAI, AiAction) {
    (
        MoveAndShootAI {
            phase: AiPhase::Cooldown,
            phase_elapsed_ms: 0,
            cooldown_remaining_ms: ai.cooldown_ms,
            ..ai
        },
        AiAction { start_charge: false, fire: true, move_speed: 0 },
    )
}

impl MoveAndShootAI {
    /// The windup clock never runs past the configured duration, and the
    /// approach speed fits the motion math.
    pub open spec fn wf(self) -> bool {
        &&& self.speed <= SPEED_LIMIT
        &&& self.phase_elapsed_ms <= self.charge_duration_ms
    }

    /// A fresh controller: approaching, ready to charge as soon as the
    /// target is in range.
    pub fn new(speed: u32, charge_duration_ms: u32, shoot_range: u32, cooldown_ms: u32) -> (r:
        MoveAndShootAI)
        requires
            speed <= SPEED_LIMIT,
        ensures
            r.wf(),
            r == (MoveAndShootAI {
                speed,
                charge_duration_ms,
                shoot_range,
                cooldown_ms,
                phase: AiPhase::Approach,
                phase_elapsed_ms: 0,
                cooldown_remaining_ms: 0,
            }),
    {
        MoveAndShootAI {
            speed,
            charge_duration_ms,
            shoot_range,
            cooldown_ms,
            phase: AiPhase::Approach,
            phase_elapsed_ms: 0,
            cooldown_remaining_ms: 0,
        }
    }

    /// Advance the firing cycle by one tick, given the squared distance
    /// to the current target. Movement itself is the caller's job, at the
    /// returned speed. Losing line of effect never resets an in-progress
    /// charge: only Approach reads the distance.
    pub fn step(&mut self, dist_sq_to_target: u64, dt_ms: u32) -> (a: AiAction)
        requires
            old(self).wf(),
        ensures
            final(self).wf(),
            (*final(self), a) == spec_ai_step(*old(self), dist_sq_to_target as int, dt_ms as int),
    {
        match self.phase {
            AiPhase::Approach => {
                proof {
                    assert((self.shoot_range as int) * (self.shoot_range as int)
                        <= 0xFFFF_FFFF * 0xFFFF_FFFF) by (nonlinear_arith)
                        requires
                            0 <= self.shoot_range as int <= 0xFFFF_FFFF,
                    ;
                }
                let range_sq: u64 = (self.shoot_range as u64) * (self.shoot_range as u64);
                if dist_sq_to_target <= range_sq && self.cooldown_remaining_ms == 0 {
                    self.phase = AiPhase::Charge;
                    self.phase_elapsed_ms = 0;
                    AiAction { start_charge: true, fire: false, move_speed: 0 }
                } else {
                    if self.cooldown_remaining_ms >= dt_ms {
                        self.cooldown_remaining_ms = self.cooldown_remaining_ms - dt_ms;
                    } else {
                        self.cooldown_remaining_ms = 0;
                    }
                    AiAction { start_charge: false, fire: false, move_speed: self.speed }
                }
            },
            AiPhase::Charge => {
                let e: u64 = self.phase_elapsed_ms as u64 + dt_ms as u64;
                if e >= self.charge_duration_ms as u64 {
                    self.shoot_now()
                } else {
                    self.phase_elapsed_ms = e as u32;
                    AiAction { start_charge: false, fire: false, move_speed: 0 }
                }
            },
            AiPhase::Shoot => self.shoot_now(),
            AiPhase::Cooldown => {
                if self.cooldown_remaining_ms >= dt_ms {
                    self.cooldown_remaining_ms = self.cooldown_remaining_ms - dt_ms;
                } else {
                    self.cooldown_remaining_ms = 0;
                }
                if self.cooldown_remaining_ms == 0 {
                    self.phase = AiPhase::Approach;
                }
                AiAction { start_charge: false, fire: false, move_speed: 0 }
            },
        }
    }

    fn shoot_now(&mut self) -> (a: AiAction)
        requires
            old(self).wf(),
        ensures
            final(self).wf(),
            (*final(self), a) == spec_shoot_step(*old(self)),
    {
        self.phase = AiPhase::Cooldown;
        self.phase_elapsed_ms = 0;
        self.cooldown_remaining_ms = self.cooldown_ms;
        AiAction { start_charge: false, fire: true, move_speed: 0 }
    }
}

/// Running a controller through a whole sequence of ticks, each a pair of
/// the squared target distance and the elapsed milliseconds: the final
/// state and the actions, in order.
pub open spec fn spec_run_ai(ai: MoveAndShootAI, ticks: Seq<(u64, u32)>) -> (
    MoveAndShootAI,
    Seq<AiAction>,
)
    decreases ticks.len(),
{
    if ticks.len() == 0 {
        (ai, Seq::empty())
    } else {
        let step = spec_ai_step(ai, ticks[0].0 as int, ticks[0].1 as int);
        let rest = spec_run_ai(step.0, ticks.drop_first());
        (rest.0, seq![step.1] + rest.1)
    }
}

/// Phase transitions run one way around the cycle: Approach may begin a
/// Charge, a Charge runs out into the shot and the rest, and a Cooldown
/// ends back in Approach — never a step backward.
pub proof fn lemma_phase_cycle(ai: MoveAndShootAI, dist_sq: int, dt_ms: int)
    ensures
        ({
            let next = spec_ai_step(ai, dist_sq, dt_ms).0.phase;
            match ai.phase {
                AiPhase::Approach => next is Approach || next is Charge,
                AiPhase::Charge => next is Charge || next is Cooldown,
                AiPhase::Shoot => next is Cooldown,
                AiPhase::Cooldown => next is Cooldown || next is Approach,
            }
        }),
{
}

/// A run yields one action per tick.
pub proof fn lemma_run_ai_len(ai: MoveAndShootAI, ticks: Seq<(u64, u32)>)
    ensures
        spec_run_ai(ai, ticks).1.len() == ticks.len(),
    decreases ticks.len(),
{
    if ticks.len() > 0 {
        let step = spec_ai_step(ai, ticks[0].0 as int, ticks[0].1 as int);
        lemma_run_ai_len(step.0, ticks.drop_first());
    }
}

/// The milliseconds of the first `k` ticks.
pub open spec fn spec_ticks_elapsed(ticks: Seq<(u64, u32)>, k: int) -> int
    decreases k,
{
    if k <= 0 {
        0
    } else {
        spec_ticks_elapsed(ticks, k - 1) + ticks[k - 1].1
    }
}

/// Charge-phase timing: a charging attacker never fires before the time
/// spent charging reaches the configured duration, and fires on exactly
/// the tick where it is reached — whatever the target's distance does
/// meanwhile.
pub proof fn lemma_charge_fires_on_time(ai: MoveAndShootAI, ticks: Seq<(u64, u32)>, k: int)
    requires
        ai.wf(),
        ai.phase is Charge,
        0 <= k < ticks.len(),
    ensures
        (ai.phase_elapsed_ms as int) + spec_ticks_elapsed(ticks, k + 1) < ai.charge_duration_ms
            ==> !spec_run_ai(ai, ticks).1[k].fire,
        ((ai.phase_elapsed_ms as int) + spec_ticks_elapsed(ticks, k + 1) >= ai.charge_duration_ms
            && (ai.phase_elapsed_ms as int) + spec_ticks_elapsed(ticks, k)
            < ai.charge_duration_ms) ==> spec_run_ai(ai, ticks).1[k].fire,
    decreases k,
{
    let run = spec_run_ai(ai, ticks);
    let step = spec_ai_step(ai, ticks[0].0 as int, ticks[0].1 as int);
    let rest = ticks.drop_first();
    lemma_run_ai_len(ai, ticks);
    lemma_run_ai_len(step.0, rest);
    assert(spec_ticks_elapsed(ticks, 0) == 0);
    assert(spec_ticks_elapsed(ticks, 1) == spec_ticks_elapsed(ticks, 0) + ticks[0].1);
    if k == 0 {
        assert(run.1[0] == step.1);
    } else {
        assert(run.1[k] == spec_run_ai(step.0, rest).1[k - 1]);
        let e = ai.phase_elapsed_ms + ticks[0].1;
        if e >= ai.charge_duration_ms {
            // The shot went off on the first tick, so both stated windows
            // lie in the past: the premises are vacuous for later ticks.
            lemma_ticks_elapsed_monotone(ticks, 1, k);
            lemma_ticks_elapsed_monotone(ticks, 1, k + 1);
        } else {
            lemma_charge_fires_on_time(step.0, rest, k - 1);
            lemma_ticks_elapsed_shift(ticks, k);
            lemma_ticks_elapsed_shift(ticks, k + 1);
        }
    }
}

/// Tick sums grow with the tick count.
proof fn lemma_ticks_elapsed_monotone(ticks: Seq<(u64, u32)>, a: int, b: int)
    requires
        0 <= a <= b,
    ensures
        spec_ticks_elapsed(ticks, a) <= spec_ticks_elapsed(ticks, b),
    decreases b - a,
{
    if a < b {
        lemma_ticks_elapsed_monotone(ticks, a, b - 1);
    }
}

/// Dropping the first tick shifts the sum by that tick's time.
proof fn lemma_ticks_elapsed_shift(ticks: Seq<(u64, u32)>, k: int)
    requires
        1 <= k <= ticks.len(),
    ensures
        spec_ticks_elapsed(ticks, k) == ticks[0].1 + spec_ticks_elapsed(ticks.drop_first(), k - 1),
    decreases k,
{
    assert(spec_ticks_elapsed(ticks, 0) == 0);
    assert(spec_ticks_elapsed(ticks.drop_first(), 0) == 0);
    if k == 1 {
        assert(spec_ticks_elapsed(ticks, 1) == spec_ticks_elapsed(ticks, 0) + ticks[0].1);
    } else {
        lemma_ticks_elapsed_shift(ticks, k - 1);
        assert(ticks.drop_first()[k - 2] == ticks[k - 1]);
        assert(spec_ticks_elapsed(ticks, k) == spec_ticks_elapsed(ticks, k - 1) + ticks[k - 1].1);
        assert(spec_ticks_elapsed(ticks.drop_first(), k - 1) == spec_ticks_elapsed(
            ticks.drop_first(),
            k - 2,
        ) + ticks.drop_first()[k - 2].1);
    }
}

} // verus!
