//! The entity registry and the projectile-resolution pipeline: one flat
//! list of combat entities, and the tick stages that read and mutate it
//! in a fixed order.

use vstd::prelude::*;

use crate::burning::spec_active_dt;
use crate::burning::Burning;
use crate::collider::Collider;
use crate::collision::detect_overlaps;
use crate::collision::spec_overlaps;
use crate::collision::Body;
use crate::collision::OverlapEvent;
use crate::events::CombatEvent;
use crate::events::DamageSource;
use crate::events::DeathEvent;
use crate::events::ProjectileHitEvent;
use crate::events::TookDamageEvent;
use crate::geom::advance;
use crate::geom::aimed_velocity;
use crate::geom::spec_aimed;
use crate::geom::spec_step;
use crate::geom::Vec2I;
use crate::health::spec_damage_step;
use crate::health::Health;
use crate::knockback::Knockback;
use crate::projectile::spec_after_hit;
use crate::projectile::spec_can_hit;
use crate::projectile::Projectile;
use crate::projectile::ProjectileV;
use crate::team::Team;
use crate::COORD_LIMIT;
use crate::DT_LIMIT;
use crate::SPEED_LIMIT;

verus! {

/// One combat entity with its component set. Absent components are
/// `None`; entities are destroyed only at the end-of-tick sweep, after
/// `despawn` has been raised.
pub struct Unit {
    pub id: u64,
    pub pos: Vec2I,
    /// Plain velocity, in coordinate units per second.
    pub vel: Vec2I,
    pub collider: Option<Collider>,
    pub health: Option<Health>,
    pub team: Option<Team>,
    pub projectile: Option<Projectile>,
    pub knockback: Option<Knockback>,
    pub burning: Option<Burning>,
    /// Reward metadata handed to loot collaborators in the death
    /// notification.
    pub reward: u32,
    /// Scheduled for removal at the end of the tick.
    pub despawn: bool,
}

/// One combat entity as a mathematical value.
pub struct UnitV {
    pub id: u64,
    pub pos: Vec2I,
    pub vel: Vec2I,
    pub collider: Option<Collider>,
    pub health: Option<Health>,
    pub team: Option<Team>,
    pub proj: Option<ProjectileV>,
    pub knockback: Option<Knockback>,
    pub burning: Option<Burning>,
    pub reward: u32,
    pub despawn: bool,
}

impl Unit {
    /// This entity as a mathematical value.
    pub open spec fn view(self) -> UnitV {
        UnitV {
            id: self.id,
            pos: self.pos,
            vel: self.vel,
            collider: self.collider,
            health: self.health,
            team: self.team,
            proj: match self.projectile {
                Some(p) => Some(p.model()),
                None => None,
            },
            knockback: self.knockback,
            burning: self.burning,
            reward: self.reward,
            despawn: self.despawn,
        }
    }

    /// Every component present is well-formed.
    pub open spec fn wf(self) -> bool {
        &&& (self.projectile matches Some(p) ==> p.wf())
        &&& (self.health matches Some(h) ==> h.wf())
        &&& (self.knockback matches Some(k) ==> k.wf())
        &&& (self.burning matches Some(b) ==> b.wf())
        &&& (self.collider matches Some(c) ==> c.wf())
    }
}

/// The registry as a sequence of mathematical values.
pub open spec fn spec_world_view(s: Seq<Unit>) -> Seq<UnitV> {
    s.map_values(|u: Unit| u.view())
}

/// Every unit's components are well-formed.
pub open spec fn spec_units_wf(s: Seq<Unit>) -> bool {
    forall|k: int| 0 <= k < s.len() ==> (#[trigger] s[k]).wf()
}

/// The position of the first unit with the given id, or -1: a stale
/// handle finds nothing and the operation is skipped.
pub open spec fn spec_find(s: Seq<UnitV>, id: u64) -> int
    decreases s.len(),
{
    if s.len() == 0 {
        -1
    } else if s[0].id == id {
        0
    } else {
        let r = spec_find(s.drop_first(), id);
        if r < 0 {
            -1
        } else {
            r + 1
        }
    }
}

/// What `spec_find` returns: -1 exactly when no unit carries the id,
/// otherwise the first position that does.
pub proof fn lemma_find_characterize(s: Seq<UnitV>, id: u64)
    ensures
        spec_find(s, id) == -1 <==> (forall|j: int| 0 <= j < s.len() ==> (#[trigger] s[j]).id != id),
        spec_find(s, id) != -1 ==> {
            &&& 0 <= spec_find(s, id) < s.len()
            &&& s[spec_find(s, id)].id == id
            &&& forall|j: int| 0 <= j < spec_find(s, id) ==> (#[trigger] s[j]).id != id
        },
    decreases s.len(),
{
    if s.len() == 0 {
    } else if s[0].id == id {
    } else {
        lemma_find_characterize(s.drop_first(), id);
        let rest = s.drop_first();
        let r = spec_find(rest, id);
        if r < 0 {
            assert forall|j: int| 0 <= j < s.len() implies (#[trigger] s[j]).id != id by {
                if j > 0 {
                    assert(rest[j - 1] == s[j]);
                }
            }
        } else {
            assert(s[r + 1] == rest[r]);
            assert forall|j: int| 0 <= j < r + 1 implies (#[trigger] s[j]).id != id by {
                if j > 0 {
                    assert(rest[j - 1] == s[j]);
                }
            }
        }
    }
}

/// Find the first unit with the given id.
fn find_index(units: &Vec<Unit>, id: u64) -> (r: Option<usize>)
    ensures
        match r {
            Some(i) => i < units@.len() && spec_find(spec_world_view(units@), id) == i as int,
            None => spec_find(spec_world_view(units@), id) == -1,
        },
{
    proof {
        lemma_find_characterize(spec_world_view(units@), id);
    }
    let ghost v = spec_world_view(units@);
    let n = units.len();
    let mut k: usize = 0;
    while k < n
        invariant
            n == units@.len(),
            v == spec_world_view(units@),
            k <= n,
            forall|j: int| 0 <= j < k ==> (#[trigger] v[j]).id != id,
        decreases n - k,
    {
        if units[k].id == id {
            proof {
                assert(v[k as int] == units@[k as int].view());
                lemma_find_characterize(v, id);
                if spec_find(v, id) == -1 {
                    assert(v[k as int].id != id);
                }
                assert(spec_find(v, id) != -1);
                if spec_find(v, id) < k as int {
                    assert(v[spec_find(v, id)].id != id);
                }
                if spec_find(v, id) > k as int {
                    assert(v[k as int].id != id);
                }
            }
            return Some(k);
        }
        proof {
            assert(v[k as int] == units@[k as int].view());
        }
        k = k + 1;
    }
    proof {
        lemma_find_characterize(v, id);
        if spec_find(v, id) != -1 {
            assert(v[spec_find(v, id)].id != id);
        }
    }
    None
}

/// One directed hit attempt between two entity ids: where the first is a
/// live projectile and the second a damageable target allowed by the
/// filter and not yet hit, the hit is recorded, damage is applied, and
/// the notifications are emitted in order — took-damage when the amount
/// is positive, the hit itself, and a death on the application that
/// first empties a live target's health. Stale ids, a missing Health or
/// team, and a self-pair are all silently skipped.
pub open spec fn spec_attempt(s: Seq<UnitV>, pid: u64, tid: u64) -> (Seq<UnitV>, Seq<CombatEvent>) {
    let pi = spec_find(s, pid);
    let ti = spec_find(s, tid);
    if pi < 0 || ti < 0 || pi == ti {
        (s, Seq::empty())
    } else {
        let pu = s[pi];
        let tu = s[ti];
        match (pu.proj, tu.health, tu.team) {
            (Some(pv), Some(h), Some(team)) => {
                if spec_can_hit(pv.damage_target, pv.st, team, tid) {
                    let st1 = spec_after_hit(pv.piercing_mode, pv.st, tid);
                    let dstep = spec_damage_step(h, pv.dmg as int);
                    let pu1 = UnitV {
                        proj: Some(ProjectileV { st: st1, ..pv }),
                        despawn: pu.despawn || !st1.alive,
                        ..pu
                    };
                    let tu1 = UnitV {
                        health: Some(dstep.0),
                        despawn: tu.despawn || dstep.2,
                        ..tu
                    };
                    let s1 = s.update(pi, pu1).update(ti, tu1);
                    let evs = (if dstep.1 {
                        seq![
                            CombatEvent::TookDamage(
                                TookDamageEvent {
                                    entity: tid,
                                    amount: pv.dmg,
                                    source: DamageSource::Projectile(pid),
                                },
                            ),
                        ]
                    } else {
                        Seq::empty()
                    }) + seq![
                        CombatEvent::Hit(ProjectileHitEvent { projectile: pid, target: tid }),
                    ] + (if dstep.2 {
                        seq![
                            CombatEvent::Death(
                                DeathEvent { entity: tid, position: tu.pos, reward: tu.reward },
                            ),
                        ]
                    } else {
                        Seq::empty()
                    });
                    (s1, evs)
                } else {
                    (s, Seq::empty())
                }
            },
            _ => (s, Seq::empty()),
        }
    }
}

/// Both directed attempts of one unordered overlap, first-to-second then
/// second-to-first on the resulting state.
pub open spec fn spec_resolve_pair(s: Seq<UnitV>, ev: OverlapEvent) -> (
    Seq<UnitV>,
    Seq<CombatEvent>,
) {
    let a = spec_attempt(s, ev.first, ev.second);
    let b = spec_attempt(a.0, ev.second, ev.first);
    (b.0, a.1 + b.1)
}

/// A whole tick's overlap events resolved in discovery order.
pub open spec fn spec_resolve_events(s: Seq<UnitV>, evs: Seq<OverlapEvent>) -> (
    Seq<UnitV>,
    Seq<CombatEvent>,
)
    decreases evs.len(),
{
    if evs.len() == 0 {
        (s, Seq::empty())
    } else {
        let first = spec_resolve_pair(s, evs[0]);
        let rest = spec_resolve_events(first.0, evs.drop_first());
        (rest.0, first.1 + rest.1)
    }
}

fn attempt_hit(units: &mut Vec<Unit>, pid: u64, tid: u64, out: &mut Vec<CombatEvent>)
    requires
        spec_units_wf(old(units)@),
    ensures
        spec_units_wf(final(units)@),
        final(units)@.len() == old(units)@.len(),
        spec_world_view(final(units)@) == spec_attempt(spec_world_view(old(units)@), pid, tid).0,
        final(out)@ == old(out)@ + spec_attempt(spec_world_view(old(units)@), pid, tid).1,
    {
    let ghost v0 = spec_world_view(units@);
    let pi = match find_index(units, pid) {
        Some(i) => i,
        None => {
            proof {
                assert(final(out)@ =~= old(out)@ + spec_attempt(v0, pid, tid).1);
            }
            return ;
        },
    };
    let ti = match find_index(units, tid) {
        Some(i) => i,
        None => {
            proof {
                assert(final(out)@ =~= old(out)@ + spec_attempt(v0, pid, tid).1);
            }
            return ;
        },
    };
    if pi == ti {
        proof {
            assert(final(out)@ =~= old(out)@ + spec_attempt(v0, pid, tid).1);
        }
        return ;
    }
    let t_team: Team = match units[ti].team {
        Some(t) => t,
        None => {
            proof {
                assert(final(out)@ =~= old(out)@ + spec_attempt(v0, pid, tid).1);
            }
            return ;
        },
    };
    if units[ti].health.is_none() {
        proof {
            assert(final(out)@ =~= old(out)@ + spec_attempt(v0, pid, tid).1);
        }
        return ;
    }
    let mut hit = false;
    let mut dmg: u32 = 0;
    let mut proj_alive = true;
    let pu = &mut units[pi];
    match &mut pu.projectile {
        Some(p) => {
            proof {
                assert(v0[pi as int] == old(units)@[pi as int].view());
            }
            if p.resolve_hit(t_team, tid) {
                hit = true;
                dmg = p.dmg;
                proj_alive = p.is_alive;
            }
        },
        None => {},
    }
    if hit && !proj_alive {
        let pu2 = &mut units[pi];
        pu2.despawn = true;
    }
    if !hit {
        proof {
            assert(spec_world_view(units@) =~= spec_attempt(v0, pid, tid).0);
            assert(out@ =~= old(out)@ + spec_attempt(v0, pid, tid).1);
        }
        return ;
    }
    let tu = &mut units[ti];
    let mut h: Health = match tu.health {
        Some(h) => h,
        None => {
            // Unreachable: the component was checked present above.
            proof {
                assert(false);
            }
            Health { current: 0, max: 0, death_signaled: false }
        },
    };
    let outcome = h.apply_damage(dmg as i64);
    tu.health = Some(h);
    let t_pos = tu.pos;
    let t_reward = tu.reward;
    if outcome.died {
        tu.despawn = true;
    }
    if outcome.took_damage {
        out.push(
            CombatEvent::TookDamage(
                TookDamageEvent { entity: tid, amount: dmg, source: DamageSource::Projectile(pid) },
            ),
        );
    }
    out.push(CombatEvent::Hit(ProjectileHitEvent { projectile: pid, target: tid }));
    if outcome.died {
        out.push(CombatEvent::Death(DeathEvent { entity: tid, position: t_pos, reward: t_reward }));
    }
    proof {
        assert(spec_world_view(units@) =~= spec_attempt(v0, pid, tid).0);
        assert(out@ =~= old(out)@ + spec_attempt(v0, pid, tid).1);
    }
}

/// Resolve a tick's overlap events against the registry, in discovery
/// order, exactly as `spec_resolve_events` says.
pub fn resolve_overlaps(units: &mut Vec<Unit>, overlaps: &Vec<OverlapEvent>) -> (out: Vec<
    CombatEvent,
>)
    requires
        spec_units_wf(old(units)@),
    ensures
        spec_units_wf(final(units)@),
        final(units)@.len() == old(units)@.len(),
        spec_world_view(final(units)@) == spec_resolve_events(
            spec_world_view(old(units)@),
            overlaps@,
        ).0,
        out@ == spec_resolve_events(spec_world_view(old(units)@), overlaps@).1,
{
    let ghost v0 = spec_world_view(units@);
    let ghost full = spec_resolve_events(v0, overlaps@);
    let mut out: Vec<CombatEvent> = Vec::new();
    let n = overlaps.len();
    let mut k: usize = 0;
    proof {
        assert(overlaps@.skip(0) =~= overlaps@);
        assert(out@ + full.1 =~= full.1);
    }
    while k < n
        invariant
            n == overlaps@.len(),
            k <= n,
            spec_units_wf(units@),
            units@.len() == old(units)@.len(),
            full == spec_resolve_events(v0, overlaps@),
            spec_resolve_events(spec_world_view(units@), overlaps@.skip(k as int)).0 == full.0,
            out@ + spec_resolve_events(spec_world_view(units@), overlaps@.skip(k as int)).1
                == full.1,
        decreases n - k,
    {
        let ghost vk = spec_world_view(units@);
        let ghost tail = overlaps@.skip(k as int);
        let ev = overlaps[k];
        attempt_hit(units, ev.first, ev.second, &mut out);
        attempt_hit(units, ev.second, ev.first, &mut out);
        proof {
            assert(tail[0] == ev);
            assert(tail.drop_first() =~= overlaps@.skip(k as int + 1));
            assert(spec_resolve_events(vk, tail) == {
                let first = spec_resolve_pair(vk, ev);
                let rest = spec_resolve_events(first.0, tail.drop_first());
                (rest.0, first.1 + rest.1)
            });
            assert(out@ + spec_resolve_events(spec_world_view(units@), overlaps@.skip(k as int + 1)).1 =~= full.1);
        }
        k = k + 1;
    }
    proof {
        assert(overlaps@.skip(n as int) =~= Seq::<OverlapEvent>::empty());
        assert(out@ =~= full.1);
    }
    out
}

/// Where a unit stands after `dt_ms` milliseconds of its plain velocity:
/// pure kinematic integration, no acceleration.
pub open spec fn spec_moved_unit(u: UnitV, dt: int) -> UnitV {
    UnitV {
        pos: Vec2I {
            x: (u.pos.x + spec_step(u.vel.x as int, dt)) as i64,
            y: (u.pos.y + spec_step(u.vel.y as int, dt)) as i64,
        },
        ..u
    }
}

/// The motion stage: every unit advances by its velocity.
pub open spec fn spec_motion_stage(s: Seq<UnitV>, dt: int) -> Seq<UnitV> {
    s.map_values(|u: UnitV| spec_moved_unit(u, dt))
}

/// The geometry preconditions one unit must meet at the top of a tick:
/// bounded position and velocity, room to move without leaving the
/// coordinate range, and a collider center still in range after moving.
pub open spec fn spec_unit_tick_ok(u: UnitV, dt: int) -> bool {
    let px = u.pos.x + spec_step(u.vel.x as int, dt);
    let py = u.pos.y + spec_step(u.vel.y as int, dt);
    &&& u.pos.in_bounds()
    &&& -SPEED_LIMIT <= u.vel.x <= SPEED_LIMIT
    &&& -SPEED_LIMIT <= u.vel.y <= SPEED_LIMIT
    &&& -COORD_LIMIT <= px <= COORD_LIMIT
    &&& -COORD_LIMIT <= py <= COORD_LIMIT
    &&& match u.collider {
        Some(c) => -COORD_LIMIT <= px + c.offset.x <= COORD_LIMIT && -COORD_LIMIT <= py
            + c.offset.y <= COORD_LIMIT,
        None => true,
    }
}

pub open spec fn spec_tick_pre(s: Seq<UnitV>, dt: int) -> bool {
    forall|k: int| 0 <= k < s.len() ==> spec_unit_tick_ok(#[trigger] s[k], dt)
}

/// Every unit's position, and every collider center, lies in range.
pub open spec fn spec_positions_ok(s: Seq<UnitV>) -> bool {
    forall|k: int|
        0 <= k < s.len() ==> (#[trigger] s[k]).pos.in_bounds() && match s[k].collider {
            Some(c) => -COORD_LIMIT <= s[k].pos.x + c.offset.x <= COORD_LIMIT && -COORD_LIMIT
                <= s[k].pos.y + c.offset.y <= COORD_LIMIT,
            None => true,
        }
}

fn motion_stage(units: &mut Vec<Unit>, dt_ms: u32)
    requires
        spec_units_wf(old(units)@),
        spec_tick_pre(spec_world_view(old(units)@), dt_ms as int),
        dt_ms <= DT_LIMIT,
    ensures
        spec_units_wf(final(units)@),
        final(units)@.len() == old(units)@.len(),
        spec_world_view(final(units)@) == spec_motion_stage(
            spec_world_view(old(units)@),
            dt_ms as int,
        ),
        spec_positions_ok(spec_world_view(final(units)@)),
{
    let ghost v0 = spec_world_view(units@);
    let n = units.len();
    let mut i: usize = 0;
    while i < n
        invariant
            n == units@.len(),
            n == old(units)@.len(),
            i <= n,
            dt_ms <= DT_LIMIT,
            spec_units_wf(units@),
            v0 == spec_world_view(old(units)@),
            spec_tick_pre(v0, dt_ms as int),
            forall|j: int| i <= j < n ==> units@[j] == old(units)@[j],
            forall|j: int|
                0 <= j < i ==> (#[trigger] units@[j]).view() == spec_moved_unit(
                    v0[j],
                    dt_ms as int,
                ),
        decreases n - i,
    {
        proof {
            assert(units@[i as int] == old(units)@[i as int]);
            assert(v0[i as int] == old(units)@[i as int].view());
            assert(spec_unit_tick_ok(v0[i as int], dt_ms as int));
        }
        let u = &mut units[i];
        u.pos = advance(u.pos, u.vel, dt_ms);
        i = i + 1;
    }
    proof {
        assert(spec_world_view(units@) =~= spec_motion_stage(v0, dt_ms as int));
    }
}

/// The collidable entities of the registry, in registry order: a body
/// for every unit carrying a collider, centered at the unit's position
/// displaced by the collider's offset. Entities without a collider are
/// excluded.
pub open spec fn spec_bodies(s: Seq<UnitV>) -> Seq<Body>
    decreases s.len(),
{
    if s.len() == 0 {
        Seq::empty()
    } else {
        let rest = spec_bodies(s.drop_first());
        match s[0].collider {
            Some(c) => seq![
                Body {
                    id: s[0].id,
                    center: Vec2I {
                        x: (s[0].pos.x + c.offset.x) as i64,
                        y: (s[0].pos.y + c.offset.y) as i64,
                    },
                    shape: c.shape,
                },
            ] + rest,
            None => rest,
        }
    }
}

fn collect_bodies(units: &Vec<Unit>) -> (r: Vec<Body>)
    requires
        spec_units_wf(units@),
        spec_positions_ok(spec_world_view(units@)),
    ensures
        r@ == spec_bodies(spec_world_view(units@)),
        forall|k: int| 0 <= k < r@.len() ==> (#[trigger] r@[k]).wf(),
{
    let ghost v0 = spec_world_view(units@);
    let n = units.len();
    let mut out: Vec<Body> = Vec::new();
    let mut i: usize = 0;
    proof {
        assert(v0.skip(0) =~= v0);
        assert(out@ + spec_bodies(v0) =~= spec_bodies(v0));
    }
    while i < n
        invariant
            n == units@.len(),
            i <= n,
            spec_units_wf(units@),
            spec_positions_ok(v0),
            v0 == spec_world_view(units@),
            out@ + spec_bodies(v0.skip(i as int)) == spec_bodies(v0),
            forall|k: int| 0 <= k < out@.len() ==> (#[trigger] out@[k]).wf(),
        decreases n - i,
    {
        let ghost tail = v0.skip(i as int);
        proof {
            assert(tail[0] == v0[i as int]);
            assert(tail.drop_first() =~= v0.skip(i as int + 1));
            assert(v0[i as int] == units@[i as int].view());
            assert(units@[i as int].wf());
        }
        match &units[i].collider {
            Some(c) => {
                let b = Body {
                    id: units[i].id,
                    center: Vec2I {
                        x: units[i].pos.x + c.offset.x,
                        y: units[i].pos.y + c.offset.y,
                    },
                    shape: c.shape,
                };
                out.push(b);
            },
            None => {},
        }
        proof {
            assert(out@ + spec_bodies(v0.skip(i as int + 1)) =~= spec_bodies(v0));
        }
        i = i + 1;
    }
    proof {
        assert(spec_bodies(v0.skip(n as int)) =~= Seq::<Body>::empty());
        assert(out@ =~= spec_bodies(v0));
    }
    out
}

/// The damage a burning status deals this tick: one tick's damage for
/// each full interval that fell due, saturating at the largest amount a
/// notification carries.
pub open spec fn spec_burn_amount(n: int, dmg: int) -> int {
    if n * dmg > u32::MAX {
        u32::MAX as int
    } else {
        n * dmg
    }
}

/// The fire status on one unit after `dt` milliseconds: the status clock
/// advances (only while the status has time left), any damage due is
/// applied through the health pipeline, and a fully elapsed status is
/// removed.
pub open spec fn spec_burn_unit(u: UnitV, dt: int) -> (UnitV, Seq<CombatEvent>) {
    match (u.burning, u.health) {
        (Some(b), Some(h)) => {
            let active = spec_active_dt(b.remaining_ms as int, dt);
            let total = b.tick_elapsed_ms + active;
            let n = total / (b.tick_interval_ms as int);
            let rem = b.remaining_ms - active;
            let b1 = Burning {
                remaining_ms: rem as u32,
                tick_elapsed_ms: (total % (b.tick_interval_ms as int)) as u32,
                ..b
            };
            let newburn: Option<Burning> = if rem == 0 {
                None
            } else {
                Some(b1)
            };
            let amt = spec_burn_amount(n, b.dmg_per_tick as int);
            if amt > 0 {
                let dstep = spec_damage_step(h, amt);
                (
                    UnitV {
                        burning: newburn,
                        health: Some(dstep.0),
                        despawn: u.despawn || dstep.2,
                        ..u
                    },
                    seq![
                        CombatEvent::TookDamage(
                            TookDamageEvent {
                                entity: u.id,
                                amount: amt as u32,
                                source: DamageSource::Burning,
                            },
                        ),
                    ] + (if dstep.2 {
                        seq![
                            CombatEvent::Death(
                                DeathEvent { entity: u.id, position: u.pos, reward: u.reward },
                            ),
                        ]
                    } else {
                        Seq::empty()
                    }),
                )
            } else {
                (UnitV { burning: newburn, ..u }, Seq::empty())
            }
        },
        (Some(b), None) => {
            let active = spec_active_dt(b.remaining_ms as int, dt);
            let total = b.tick_elapsed_ms + active;
            let rem = b.remaining_ms - active;
            let b1 = Burning {
                remaining_ms: rem as u32,
                tick_elapsed_ms: (total % (b.tick_interval_ms as int)) as u32,
                ..b
            };
            let newburn: Option<Burning> = if rem == 0 {
                None
            } else {
                Some(b1)
            };
            (UnitV { burning: newburn, ..u }, Seq::empty())
        },
        _ => (u, Seq::empty()),
    }
}

/// The whole burning stage: every unit's status advances, in registry
/// order.
pub open spec fn spec_burning_stage(s: Seq<UnitV>, dt: int) -> (Seq<UnitV>, Seq<CombatEvent>)
    decreases s.len(),
{
    if s.len() == 0 {
        (s, Seq::empty())
    } else {
        let first = spec_burn_unit(s[0], dt);
        let rest = spec_burning_stage(s.drop_first(), dt);
        (seq![first.0] + rest.0, first.1 + rest.1)
    }
}

/// The burning stage acts on each unit independently.
pub proof fn lemma_burning_pointwise(s: Seq<UnitV>, dt: int)
    ensures
        spec_burning_stage(s, dt).0.len() == s.len(),
        forall|k: int|
            0 <= k < s.len() ==> spec_burning_stage(s, dt).0[k] == spec_burn_unit(
                #[trigger] s[k],
                dt,
            ).0,
    decreases s.len(),
{
    if s.len() > 0 {
        lemma_burning_pointwise(s.drop_first(), dt);
        assert forall|k: int|
            0 <= k < s.len() implies spec_burning_stage(s, dt).0[k] == spec_burn_unit(
            #[trigger] s[k],
            dt,
        ).0 by {
            if k > 0 {
                assert(s.drop_first()[k - 1] == s[k]);
                assert(spec_burning_stage(s, dt).0[k] == spec_burning_stage(s.drop_first(), dt).0[k
                    - 1]);
            }
        }
    }
}

fn burning_stage(units: &mut Vec<Unit>, dt_ms: u32, out: &mut Vec<CombatEvent>)
    requires
        spec_units_wf(old(units)@),
    ensures
        spec_units_wf(final(units)@),
        final(units)@.len() == old(units)@.len(),
        spec_world_view(final(units)@) == spec_burning_stage(
            spec_world_view(old(units)@),
            dt_ms as int,
        ).0,
        final(out)@ == old(out)@ + spec_burning_stage(spec_world_view(old(units)@), dt_ms as int).1,
{
    let ghost v0 = spec_world_view(units@);
    let ghost full = spec_burning_stage(v0, dt_ms as int);
    let n = units.len();
    let mut i: usize = 0;
    proof {
        lemma_burning_pointwise(v0, dt_ms as int);
        assert(v0.skip(0) =~= v0);
        assert(old(out)@ + full.1 =~= old(out)@ + full.1);
    }
    while i < n
        invariant
            n == units@.len(),
            n == old(units)@.len(),
            i <= n,
            spec_units_wf(units@),
            v0 == spec_world_view(old(units)@),
            full == spec_burning_stage(v0, dt_ms as int),
            forall|j: int| i <= j < n ==> units@[j] == old(units)@[j],
            forall|j: int|
                0 <= j < i ==> (#[trigger] units@[j]).view() == spec_burn_unit(
                    v0[j],
                    dt_ms as int,
                ).0,
            out@ + spec_burning_stage(v0.skip(i as int), dt_ms as int).1 == old(out)@ + full.1,
        decreases n - i,
    {
        let ghost tail = v0.skip(i as int);
        proof {
            assert(tail[0] == v0[i as int]);
            assert(tail.drop_first() =~= v0.skip(i as int + 1));
            assert(units@[i as int] == old(units)@[i as int]);
            assert(v0[i as int] == units@[i as int].view());
            assert(units@[i as int].wf());
        }
        let has_burn = units[i].burning.is_some();
        if has_burn {
            let u = &mut units[i];
            let mut b: Burning = match u.burning {
                Some(b) => b,
                None => {
                    // Unreachable: the component was checked present above.
                    proof {
                        assert(false);
                    }
                    Burning {
                        dmg_per_tick: 0,
                        tick_interval_ms: 1,
                        remaining_ms: 0,
                        tick_elapsed_ms: 0,
                    }
                },
            };
            let (n_ticks, expired) = b.step(dt_ms);
            if expired {
                u.burning = None;
            } else {
                u.burning = Some(b);
            }
            let has_health = u.health.is_some();
            if has_health {
                let amt: u32 = saturating_ticks(n_ticks, b.dmg_per_tick);
                if amt > 0 {
                    let mut h: Health = match u.health {
                        Some(h) => h,
                        None => {
                            // Unreachable: the component was checked
                            // present above.
                            proof {
                                assert(false);
                            }
                            Health { current: 0, max: 0, death_signaled: false }
                        },
                    };
                    let outcome = h.apply_damage(amt as i64);
                    u.health = Some(h);
                    if outcome.died {
                        u.despawn = true;
                    }
                    let uid = u.id;
                    let upos = u.pos;
                    let ureward = u.reward;
                    out.push(
                        CombatEvent::TookDamage(
                            TookDamageEvent {
                                entity: uid,
                                amount: amt,
                                source: DamageSource::Burning,
                            },
                        ),
                    );
                    if outcome.died {
                        out.push(
                            CombatEvent::Death(
                                DeathEvent { entity: uid, position: upos, reward: ureward },
                            ),
                        );
                    }
                }
            }
        }
        proof {
            assert(units@[i as int].view() == spec_burn_unit(v0[i as int], dt_ms as int).0);
            assert(out@ + spec_burning_stage(v0.skip(i as int + 1), dt_ms as int).1 =~= old(out)@
                + full.1);
        }
        i = i + 1;
    }
    proof {
        assert(spec_burning_stage(v0.skip(n as int), dt_ms as int).1 =~= Seq::<
            CombatEvent,
        >::empty());
        assert(out@ =~= old(out)@ + full.1);
        assert(spec_world_view(units@) =~= full.0);
    }
}

/// `n` status ticks of `dmg` damage each, saturating at `u32::MAX`.
fn saturating_ticks(n: u64, dmg: u32) -> (r: u32)
    ensures
        r as int == spec_burn_amount(n as int, dmg as int),
{
    proof {
        assert((n as int) * (dmg as int) <= 0xFFFF_FFFF_FFFF_FFFF * 0xFFFF_FFFF)
            by (nonlinear_arith)
            requires
                0 <= n as int <= 0xFFFF_FFFF_FFFF_FFFF,
                0 <= dmg as int <= 0xFFFF_FFFF,
        ;
    }
    let p: u128 = (n as u128) * (dmg as u128);
    if p > u32::MAX as u128 {
        u32::MAX
    } else {
        p as u32
    }
}

/// Geometry is untouched by a hit attempt: positions, velocities,
/// colliders, knockbacks, burnings, ids and rewards stay as they were.
pub proof fn lemma_attempt_preserves_geometry(s: Seq<UnitV>, pid: u64, tid: u64)
    ensures
        spec_attempt(s, pid, tid).0.len() == s.len(),
        forall|k: int|
            0 <= k < s.len() ==> {
                let r = #[trigger] spec_attempt(s, pid, tid).0[k];
                &&& r.pos == s[k].pos
                &&& r.vel == s[k].vel
                &&& r.collider == s[k].collider
                &&& r.knockback == s[k].knockback
                &&& r.id == s[k].id
            },
{
    lemma_find_characterize(s, pid);
    lemma_find_characterize(s, tid);
    let pi = spec_find(s, pid);
    let ti = spec_find(s, tid);
    if pi < 0 || ti < 0 || pi == ti {
    } else {
        assert(0 <= pi < s.len() && 0 <= ti < s.len());
        assert forall|k: int| 0 <= k < s.len() implies {
            let r = #[trigger] spec_attempt(s, pid, tid).0[k];
            &&& r.pos == s[k].pos
            &&& r.vel == s[k].vel
            &&& r.collider == s[k].collider
            &&& r.knockback == s[k].knockback
            &&& r.id == s[k].id
        } by {
            let r = spec_attempt(s, pid, tid).0[k];
        }
    }
}

/// Geometry is untouched by the whole resolution stage.
pub proof fn lemma_resolve_preserves_geometry(s: Seq<UnitV>, evs: Seq<OverlapEvent>)
    ensures
        spec_resolve_events(s, evs).0.len() == s.len(),
        forall|k: int|
            0 <= k < s.len() ==> {
                let r = #[trigger] spec_resolve_events(s, evs).0[k];
                &&& r.pos == s[k].pos
                &&& r.vel == s[k].vel
                &&& r.collider == s[k].collider
                &&& r.knockback == s[k].knockback
                &&& r.id == s[k].id
            },
    decreases evs.len(),
{
    if evs.len() > 0 {
        let a = spec_attempt(s, evs[0].first, evs[0].second);
        lemma_attempt_preserves_geometry(s, evs[0].first, evs[0].second);
        lemma_attempt_preserves_geometry(a.0, evs[0].second, evs[0].first);
        let b = spec_attempt(a.0, evs[0].second, evs[0].first);
        lemma_resolve_preserves_geometry(b.0, evs.drop_first());
    }
}

/// A new knockback impulse on the target of one hit: aimed from the
/// projectile's position toward the target's, at the layer's fixed
/// impulse speed, replacing any impulse already on the target. A stale
/// id on either side skips the application.
pub open spec fn spec_apply_impulse(s: Seq<UnitV>, pid: u64, tid: u64, speed: int, dur: int) -> Seq<
    UnitV,
> {
    let pi = spec_find(s, pid);
    let ti = spec_find(s, tid);
    if pi < 0 || ti < 0 {
        s
    } else {
        let imp = spec_aimed(s[pi].pos, s[ti].pos, speed);
        s.update(
            ti,
            UnitV {
                knockback: Some(
                    Knockback { initial: imp, duration_ms: dur as u32, remaining_ms: dur as u32 },
                ),
                ..s[ti]
            },
        )
    }
}

/// The knockback layer's first half: every hit of this tick applies an
/// impulse to its target, in event order, strictly after the resolver
/// and the health pipeline have run.
pub open spec fn spec_impulse_stage(
    s: Seq<UnitV>,
    evs: Seq<CombatEvent>,
    speed: int,
    dur: int,
) -> Seq<UnitV>
    decreases evs.len(),
{
    if evs.len() == 0 {
        s
    } else {
        let s1 = match evs[0] {
            CombatEvent::Hit(h) => spec_apply_impulse(s, h.projectile, h.target, speed, dur),
            _ => s,
        };
        spec_impulse_stage(s1, evs.drop_first(), speed, dur)
    }
}

fn impulse_stage(units: &mut Vec<Unit>, evs: &Vec<CombatEvent>, speed: u32, dur: u32)
    requires
        spec_units_wf(old(units)@),
        spec_positions_ok(spec_world_view(old(units)@)),
        0 < dur,
        speed <= SPEED_LIMIT,
    ensures
        spec_units_wf(final(units)@),
        final(units)@.len() == old(units)@.len(),
        spec_world_view(final(units)@) == spec_impulse_stage(
            spec_world_view(old(units)@),
            evs@,
            speed as int,
            dur as int,
        ),
        spec_positions_ok(spec_world_view(final(units)@)),
{
    let ghost v0 = spec_world_view(units@);
    let ghost full = spec_impulse_stage(v0, evs@, speed as int, dur as int);
    let n = evs.len();
    let mut k: usize = 0;
    proof {
        assert(evs@.skip(0) =~= evs@);
    }
    while k < n
        invariant
            n == evs@.len(),
            k <= n,
            spec_units_wf(units@),
            units@.len() == old(units)@.len(),
            0 < dur,
            speed <= SPEED_LIMIT,
            spec_positions_ok(spec_world_view(units@)),
            full == spec_impulse_stage(v0, evs@, speed as int, dur as int),
            spec_impulse_stage(spec_world_view(units@), evs@.skip(k as int), speed as int, dur as int)
                == full,
        decreases n - k,
    {
        let ghost vk = spec_world_view(units@);
        let ghost tail = evs@.skip(k as int);
        proof {
            assert(tail[0] == evs@[k as int]);
            assert(tail.drop_first() =~= evs@.skip(k as int + 1));
        }
        match &evs[k] {
            CombatEvent::Hit(h) => {
                let pid = h.projectile;
                let tid = h.target;
                let pi = match find_index(units, pid) {
                    Some(i) => i,
                    None => {
                        k = k + 1;
                        continue ;
                    },
                };
                let ti = match find_index(units, tid) {
                    Some(i) => i,
                    None => {
                        k = k + 1;
                        continue ;
                    },
                };
                proof {
                    assert(vk[pi as int] == units@[pi as int].view());
                    assert(vk[ti as int] == units@[ti as int].view());
                }
                let ppos = units[pi].pos;
                let tpos = units[ti].pos;
                let imp = aimed_velocity(ppos, tpos, speed);
                let kb = Knockback::new(imp, dur);
                let tu = &mut units[ti];
                tu.knockback = Some(kb);
                proof {
                    assert(spec_world_view(units@) =~= spec_apply_impulse(
                        vk,
                        pid,
                        tid,
                        speed as int,
                        dur as int,
                    ));
                }
            },
            _ => {},
        }
        k = k + 1;
    }
    proof {
        assert(spec_impulse_stage(
            spec_world_view(units@),
            evs@.skip(n as int),
            speed as int,
            dur as int,
        ) == spec_world_view(units@));
        assert(evs@.skip(n as int) =~= Seq::<CombatEvent>::empty());
    }
}

/// One unit after the knockback layer's second half: the impulse decays
/// by `dt`, the unit is displaced by the decayed impulse velocity, and a
/// fully decayed impulse is removed.
pub open spec fn spec_knock_unit(u: UnitV, dt: int) -> UnitV {
    match u.knockback {
        Some(kb) => {
            let rem = if kb.remaining_ms >= dt {
                kb.remaining_ms - dt
            } else {
                0
            };
            let k1 = Knockback { remaining_ms: rem as u32, ..kb };
            let v = k1.spec_velocity();
            UnitV {
                pos: Vec2I {
                    x: (u.pos.x + spec_step(v.x as int, dt)) as i64,
                    y: (u.pos.y + spec_step(v.y as int, dt)) as i64,
                },
                knockback: if rem == 0 {
                    None
                } else {
                    Some(k1)
                },
                ..u
            }
        },
        None => u,
    }
}

/// The knockback layer's second half over the whole registry.
pub open spec fn spec_knock_stage(s: Seq<UnitV>, dt: int) -> Seq<UnitV> {
    s.map_values(|u: UnitV| spec_knock_unit(u, dt))
}

fn knock_stage(units: &mut Vec<Unit>, dt_ms: u32)
    requires
        spec_units_wf(old(units)@),
        spec_positions_ok(spec_world_view(old(units)@)),
        dt_ms <= DT_LIMIT,
    ensures
        spec_units_wf(final(units)@),
        final(units)@.len() == old(units)@.len(),
        spec_world_view(final(units)@) == spec_knock_stage(
            spec_world_view(old(units)@),
            dt_ms as int,
        ),
{
    let ghost v0 = spec_world_view(units@);
    let n = units.len();
    let mut i: usize = 0;
    while i < n
        invariant
            n == units@.len(),
            n == old(units)@.len(),
            i <= n,
            dt_ms <= DT_LIMIT,
            spec_units_wf(units@),
            v0 == spec_world_view(old(units)@),
            spec_positions_ok(v0),
            forall|j: int| i <= j < n ==> units@[j] == old(units)@[j],
            forall|j: int|
                0 <= j < i ==> (#[trigger] units@[j]).view() == spec_knock_unit(
                    v0[j],
                    dt_ms as int,
                ),
        decreases n - i,
    {
        proof {
            assert(units@[i as int] == old(units)@[i as int]);
            assert(v0[i as int] == units@[i as int].view());
            assert(units@[i as int].wf());
        }
        let has_kb = units[i].knockback.is_some();
        if has_kb {
            let u = &mut units[i];
            let mut kb: Knockback = match u.knockback {
                Some(kb) => kb,
                None => {
                    // Unreachable: the component was checked present above.
                    proof {
                        assert(false);
                    }
                    Knockback {
                        initial: Vec2I { x: 0, y: 0 },
                        duration_ms: 1,
                        remaining_ms: 0,
                    }
                },
            };
            let expired = kb.step(dt_ms);
            let v = kb.velocity();
            u.pos = advance(u.pos, v, dt_ms);
            if expired {
                u.knockback = None;
            } else {
                u.knockback = Some(kb);
            }
        }
        i = i + 1;
    }
    proof {
        assert(spec_world_view(units@) =~= spec_knock_stage(v0, dt_ms as int));
    }
}

/// The registry after the end-of-tick sweep: every unit scheduled for
/// removal is gone; the others keep their order. Entities removed during
/// a tick are not visible to the next tick's systems.
pub open spec fn spec_sweep(s: Seq<UnitV>) -> Seq<UnitV>
    decreases s.len(),
{
    if s.len() == 0 {
        s
    } else {
        let rest = spec_sweep(s.drop_first());
        if s[0].despawn {
            rest
        } else {
            seq![s[0]] + rest
        }
    }
}

/// The sweep keeps exactly the units not scheduled for removal, in
/// order: afterwards nothing despawned remains — in particular, a spent
/// projectile marked dead during resolution is gone within the same
/// tick.
pub proof fn lemma_sweep_removes_despawned(s: Seq<UnitV>)
    ensures
        forall|k: int| 0 <= k < spec_sweep(s).len() ==> !(#[trigger] spec_sweep(s)[k]).despawn,
        forall|j: int|
            0 <= j < s.len() && !(#[trigger] s[j]).despawn ==> spec_sweep(s).contains(s[j]),
    decreases s.len(),
{
    if s.len() == 0 {
    } else {
        lemma_sweep_removes_despawned(s.drop_first());
        let rest = spec_sweep(s.drop_first());
        let all = spec_sweep(s);
        if s[0].despawn {
            assert forall|j: int|
                0 <= j < s.len() && !(#[trigger] s[j]).despawn implies all.contains(s[j]) by {
                assert(s.drop_first()[j - 1] == s[j]);
                assert(rest.contains(s[j]));
            }
        } else {
            assert(all[0] == s[0]);
            assert forall|k: int| 0 <= k < all.len() implies !(#[trigger] all[k]).despawn by {
                if k > 0 {
                    assert(all[k] == rest[k - 1]);
                }
            }
            assert forall|j: int|
                0 <= j < s.len() && !(#[trigger] s[j]).despawn implies all.contains(s[j]) by {
                if j == 0 {
                    assert(all.contains(s[0]));
                } else {
                    assert(s.drop_first()[j - 1] == s[j]);
                    assert(rest.contains(s[j]));
                    let k = choose|k: int| 0 <= k < rest.len() && rest[k] == s[j];
                    assert(all[k + 1] == s[j]);
                    assert(all.contains(s[j]));
                }
            }
        }
    }
}

fn sweep_stage(units: &mut Vec<Unit>)
    requires
        spec_units_wf(old(units)@),
    ensures
        spec_units_wf(final(units)@),
        spec_world_view(final(units)@) == spec_sweep(spec_world_view(old(units)@)),
{
    let ghost v0 = spec_world_view(units@);
    let mut kept: Vec<Unit> = Vec::new();
    proof {
        assert(spec_world_view(kept@) + spec_sweep(v0) =~= spec_sweep(v0));
        assert(spec_world_view(kept@) =~= Seq::<UnitV>::empty());
    }
    while units.len() > 0
        invariant
            spec_units_wf(units@),
            spec_units_wf(kept@),
            spec_world_view(kept@) + spec_sweep(spec_world_view(units@)) == spec_sweep(v0),
        decreases units@.len(),
    {
        let ghost vb = spec_world_view(units@);
        let u = units.remove(0);
        proof {
            assert(vb[0] == u.view());
            assert(spec_world_view(units@) =~= vb.drop_first());
        }
        if !u.despawn {
            kept.push(u);
        }
        proof {
            assert(spec_world_view(kept@) + spec_sweep(spec_world_view(units@)) =~= spec_sweep(
                v0,
            ));
        }
    }
    proof {
        assert(spec_world_view(units@) =~= Seq::<UnitV>::empty());
        assert(spec_sweep(spec_world_view(units@)) =~= Seq::<UnitV>::empty());
    }
    *units = kept;
    proof {
        assert(spec_world_view(units@) =~= spec_sweep(v0));
    }
}

/// The explicit context a tick runs under: the elapsed time handed in by
/// the external tick driver, and the knockback layer's fixed parameters.
#[derive(Clone, Copy, PartialEq, Eq, Structural, Debug)]
pub struct TickContext {
    /// Elapsed simulation time this tick, in milliseconds.
    pub dt_ms: u32,
    /// Impulse speed applied to a hit target, in units per second.
    pub knockback_speed: u32,
    /// How long each impulse takes to decay, in milliseconds.
    pub knockback_duration_ms: u32,
}

/// One whole combat tick over the registry, as a mathematical value:
/// motion, then fire-status damage, then collision detection, then
/// projectile resolution in discovery order, then the knockback layer
/// (which observes this tick's hits), then the despawn sweep. The
/// events come out in emission order.
pub open spec fn spec_combat_tick(v: Seq<UnitV>, ctx: TickContext) -> (Seq<UnitV>, Seq<
    CombatEvent,
>) {
    let dt = ctx.dt_ms as int;
    let moved = spec_motion_stage(v, dt);
    let burn = spec_burning_stage(moved, dt);
    let overlaps = spec_overlaps(spec_bodies(burn.0));
    let res = spec_resolve_events(burn.0, overlaps);
    let imp = spec_impulse_stage(
        res.0,
        res.1,
        ctx.knockback_speed as int,
        ctx.knockback_duration_ms as int,
    );
    let knocked = spec_knock_stage(imp, dt);
    (spec_sweep(knocked), burn.1 + res.1)
}

/// Run one whole combat tick, exactly as `spec_combat_tick` says.
pub fn combat_tick(units: &mut Vec<Unit>, ctx: TickContext) -> (out: Vec<CombatEvent>)
    requires
        spec_units_wf(old(units)@),
        spec_tick_pre(spec_world_view(old(units)@), ctx.dt_ms as int),
        ctx.dt_ms <= DT_LIMIT,
        0 < ctx.knockback_duration_ms,
        ctx.knockback_speed <= SPEED_LIMIT,
    ensures
        spec_units_wf(final(units)@),
        spec_world_view(final(units)@) == spec_combat_tick(spec_world_view(old(units)@), ctx).0,
        out@ == spec_combat_tick(spec_world_view(old(units)@), ctx).1,
{
    let ghost v0 = spec_world_view(units@);
    let mut out: Vec<CombatEvent> = Vec::new();
    motion_stage(units, ctx.dt_ms);
    let ghost vm = spec_world_view(units@);
    burning_stage(units, ctx.dt_ms, &mut out);
    let ghost vb = spec_world_view(units@);
    proof {
        lemma_burning_pointwise(vm, ctx.dt_ms as int);
        assert(spec_positions_ok(vb)) by {
            assert forall|k: int|
                0 <= k < vb.len() implies (#[trigger] vb[k]).pos.in_bounds() && match vb[k].collider {
                Some(c) => -COORD_LIMIT <= vb[k].pos.x + c.offset.x <= COORD_LIMIT && -COORD_LIMIT
                    <= vb[k].pos.y + c.offset.y <= COORD_LIMIT,
                None => true,
            } by {
                assert(vb[k] == spec_burn_unit(vm[k], ctx.dt_ms as int).0);
                assert(vb[k].pos == vm[k].pos && vb[k].collider == vm[k].collider);
            }
        }
    }
    let bodies = collect_bodies(units);
    let overlaps = detect_overlaps(&bodies);
    let mut rev = resolve_overlaps(units, &overlaps);
    let ghost vr = spec_world_view(units@);
    proof {
        lemma_resolve_preserves_geometry(vb, overlaps@);
        assert(spec_positions_ok(vr)) by {
            assert forall|k: int|
                0 <= k < vr.len() implies (#[trigger] vr[k]).pos.in_bounds() && match vr[k].collider {
                Some(c) => -COORD_LIMIT <= vr[k].pos.x + c.offset.x <= COORD_LIMIT && -COORD_LIMIT
                    <= vr[k].pos.y + c.offset.y <= COORD_LIMIT,
                None => true,
            } by {
                assert(vr[k].pos == vb[k].pos && vr[k].collider == vb[k].collider);
            }
        }
    }
    impulse_stage(units, &rev, ctx.knockback_speed, ctx.knockback_duration_ms);
    knock_stage(units, ctx.dt_ms);
    sweep_stage(units);
    out.append(&mut rev);
    out
}

/// Everything needed to spawn one projectile entity: produced by the
/// firing logic, turned into a registry unit by the spawner.
#[derive(Debug)]
pub struct ProjectileSpawn {
    pub origin: Vec2I,
    pub velocity: Vec2I,
    pub dmg: u32,
    pub damage_target: crate::projectile::DamageTarget,
    pub piercing_mode: crate::projectile::PiercingMode,
    pub collider_radius: u32,
}

impl ProjectileSpawn {
    /// The registry unit this spawn request describes: a fresh, live
    /// projectile with a circle collider at its own position, no health
    /// and no team.
    pub fn into_unit(self, id: u64) -> (r: Unit)
        requires
            0 < self.collider_radius <= crate::RADIUS_LIMIT,
        ensures
            r.id == id,
            r.pos == self.origin,
            r.vel == self.velocity,
            r.collider == Some(
                Collider {
                    shape: crate::collider::Shape::Circle { radius: self.collider_radius },
                    offset: Vec2I { x: 0, y: 0 },
                },
            ),
            r.health is None,
            r.team is None,
            r.projectile matches Some(p) && p.dmg == self.dmg && p.damage_target
                == self.damage_target && p.piercing_mode == self.piercing_mode && p.entities_hit@
                == Seq::<u64>::empty() && p.is_alive,
            r.knockback is None,
            r.burning is None,
            r.reward == 0,
            !r.despawn,
            r.wf(),
    {
        let proj = Projectile::new(self.dmg, self.damage_target, self.piercing_mode);
        Unit {
            id,
            pos: self.origin,
            vel: self.velocity,
            collider: Some(
                crate::collider::Collider::new_circle(self.collider_radius, Vec2I { x: 0, y: 0 }),
            ),
            health: None,
            team: None,
            projectile: Some(proj),
            knockback: None,
            burning: None,
            reward: 0,
            despawn: false,
        }
    }
}

} // verus!
