//! Projectiles: the damage-target filter, the piercing policy, and
//! at-most-once hit recording per target.

use vstd::prelude::*;

use crate::team::Team;

verus! {

/// How many distinct targets a projectile may damage before removal.
#[derive(Clone, Copy, PartialEq, Eq, Structural, Debug)]
pub enum PiercingMode {
    /// No piercing: exactly one target, then the projectile is removed.
    NoPierce,
    /// The projectile stays alive indefinitely, damaging every new target
    /// it touches at most once each.
    All,
    /// Alive until the given number of distinct hits has been recorded,
    /// then removed like `NoPierce`.
    Limited(u32),
}

/// Which entities a projectile may harm: one team, or an explicit set.
#[derive(Debug)]
pub enum DamageTarget {
    Team(Team),
    Entities(Vec<u64>),
}

/// A projectile's combat component.
#[derive(Debug)]
pub struct Projectile {
    pub dmg: u32,
    pub damage_target: DamageTarget,
    pub piercing_mode: PiercingMode,
    /// Every entity this projectile has damaged; an id appears at most
    /// once.
    pub entities_hit: Vec<u64>,
    /// Cleared when the piercing policy removes the projectile; a dead
    /// projectile emits no further hits and is scheduled for despawn.
    pub is_alive: bool,
}

/// The hit budget of a piercing mode: `Limited(0)` is an invalid
/// configuration and is treated as `NoPierce`, the most conservative
/// policy.
pub open spec fn spec_hit_cap(m: PiercingMode) -> Option<int> {
    match m {
        PiercingMode::NoPierce => Some(1int),
        PiercingMode::All => None,
        PiercingMode::Limited(n) => Some(
            if n == 0 {
                1int
            } else {
                n as int
            },
        ),
    }
}

/// Whether the damage-target filter lets a projectile harm the entity
/// `id` on team `team`.
pub open spec fn spec_filter_allows(t: DamageTarget, team: Team, id: u64) -> bool {
    match t {
        DamageTarget::Team(allowed) => allowed == team,
        DamageTarget::Entities(list) => list@.contains(id),
    }
}

/// The mutable part of a projectile as a mathematical value: the hit
/// record and the alive flag.
pub struct ProjState {
    pub hit: Seq<u64>,
    pub alive: bool,
}

/// Whether a projectile in state `st` with filter `t` damages the entity
/// `id` on team `team` when they overlap: it must be alive, the filter
/// must allow the target, and the target must not already be recorded.
pub open spec fn spec_can_hit(t: DamageTarget, st: ProjState, team: Team, id: u64) -> bool {
    &&& st.alive
    &&& spec_filter_allows(t, team, id)
    &&& !st.hit.contains(id)
}

/// The state after recording a hit on `id`: the id is appended and the
/// piercing policy decides whether the projectile stays alive.
pub open spec fn spec_after_hit(mode: PiercingMode, st: ProjState, id: u64) -> ProjState {
    let hit = st.hit.push(id);
    let alive = match spec_hit_cap(mode) {
        Some(cap) => hit.len() < cap,
        None => true,
    };
    ProjState { hit, alive }
}

/// A whole projectile as a mathematical value: its fixed configuration
/// and its mutable state.
pub struct ProjectileV {
    pub dmg: u32,
    pub damage_target: DamageTarget,
    pub piercing_mode: PiercingMode,
    pub st: ProjState,
}

impl Projectile {
    /// The state this projectile is in.
    pub open spec fn state(self) -> ProjState {
        ProjState { hit: self.entities_hit@, alive: self.is_alive }
    }

    /// This projectile as a mathematical value.
    pub open spec fn model(self) -> ProjectileV {
        ProjectileV {
            dmg: self.dmg,
            damage_target: self.damage_target,
            piercing_mode: self.piercing_mode,
            st: self.state(),
        }
    }

    /// No target is recorded twice, and the hit record respects the
    /// piercing policy's budget: a live projectile still has budget left.
    pub open spec fn wf(self) -> bool {
        &&& self.entities_hit@.no_duplicates()
        &&& match spec_hit_cap(self.piercing_mode) {
            Some(cap) => self.entities_hit@.len() <= cap && (self.is_alive
                ==> self.entities_hit@.len() < cap),
            None => true,
        }
    }

    /// A fresh projectile: no hits recorded, alive.
    pub fn new(dmg: u32, damage_target: DamageTarget, piercing_mode: PiercingMode) -> (r:
        Projectile)
        ensures
            r.wf(),
            r.dmg == dmg,
            r.damage_target == damage_target,
            r.piercing_mode == piercing_mode,
            r.entities_hit@ == Seq::<u64>::empty(),
            r.is_alive,
    {
        let r = Projectile {
            dmg,
            damage_target,
            piercing_mode,
            entities_hit: Vec::new(),
            is_alive: true,
        };
        proof {
            assert(r.entities_hit@ =~= Seq::<u64>::empty());
        }
        r
    }

    /// Whether the damage-target filter allows this target.
    pub fn filter_allows(&self, team: Team, id: u64) -> (r: bool)
        ensures
            r == spec_filter_allows(self.damage_target, team, id),
    {
        match &self.damage_target {
            DamageTarget::Team(allowed) => *allowed == team,
            DamageTarget::Entities(list) => {
                let mut k: usize = 0;
                while k < list.len()
                    invariant
                        self.damage_target is Entities,
                        self.damage_target->Entities_0 == *list,
                        k <= list@.len(),
                        forall|i: int| 0 <= i < k ==> list@[i] != id,
                    decreases list@.len() - k,
                {
                    if list[k] == id {
                        proof {
                            assert(list@[k as int] == id);
                            assert(list@.contains(id));
                        }
                        return true;
                    }
                    k = k + 1;
                }
                false
            },
        }
    }

    /// Resolve one overlap of this projectile with a damageable entity.
    /// Returns whether the target takes damage this tick; when it does,
    /// the hit is recorded and the piercing policy is applied.
    pub fn resolve_hit(&mut self, target_team: Team, target_id: u64) -> (r: bool)
        requires
            old(self).wf(),
        ensures
            final(self).wf(),
            r == spec_can_hit(old(self).damage_target, old(self).state(), target_team, target_id),
            r ==> final(self).state() == spec_after_hit(
                old(self).piercing_mode,
                old(self).state(),
                target_id,
            ),
            !r ==> *final(self) == *old(self),
            final(self).dmg == old(self).dmg,
            final(self).damage_target == old(self).damage_target,
            final(self).piercing_mode == old(self).piercing_mode,
    {
        if !self.is_alive {
            return false;
        }
        let allowed = self.filter_allows(target_team, target_id);
        if !allowed {
            return false;
        }
        let mut k: usize = 0;
        while k < self.entities_hit.len()
            invariant
                *self == *old(self),
                old(self).wf(),
                k <= self.entities_hit@.len(),
                forall|i: int| 0 <= i < k ==> self.entities_hit@[i] != target_id,
            decreases self.entities_hit@.len() - k,
        {
            if self.entities_hit[k] == target_id {
                proof {
                    assert(self.entities_hit@[k as int] == target_id);
                }
                return false;
            }
            k = k + 1;
        }
        proof {
            assert(!self.entities_hit@.contains(target_id));
        }
        let ghost pre = self.entities_hit@;
        self.entities_hit.push(target_id);
        proof {
            assert(self.entities_hit@ == pre.push(target_id));
            assert forall|i: int, j: int|
                0 <= i < self.entities_hit@.len() && 0 <= j < self.entities_hit@.len() && i
                    != j implies self.entities_hit@[i] != self.entities_hit@[j] by {
                if i < pre.len() && j < pre.len() {
                } else if j == pre.len() {
                    assert(self.entities_hit@[j] == target_id);
                    assert(self.entities_hit@[i] == pre[i]);
                    assert(!pre.contains(target_id));
                } else {
                    assert(self.entities_hit@[i] == target_id);
                    assert(self.entities_hit@[j] == pre[j]);
                    assert(!pre.contains(target_id));
                }
            }
            assert(self.entities_hit@.no_duplicates());
        }
        let alive = match self.piercing_mode {
            PiercingMode::NoPierce => false,
            PiercingMode::All => true,
            PiercingMode::Limited(n) => {
                let cap: u32 = if n == 0 {
                    1
                } else {
                    n
                };
                self.entities_hit.len() < cap as usize
            },
        };
        self.is_alive = alive;
        true
    }
}

/// Run a whole sequence of overlap attempts against one projectile: the
/// final state and the ids damaged, in order.
pub open spec fn spec_run_hits(
    t: DamageTarget,
    mode: PiercingMode,
    st: ProjState,
    atts: Seq<(Team, u64)>,
) -> (ProjState, Seq<u64>)
    decreases atts.len(),
{
    if atts.len() == 0 {
        (st, Seq::empty())
    } else {
        let team = atts[0].0;
        let id = atts[0].1;
        if spec_can_hit(t, st, team, id) {
            let st1 = spec_after_hit(mode, st, id);
            let rest = spec_run_hits(t, mode, st1, atts.drop_first());
            (rest.0, seq![id] + rest.1)
        } else {
            spec_run_hits(t, mode, st, atts.drop_first())
        }
    }
}

/// A dead projectile ignores every overlap: no target is damaged and the
/// state does not change.
pub proof fn lemma_dead_projectile_inert(
    t: DamageTarget,
    mode: PiercingMode,
    st: ProjState,
    atts: Seq<(Team, u64)>,
)
    requires
        !st.alive,
    ensures
        spec_run_hits(t, mode, st, atts) == (st, Seq::<u64>::empty()),
    decreases atts.len(),
{
    if atts.len() == 0 {
    } else {
        lemma_dead_projectile_inert(t, mode, st, atts.drop_first());
    }
}

/// A projectile never damages the same target twice across its lifetime:
/// over any sequence of overlaps, every hit is recorded, the record grows
/// by exactly the targets damaged, and it never holds an id twice.
pub proof fn lemma_no_double_damage(
    t: DamageTarget,
    mode: PiercingMode,
    st: ProjState,
    atts: Seq<(Team, u64)>,
)
    requires
        st.hit.no_duplicates(),
    ensures
        spec_run_hits(t, mode, st, atts).0.hit == st.hit + spec_run_hits(t, mode, st, atts).1,
        (st.hit + spec_run_hits(t, mode, st, atts).1).no_duplicates(),
    decreases atts.len(),
{
    let run = spec_run_hits(t, mode, st, atts);
    if atts.len() == 0 {
        assert(run.0.hit =~= st.hit + run.1);
    } else {
        let team = atts[0].0;
        let id = atts[0].1;
        if spec_can_hit(t, st, team, id) {
            let st1 = spec_after_hit(mode, st, id);
            assert(st1.hit.no_duplicates()) by {
                assert(st1.hit == st.hit.push(id));
                assert(!st.hit.contains(id));
            }
            lemma_no_double_damage(t, mode, st1, atts.drop_first());
            let rest = spec_run_hits(t, mode, st1, atts.drop_first());
            assert(run.0.hit == st1.hit + rest.1);
            assert(st1.hit + rest.1 =~= st.hit + (seq![id] + rest.1));
            assert(run.1 == seq![id] + rest.1);
        } else {
            lemma_no_double_damage(t, mode, st, atts.drop_first());
        }
    }
}

/// A non-piercing projectile damages exactly one target and is then
/// removed: starting fresh, at most one overlap in the sequence leads to
/// damage; one does exactly when some overlap passes the damage-target
/// filter, and the projectile is dead afterwards. When nothing passes,
/// the projectile is untouched.
pub proof fn lemma_piercing_none_single_hit(t: DamageTarget, st: ProjState, atts: Seq<(Team, u64)>)
    requires
        st.alive,
        st.hit == Seq::<u64>::empty(),
    ensures
        spec_run_hits(t, PiercingMode::NoPierce, st, atts).1.len() <= 1,
        spec_run_hits(t, PiercingMode::NoPierce, st, atts).1.len() == 1 <==> exists|k: int|
            0 <= k < atts.len() && spec_filter_allows(t, atts[k].0, (#[trigger] atts[k]).1),
        spec_run_hits(t, PiercingMode::NoPierce, st, atts).1.len() == 1 ==> !spec_run_hits(
            t,
            PiercingMode::NoPierce,
            st,
            atts,
        ).0.alive,
        spec_run_hits(t, PiercingMode::NoPierce, st, atts).1.len() == 0 ==> spec_run_hits(
            t,
            PiercingMode::NoPierce,
            st,
            atts,
        ).0 == st,
    decreases atts.len(),
{
    let mode = PiercingMode::NoPierce;
    let run = spec_run_hits(t, mode, st, atts);
    if atts.len() == 0 {
    } else {
        let team = atts[0].0;
        let id = atts[0].1;
        if spec_can_hit(t, st, team, id) {
            let st1 = spec_after_hit(mode, st, id);
            assert(st1.hit.len() == 1);
            assert(!st1.alive);
            lemma_dead_projectile_inert(t, mode, st1, atts.drop_first());
            assert(run.1 =~= seq![id]);
            assert(exists|k: int|
                0 <= k < atts.len() && spec_filter_allows(t, atts[k].0, (#[trigger] atts[k]).1))
                by {
                assert(spec_filter_allows(t, atts[0].0, atts[0].1));
            }
        } else {
            lemma_piercing_none_single_hit(t, st, atts.drop_first());
            assert(!spec_filter_allows(t, team, id));
            let rest = atts.drop_first();
            assert(run == spec_run_hits(t, mode, st, rest));
            if exists|k: int|
                0 <= k < atts.len() && spec_filter_allows(t, atts[k].0, (#[trigger] atts[k]).1) {
                let k = choose|k: int|
                    0 <= k < atts.len() && spec_filter_allows(t, atts[k].0, (#[trigger] atts[k]).1);
                assert(k != 0);
                assert(rest[k - 1] == atts[k]);
                assert(spec_filter_allows(t, rest[k - 1].0, rest[k - 1].1));
            }
            if exists|k: int|
                0 <= k < rest.len() && spec_filter_allows(t, rest[k].0, (#[trigger] rest[k]).1) {
                let k = choose|k: int|
                    0 <= k < rest.len() && spec_filter_allows(t, rest[k].0, (#[trigger] rest[k]).1);
                assert(atts[k + 1] == rest[k]);
                assert(spec_filter_allows(t, atts[k + 1].0, atts[k + 1].1));
            }
        }
    }
}

/// An all-piercing projectile stays alive indefinitely and damages every
/// allowed target it touches, each at most once: afterwards its record
/// holds every target of an overlap that passed the filter, still with
/// no id twice.
pub proof fn lemma_piercing_all_hits_every_target(
    t: DamageTarget,
    st: ProjState,
    atts: Seq<(Team, u64)>,
)
    requires
        st.alive,
        st.hit.no_duplicates(),
    ensures
        spec_run_hits(t, PiercingMode::All, st, atts).0.alive,
        spec_run_hits(t, PiercingMode::All, st, atts).0.hit.no_duplicates(),
        forall|k: int|
            0 <= k < atts.len() && spec_filter_allows(t, atts[k].0, (#[trigger] atts[k]).1)
                ==> spec_run_hits(t, PiercingMode::All, st, atts).0.hit.contains(atts[k].1),
    decreases atts.len(),
{
    let mode = PiercingMode::All;
    let run = spec_run_hits(t, mode, st, atts);
    lemma_no_double_damage(t, mode, st, atts);
    if atts.len() == 0 {
    } else {
        let team = atts[0].0;
        let id = atts[0].1;
        let rest = atts.drop_first();
        if spec_can_hit(t, st, team, id) {
            let st1 = spec_after_hit(mode, st, id);
            assert(st1.hit.no_duplicates()) by {
                assert(st1.hit == st.hit.push(id));
            }
            lemma_piercing_all_hits_every_target(t, st1, rest);
            lemma_no_double_damage(t, mode, st1, rest);
            let subrun = spec_run_hits(t, mode, st1, rest);
            assert(run.0 == subrun.0);
            assert forall|k: int|
                0 <= k < atts.len() && spec_filter_allows(t, atts[k].0, (#[trigger] atts[k]).1)
                implies run.0.hit.contains(atts[k].1) by {
                if k == 0 {
                    assert(subrun.0.hit == st1.hit + subrun.1);
                    assert(st1.hit[st.hit.len() as int] == id);
                    assert(st1.hit.contains(id));
                    assert(subrun.0.hit.contains(id)) by {
                        let w = choose|w: int| 0 <= w < st1.hit.len() && st1.hit[w] == id;
                        assert((st1.hit + subrun.1)[w] == id);
                    }
                } else {
                    assert(rest[k - 1] == atts[k]);
                    assert(spec_filter_allows(t, rest[k - 1].0, rest[k - 1].1));
                }
            }
        } else {
            lemma_piercing_all_hits_every_target(t, st, rest);
            assert forall|k: int|
                0 <= k < atts.len() && spec_filter_allows(t, atts[k].0, (#[trigger] atts[k]).1)
                implies run.0.hit.contains(atts[k].1) by {
                if k == 0 {
                    // The overlap was refused although the projectile is
                    // alive and the filter allows it, so the target is
                    // already in the record, and the record only grows.
                    assert(st.hit.contains(id));
                    assert(run.0.hit == st.hit + run.1);
                    let w = choose|w: int| 0 <= w < st.hit.len() && st.hit[w] == id;
                    assert((st.hit + run.1)[w] == id);
                } else {
                    assert(rest[k - 1] == atts[k]);
                    assert(spec_filter_allows(t, rest[k - 1].0, rest[k - 1].1));
                }
            }
        }
    }
}

} // verus!
