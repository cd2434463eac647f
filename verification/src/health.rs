//! Health bookkeeping: clamped damage application with a floor at zero
//! and a death flag that is raised exactly once.

use vstd::prelude::*;

verus! {

/// Hit points of a damageable entity.
#[derive(Clone, Copy, PartialEq, Eq, Structural, Debug)]
pub struct Health {
    pub current: u32,
    pub max: u32,
    /// Raised the first time `current` reaches zero, so that a death is
    /// reported exactly once.
    pub death_signaled: bool,
}

/// What one damage application asks the caller to report.
#[derive(Clone, Copy, PartialEq, Eq, Structural, Debug)]
pub struct DamageOutcome {
    /// A took-damage notification is owed.
    pub took_damage: bool,
    /// A death notification is owed; at most one application in an
    /// entity's lifetime reports this.
    pub died: bool,
}

/// Negative or malformed damage is clamped to zero: no healing through
/// this path.
pub open spec fn spec_clamped(amount: int) -> int {
    if amount < 0 {
        0
    } else {
        amount
    }
}

/// The hit points left after applying `amount`: reduced by the clamped
/// amount, with a floor at zero.
pub open spec fn spec_damage_current(cur: int, amount: int) -> int {
    if spec_clamped(amount) >= cur {
        0
    } else {
        cur - spec_clamped(amount)
    }
}

/// One damage application as a mathematical transition: the new health,
/// whether a took-damage notification is owed, and whether a death
/// notification is owed.
pub open spec fn spec_damage_step(h: Health, amount: int) -> (Health, bool, bool) {
    let cur = spec_damage_current(h.current as int, amount);
    let died = !h.death_signaled && h.current > 0 && cur == 0;
    (
        Health {
            current: cur as u32,
            max: h.max,
            death_signaled: h.death_signaled || died,
        },
        amount > 0,
        died,
    )
}

impl Health {
    /// `current` never exceeds `max`, and the death flag is only ever
    /// raised on an entity at zero health.
    pub open spec fn wf(self) -> bool {
        &&& self.current <= self.max
        &&& (self.death_signaled ==> self.current == 0)
    }

    /// A fresh entity starts at full health with no death signaled.
    pub fn new(max: u32) -> (r: Health)
        ensures
            r.wf(),
            r == (Health { current: max, max, death_signaled: false }),
    {
        Health { current: max, max, death_signaled: false }
    }

    /// Apply one damage event. Negative amounts are clamped to zero,
    /// `current` floors at zero, a took-damage notification is owed
    /// whenever the amount is positive, and a death notification is owed
    /// exactly on the application that first brings a live entity to
    /// zero health.
    pub fn apply_damage(&mut self, amount: i64) -> (r: DamageOutcome)
        requires
            old(self).wf(),
        ensures
            final(self).wf(),
            (*final(self), r.took_damage, r.died) == spec_damage_step(
                *old(self),
                amount as int,
            ),
    {
        let clamped: u32 = if amount < 0 {
            0
        } else if amount > self.current as i64 {
            // Anything at or above the current hit points floors at zero.
            self.current
        } else {
            amount as u32
        };
        let cur: u32 = self.current - clamped;
        let died: bool = !self.death_signaled && self.current > 0 && cur == 0;
        self.current = cur;
        self.death_signaled = self.death_signaled || died;
        DamageOutcome { took_damage: amount > 0, died }
    }
}

/// Running a whole sequence of damage applications: the final health and
/// how many of the applications reported a death.
pub open spec fn spec_run_damage(h: Health, amts: Seq<int>) -> (Health, int)
    decreases amts.len(),
{
    if amts.len() == 0 {
        (h, 0)
    } else {
        let step = spec_damage_step(h, amts[0]);
        let rest = spec_run_damage(step.0, amts.drop_first());
        (rest.0, rest.1 + if step.2 { 1int } else { 0int })
    }
}

/// Health floor and single death: over any sequence of damage
/// applications, hit points never rise, never drop below zero (they are
/// unsigned by construction), and at most one application reports a
/// death — exactly one when the entity starts alive and ends at zero.
pub proof fn lemma_damage_sequence(h: Health, amts: Seq<int>)
    requires
        h.wf(),
    ensures
        spec_run_damage(h, amts).0.wf(),
        spec_run_damage(h, amts).0.max == h.max,
        spec_run_damage(h, amts).0.current <= h.current,
        0 <= spec_run_damage(h, amts).1 <= 1,
        spec_run_damage(h, amts).1 == 1 <==> (!h.death_signaled && h.current > 0
            && spec_run_damage(h, amts).0.current == 0),
        spec_run_damage(h, amts).0.death_signaled == (h.death_signaled || spec_run_damage(
            h,
            amts,
        ).1 == 1),
    decreases amts.len(),
{
    if amts.len() == 0 {
    } else {
        let step = spec_damage_step(h, amts[0]);
        lemma_damage_sequence(step.0, amts.drop_first());
    }
}

} // verus!
