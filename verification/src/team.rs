//! Team membership: the classification that decides which entities a
//! projectile may harm.

use vstd::prelude::*;

verus! {

/// Every combat-relevant entity belongs to exactly one team.
#[derive(Clone, Copy, PartialEq, Eq, Structural, Debug)]
pub enum Team {
    Player,
    Enemy,
}

/// The team component carried by a combat entity.
#[derive(Clone, Copy, PartialEq, Eq, Structural, Debug)]
pub struct TeamMember {
    pub team: Team,
}

} // verus!
