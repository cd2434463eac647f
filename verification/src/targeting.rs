//! The targeting engine: a pure selection function over a candidate set,
//! used by towers and ranged attackers.

use vstd::prelude::*;

verus! {

/// The selection policy used to pick an attack target.
#[derive(Clone, Copy, PartialEq, Eq, Structural, Debug)]
pub enum Targeting {
    /// The first candidate in input order.
    First,
    /// The candidate at minimum distance; ties go to input order.
    Closest,
    /// The candidate with minimum current health; ties go to input order.
    LowestHealth,
}

/// One selectable target as the engine sees it.
#[derive(Clone, Copy, PartialEq, Eq, Structural, Debug)]
pub struct Candidate {
    pub id: u64,
    /// Squared distance from the selector to this candidate.
    pub dist_sq: u64,
    /// The candidate's current health.
    pub health: u32,
}

/// Whether position `i` is the one a policy selects from `s`: for
/// `Closest` and `LowestHealth` the minimum of the key, with every tie
/// broken toward the earlier input position.
pub open spec fn spec_selected(mode: Targeting, s: Seq<Candidate>, i: int) -> bool {
    &&& 0 <= i < s.len()
    &&& match mode {
        Targeting::First => i == 0,
        Targeting::Closest => {
            &&& forall|j: int| 0 <= j < s.len() ==> s[i].dist_sq <= (#[trigger] s[j]).dist_sq
            &&& forall|j: int| 0 <= j < i ==> (#[trigger] s[j]).dist_sq > s[i].dist_sq
        },
        Targeting::LowestHealth => {
            &&& forall|j: int| 0 <= j < s.len() ==> s[i].health <= (#[trigger] s[j]).health
            &&& forall|j: int| 0 <= j < i ==> (#[trigger] s[j]).health > s[i].health
        },
    }
}

impl Targeting {
    /// Pick a target from `candidates`: the selected position, or nothing
    /// when the candidate set is empty (not an error). Identical inputs
    /// always select the identical position.
    pub fn find_best_target(self, candidates: &Vec<Candidate>) -> (r: Option<usize>)
        ensures
            r is Some <==> candidates@.len() > 0,
            match r {
                Some(i) => spec_selected(self, candidates@, i as int),
                None => true,
            },
    {
        if candidates.len() == 0 {
            return None;
        }
        match self {
            Targeting::First => Some(0),
            Targeting::Closest => {
                let mut best: usize = 0;
                let mut k: usize = 1;
                while k < candidates.len()
                    invariant
                        0 <= best < k <= candidates@.len(),
                        forall|j: int|
                            0 <= j < k ==> candidates@[best as int].dist_sq <= (#[trigger] candidates@[j]).dist_sq,
                        forall|j: int|
                            0 <= j < best ==> (#[trigger] candidates@[j]).dist_sq
                                > candidates@[best as int].dist_sq,
                    decreases candidates@.len() - k,
                {
                    if candidates[k].dist_sq < candidates[best].dist_sq {
                        best = k;
                    }
                    k = k + 1;
                }
                Some(best)
            },
            Targeting::LowestHealth => {
                let mut best: usize = 0;
                let mut k: usize = 1;
                while k < candidates.len()
                    invariant
                        0 <= best < k <= candidates@.len(),
                        forall|j: int|
                            0 <= j < k ==> candidates@[best as int].health <= (#[trigger] candidates@[j]).health,
                        forall|j: int|
                            0 <= j < best ==> (#[trigger] candidates@[j]).health
                                > candidates@[best as int].health,
                    decreases candidates@.len() - k,
                {
                    if candidates[k].health < candidates[best].health {
                        best = k;
                    }
                    k = k + 1;
                }
                Some(best)
            },
        }
    }
}

/// Targeting determinism: a policy selects at most one position, so two
/// selections from the same candidate sequence agree.
pub proof fn lemma_selection_unique(mode: Targeting, s: Seq<Candidate>, i1: int, i2: int)
    requires
        spec_selected(mode, s, i1),
        spec_selected(mode, s, i2),
    ensures
        i1 == i2,
{
    match mode {
        Targeting::First => {},
        Targeting::Closest => {
            if i1 < i2 {
                assert(s[i1].dist_sq > s[i2].dist_sq);
                assert(s[i2].dist_sq >= s[i1].dist_sq);
            }
            if i2 < i1 {
                assert(s[i2].dist_sq > s[i1].dist_sq);
                assert(s[i1].dist_sq >= s[i2].dist_sq);
            }
        },
        Targeting::LowestHealth => {
            if i1 < i2 {
                assert(s[i1].health > s[i2].health);
                assert(s[i2].health >= s[i1].health);
            }
            if i2 < i1 {
                assert(s[i2].health > s[i1].health);
                assert(s[i1].health >= s[i2].health);
            }
        },
    }
}

} // verus!
