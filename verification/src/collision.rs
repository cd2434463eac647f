//! The collision detector: a broad test over all collidable entities that
//! reports every overlapping unordered pair exactly once, in a stable
//! discovery order, with no self-pairs.

use vstd::prelude::*;

use crate::collider::spec_overlap;
use crate::collider::Shape;
use crate::geom::Vec2I;

verus! {

/// One collidable entity as the detector sees it: its id, its collider's
/// world-space center, and its shape.
#[derive(Clone, Copy, PartialEq, Eq, Structural, Debug)]
pub struct Body {
    pub id: u64,
    pub center: Vec2I,
    pub shape: Shape,
}

impl Body {
    pub open spec fn wf(self) -> bool {
        self.center.in_bounds() && self.shape.wf()
    }
}

/// An overlap reported by the detector, carrying the two entity ids in
/// discovery order (the earlier entity first).
#[derive(Clone, Copy, PartialEq, Eq, Structural, Debug)]
pub struct OverlapEvent {
    pub first: u64,
    pub second: u64,
}

/// Whether the bodies at positions `i` and `j` overlap.
pub open spec fn spec_pair_hits(s: Seq<Body>, i: int, j: int) -> bool {
    spec_overlap(s[i].center, s[i].shape, s[j].center, s[j].shape)
}

/// The overlap events from pair position `(i, j)` onward, scanning pairs
/// in lexicographic position order.
pub open spec fn spec_overlaps_from(s: Seq<Body>, i: int, j: int) -> Seq<OverlapEvent>
    decreases s.len() - i, s.len() - j,
{
    if i < 0 || j <= i || s.len() < 0 {
        Seq::empty()
    } else if i >= s.len() {
        Seq::empty()
    } else if j >= s.len() {
        spec_overlaps_from(s, i + 1, i + 2)
    } else {
        let rest = spec_overlaps_from(s, i, j + 1);
        if spec_pair_hits(s, i, j) {
            seq![OverlapEvent { first: s[i].id, second: s[j].id }] + rest
        } else {
            rest
        }
    }
}

/// All overlap events of a tick, in discovery order.
pub open spec fn spec_overlaps(s: Seq<Body>) -> Seq<OverlapEvent> {
    spec_overlaps_from(s, 0, 1)
}

/// All ids in the body list are distinct.
pub open spec fn spec_distinct_ids(s: Seq<Body>) -> bool {
    forall|p: int, q: int| 0 <= p < q < s.len() ==> s[p].id != s[q].id
}

/// Report the set of unordered pairs of bodies whose shapes overlap this
/// tick: each overlapping pair exactly once, lower position first, no
/// self-pairs, in the order the quadratic scan discovers them.
pub fn detect_overlaps(bodies: &Vec<Body>) -> (r: Vec<OverlapEvent>)
    requires
        forall|k: int| 0 <= k < bodies@.len() ==> (#[trigger] bodies@[k]).wf(),
    ensures
        r@ == spec_overlaps(bodies@),
{
    let n = bodies.len();
    let mut out: Vec<OverlapEvent> = Vec::new();
    let mut i: usize = 0;
    while i < n
        invariant
            n == bodies@.len(),
            i <= n,
            forall|k: int| 0 <= k < bodies@.len() ==> (#[trigger] bodies@[k]).wf(),
            spec_overlaps(bodies@) == out@ + spec_overlaps_from(bodies@, i as int, i as int + 1),
        decreases n - i,
    {
        let mut j: usize = i + 1;
        while j < n
            invariant
                n == bodies@.len(),
                i < j <= n || (i < n && j == i + 1),
                i < n,
                forall|k: int| 0 <= k < bodies@.len() ==> (#[trigger] bodies@[k]).wf(),
                spec_overlaps(bodies@) == out@ + spec_overlaps_from(bodies@, i as int, j as int),
            decreases n - j,
        {
            let a = bodies[i];
            let b = bodies[j];
            if crate::collider::shapes_overlap(a.center, a.shape, b.center, b.shape) {
                out.push(OverlapEvent { first: a.id, second: b.id });
            }
            proof {
                assert(spec_overlaps_from(bodies@, i as int, j as int) == (if spec_pair_hits(
                    bodies@,
                    i as int,
                    j as int,
                ) {
                    seq![
                        OverlapEvent { first: bodies@[i as int].id, second: bodies@[j as int].id },
                    ] + spec_overlaps_from(bodies@, i as int, j as int + 1)
                } else {
                    spec_overlaps_from(bodies@, i as int, j as int + 1)
                }));
                assert(spec_overlaps(bodies@) == out@ + spec_overlaps_from(
                    bodies@,
                    i as int,
                    j as int + 1,
                ));
            }
            j = j + 1;
        }
        i = i + 1;
    }
    proof {
        assert(spec_overlaps_from(bodies@, i as int, i as int + 1) =~= Seq::<
            OverlapEvent,
        >::empty());
        assert(spec_overlaps(bodies@) =~= out@);
    }
    out
}

/// Whether pair position `(p, q)` lies at or after position `(i, j)` in
/// the scan order.
pub open spec fn spec_pair_at_or_after(i: int, j: int, p: int, q: int) -> bool {
    p > i || (p == i && q >= j)
}
/// Membership in the tail of the scan: an event appears in
/// `spec_overlaps_from(s, i, j)` exactly when some overlapping pair at or
/// after position `(i, j)` carries its ids.
proof fn lemma_from_characterize(s: Seq<Body>, i: int, j: int)
    requires
        0 <= i,
        i + 1 <= j,
    ensures
        forall|ev: OverlapEvent| #[trigger]
            spec_overlaps_from(s, i, j).contains(ev) ==> exists|p: int, q: int|
                {
                    &&& 0 <= p < q < s.len()
                    &&& spec_pair_at_or_after(i, j, p, q)
                    &&& #[trigger] spec_pair_hits(s, p, q)
                    &&& ev == (OverlapEvent { first: s[p].id, second: s[q].id })
                },
        forall|p: int, q: int|
            (0 <= p < q < s.len() && spec_pair_at_or_after(i, j, p, q) && #[trigger] spec_pair_hits(
                s,
                p,
                q,
            )) ==> spec_overlaps_from(s, i, j).contains(
                OverlapEvent { first: s[p].id, second: s[q].id },
            ),
    decreases s.len() - i, s.len() - j,
{
    if i >= s.len() {
        assert(spec_overlaps_from(s, i, j) == Seq::<OverlapEvent>::empty());
    } else if j >= s.len() {
        lemma_from_characterize(s, i + 1, i + 2);
        let all = spec_overlaps_from(s, i, j);
        let tail = spec_overlaps_from(s, i + 1, i + 2);
        assert(all == tail);
        assert forall|ev: OverlapEvent| #[trigger] all.contains(ev) implies exists|p: int, q: int|
            {
                &&& 0 <= p < q < s.len()
                &&& spec_pair_at_or_after(i, j, p, q)
                &&& #[trigger] spec_pair_hits(s, p, q)
                &&& ev == (OverlapEvent { first: s[p].id, second: s[q].id })
            } by {
            assert(tail.contains(ev));
            let (p, q): (int, int) = choose|p: int, q: int|
                {
                    &&& 0 <= p < q < s.len()
                    &&& spec_pair_at_or_after(i + 1, i + 2, p, q)
                    &&& #[trigger] spec_pair_hits(s, p, q)
                    &&& ev == (OverlapEvent { first: s[p].id, second: s[q].id })
                };
            assert(spec_pair_at_or_after(i, j, p, q));
        }
        assert forall|p: int, q: int|
            (0 <= p < q < s.len() && spec_pair_at_or_after(i, j, p, q) && #[trigger] spec_pair_hits(
                s,
                p,
                q,
            )) implies all.contains(OverlapEvent { first: s[p].id, second: s[q].id }) by {
            assert(spec_pair_at_or_after(i + 1, i + 2, p, q));
            assert(tail.contains(OverlapEvent { first: s[p].id, second: s[q].id }));
        }
    } else {
        lemma_from_characterize(s, i, j + 1);
        let all = spec_overlaps_from(s, i, j);
        let tail = spec_overlaps_from(s, i, j + 1);
        let head = OverlapEvent { first: s[i].id, second: s[j].id };
        if spec_pair_hits(s, i, j) {
            assert(all == seq![head] + tail);
            assert forall|ev: OverlapEvent| #[trigger] all.contains(ev) implies exists|
                p: int,
                q: int,
            |
                {
                    &&& 0 <= p < q < s.len()
                    &&& spec_pair_at_or_after(i, j, p, q)
                    &&& #[trigger] spec_pair_hits(s, p, q)
                    &&& ev == (OverlapEvent { first: s[p].id, second: s[q].id })
                } by {
                if ev == head {
                    assert(spec_pair_at_or_after(i, j, i, j));
                    assert(spec_pair_hits(s, i, j));
                } else {
                    let k = choose|k: int| 0 <= k < all.len() && all[k] == ev;
                    assert(all[0] == head);
                    assert(k != 0);
                    assert(tail[k - 1] == ev);
                    assert(tail.contains(ev));
                    let (p, q): (int, int) = choose|p: int, q: int|
                        {
                            &&& 0 <= p < q < s.len()
                            &&& spec_pair_at_or_after(i, j + 1, p, q)
                            &&& #[trigger] spec_pair_hits(s, p, q)
                            &&& ev == (OverlapEvent { first: s[p].id, second: s[q].id })
                        };
                    assert(spec_pair_at_or_after(i, j, p, q));
                }
            }
            assert forall|p: int, q: int|
                (0 <= p < q < s.len() && spec_pair_at_or_after(i, j, p, q)
                    && #[trigger] spec_pair_hits(s, p, q)) implies all.contains(
                OverlapEvent { first: s[p].id, second: s[q].id },
            ) by {
                let ev = OverlapEvent { first: s[p].id, second: s[q].id };
                if p == i && q == j {
                    assert(all[0] == ev);
                    assert(all.contains(ev));
                } else {
                    assert(spec_pair_at_or_after(i, j + 1, p, q));
                    assert(tail.contains(ev));
                    let k = choose|k: int| 0 <= k < tail.len() && tail[k] == ev;
                    assert(all[k + 1] == ev);
                    assert(all.contains(ev));
                }
            }
        } else {
            assert(all == tail);
            assert forall|ev: OverlapEvent| #[trigger] all.contains(ev) implies exists|
                p: int,
                q: int,
            |
                {
                    &&& 0 <= p < q < s.len()
                    &&& spec_pair_at_or_after(i, j, p, q)
                    &&& #[trigger] spec_pair_hits(s, p, q)
                    &&& ev == (OverlapEvent { first: s[p].id, second: s[q].id })
                } by {
                assert(tail.contains(ev));
                let (p, q): (int, int) = choose|p: int, q: int|
                    {
                        &&& 0 <= p < q < s.len()
                        &&& spec_pair_at_or_after(i, j + 1, p, q)
                        &&& #[trigger] spec_pair_hits(s, p, q)
                        &&& ev == (OverlapEvent { first: s[p].id, second: s[q].id })
                    };
                assert(spec_pair_at_or_after(i, j, p, q));
            }
            assert forall|p: int, q: int|
                (0 <= p < q < s.len() && spec_pair_at_or_after(i, j, p, q)
                    && #[trigger] spec_pair_hits(s, p, q)) implies all.contains(
                OverlapEvent { first: s[p].id, second: s[q].id },
            ) by {
                assert(spec_pair_at_or_after(i, j + 1, p, q) || (p == i && q == j));
                assert(spec_pair_at_or_after(i, j + 1, p, q));
                assert(tail.contains(OverlapEvent { first: s[p].id, second: s[q].id }));
            }
        }
    }
}

/// Overlap correctness: with distinct entity ids, the detector reports
/// the pair of bodies `p` and `q` exactly when their shapes overlap —
/// for circles, exactly when the squared distance between their centers
/// is at most the squared sum of their radii, boundary inclusive.
pub proof fn lemma_overlaps_reported_iff(s: Seq<Body>, p: int, q: int)
    requires
        spec_distinct_ids(s),
        0 <= p < q < s.len(),
    ensures
        spec_overlaps(s).contains(OverlapEvent { first: s[p].id, second: s[q].id })
            <==> spec_pair_hits(s, p, q),
{
    lemma_from_characterize(s, 0, 1);
    let ev = OverlapEvent { first: s[p].id, second: s[q].id };
    if spec_overlaps(s).contains(ev) {
        let (p2, q2): (int, int) = choose|p2: int, q2: int|
            {
                &&& 0 <= p2 < q2 < s.len()
                &&& spec_pair_at_or_after(0, 1, p2, q2)
                &&& #[trigger] spec_pair_hits(s, p2, q2)
                &&& ev == (OverlapEvent { first: s[p2].id, second: s[q2].id })
            };
        assert(s[p2].id == s[p].id && s[q2].id == s[q].id);
        assert(p2 == p) by {
            if p2 < p {
                assert(s[p2].id != s[p].id);
            }
            if p < p2 {
                assert(s[p].id != s[p2].id);
            }
        }
        assert(q2 == q) by {
            if q2 < q {
                assert(s[q2].id != s[q].id);
            }
            if q < q2 {
                assert(s[q].id != s[q2].id);
            }
        }
    }
    if spec_pair_hits(s, p, q) {
        assert(spec_pair_at_or_after(0, 1, p, q));
    }
}

/// No pair is reported twice and no self-pair is reported: all reported
/// events are pairwise distinct, and each carries two different ids.
pub proof fn lemma_overlaps_no_duplicates(s: Seq<Body>, i: int, j: int)
    requires
        spec_distinct_ids(s),
        0 <= i,
        i + 1 <= j,
    ensures
        forall|k1: int, k2: int|
            0 <= k1 < k2 < spec_overlaps_from(s, i, j).len() ==> spec_overlaps_from(s, i, j)[k1]
                != spec_overlaps_from(s, i, j)[k2],
        forall|k: int|
            0 <= k < spec_overlaps_from(s, i, j).len() ==> (#[trigger] spec_overlaps_from(
                s,
                i,
                j,
            )[k]).first != spec_overlaps_from(s, i, j)[k].second,
    decreases s.len() - i, s.len() - j,
{
    if i >= s.len() {
    } else if j >= s.len() {
        lemma_overlaps_no_duplicates(s, i + 1, i + 2);
        let all = spec_overlaps_from(s, i, j);
        let tail = spec_overlaps_from(s, i + 1, i + 2);
        assert(all == tail);
        assert forall|k1: int, k2: int| 0 <= k1 < k2 < all.len() implies all[k1] != all[k2] by {
            assert(all[k1] == tail[k1] && all[k2] == tail[k2]);
        }
        assert forall|k: int| 0 <= k < all.len() implies (#[trigger] all[k]).first
            != all[k].second by {
            assert(all[k] == tail[k]);
        }
    } else {
        lemma_overlaps_no_duplicates(s, i, j + 1);
        lemma_from_characterize(s, i, j + 1);
        let all = spec_overlaps_from(s, i, j);
        let tail = spec_overlaps_from(s, i, j + 1);
        if spec_pair_hits(s, i, j) {
            let head = OverlapEvent { first: s[i].id, second: s[j].id };
            assert(!tail.contains(head)) by {
                if tail.contains(head) {
                    let (p, q): (int, int) = choose|p: int, q: int|
                        {
                            &&& 0 <= p < q < s.len()
                            &&& spec_pair_at_or_after(i, j + 1, p, q)
                            &&& #[trigger] spec_pair_hits(s, p, q)
                            &&& head == (OverlapEvent { first: s[p].id, second: s[q].id })
                        };
                    assert(p == i) by {
                        if p < i {
                            assert(s[p].id != s[i].id);
                        }
                        if i < p {
                            assert(s[i].id != s[p].id);
                        }
                    }
                    assert(q == j) by {
                        if q < j {
                            assert(s[q].id != s[j].id);
                        }
                        if j < q {
                            assert(s[j].id != s[q].id);
                        }
                    }
                    assert(!spec_pair_at_or_after(i, j + 1, i, j));
                }
            }
            assert(all[0] == head);
            assert forall|k1: int, k2: int| 0 <= k1 < k2 < all.len() implies all[k1] != all[k2] by {
                if k1 == 0 {
                    assert(tail[k2 - 1] == all[k2]);
                    assert(tail.contains(tail[k2 - 1]));
                } else {
                    assert(all[k1] == tail[k1 - 1] && all[k2] == tail[k2 - 1]);
                }
            }
            assert forall|k: int| 0 <= k < all.len() implies (#[trigger] all[k]).first
                != all[k].second by {
                if k == 0 {
                    assert(s[i].id != s[j].id);
                } else {
                    assert(all[k] == tail[k - 1]);
                }
            }
        } else {
            assert(all == tail);
            assert forall|k1: int, k2: int| 0 <= k1 < k2 < all.len() implies all[k1]
                != all[k2] by {
                assert(all[k1] == tail[k1] && all[k2] == tail[k2]);
            }
            assert forall|k: int| 0 <= k < all.len() implies (#[trigger] all[k]).first
                != all[k].second by {
                assert(all[k] == tail[k]);
            }
        }
    }
}

} // verus!
