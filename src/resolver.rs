use vstd::prelude::*;

use crate::model::{ArrowMeta, CreateArrow, Marker, Point};

verus! {

/// Squared Euclidean distance between two points.
pub open spec fn dist2(p: Point, q: Point) -> int {
    (p.x - q.x) * (p.x - q.x) + (p.y - q.y) * (p.y - q.y)
}

/// Marker `i` is a projected anchor of node `id`.
pub open spec fn is_candidate(markers: Seq<Marker>, id: u64, i: int) -> bool {
    0 <= i < markers.len() && markers[i].anchor.id == id && markers[i].pos.is_some()
}

/// Node `id` has at least one projected anchor.
pub open spec fn has_candidate(markers: Seq<Marker>, id: u64) -> bool {
    exists|i: int| is_candidate(markers, id, i)
}

/// The distance between the projected positions of markers `i` and `j`.
pub open spec fn pair_dist(markers: Seq<Marker>, i: int, j: int) -> int {
    dist2(markers[i].pos.unwrap(), markers[j].pos.unwrap())
}

/// `(i, j)` is a candidate pair for an arrow from node `s` to node `e`, and no
/// other candidate pair is strictly closer.
pub open spec fn is_min_pair(markers: Seq<Marker>, s: u64, e: u64, i: int, j: int) -> bool {
    &&& is_candidate(markers, s, i)
    &&& is_candidate(markers, e, j)
    &&& forall|i2: int, j2: int|
        is_candidate(markers, s, i2) && is_candidate(markers, e, j2) ==> pair_dist(markers, i, j)
            <= #[trigger] pair_dist(markers, i2, j2)
}

/// An arrow from node `s` to node `e` can be drawn: the nodes differ and both have
/// a projected anchor.
pub open spec fn resolvable(markers: Seq<Marker>, s: u64, e: u64) -> bool {
    s != e && has_candidate(markers, s) && has_candidate(markers, e)
}

fn sq_dist(p: Point, q: Point) -> (r: u128)
    ensures
        r == dist2(p, q),
{
    let dx: i128 = p.x as i128 - q.x as i128;
    let dy: i128 = p.y as i128 - q.y as i128;
    assert(dx * dx <= 0x1_0000_0000_0000_0000 && 0 <= dx * dx) by (nonlinear_arith)
        requires
            -0x1_0000_0000 <= dx <= 0x1_0000_0000,
    ;
    assert(dy * dy <= 0x1_0000_0000_0000_0000 && 0 <= dy * dy) by (nonlinear_arith)
        requires
            -0x1_0000_0000 <= dy <= 0x1_0000_0000,
    ;
    ((dx * dx) + (dy * dy)) as u128
}

/// Picks, for an arrow from node `start_id` to node `end_id`, the pair of projected
/// anchors (one on each node) that lie closest together. Returns the indices of the
/// two markers, start side first; among equally close pairs the first found wins.
pub fn resolve_anchor_pair(start_id: u64, end_id: u64, markers: &Vec<Marker>) -> (r: Option<
    (usize, usize),
>)
    ensures
        r.is_some() <==> resolvable(markers@, start_id, end_id),
        r matches Some((i, j)) ==> is_min_pair(markers@, start_id, end_id, i as int, j as int),
{
    if start_id == end_id {
        return None;
    }
    let mut best: Option<(usize, usize)> = None;
    let mut best_d: u128 = 0;
    let mut i: usize = 0;
    while i < markers.len()
        invariant
            0 <= i <= markers.len(),
            start_id != end_id,
            best matches Some((bi, bj)) ==> {
                &&& is_candidate(markers@, start_id, bi as int)
                &&& bi < i
                &&& is_candidate(markers@, end_id, bj as int)
                &&& best_d == pair_dist(markers@, bi as int, bj as int)
                &&& forall|i2: int, j2: int|
                    0 <= i2 < i && is_candidate(markers@, start_id, i2) && is_candidate(
                        markers@,
                        end_id,
                        j2,
                    ) ==> best_d <= #[trigger] pair_dist(markers@, i2, j2)
            },
            best.is_none() ==> forall|i2: int, j2: int|
                0 <= i2 < i && is_candidate(markers@, start_id, i2) ==> !is_candidate(
                    markers@,
                    end_id,
                    j2,
                ),
        decreases markers.len() - i,
    {
        let mi = markers[i];
        if mi.anchor.id == start_id && mi.pos.is_some() {
            let p = mi.pos.unwrap();
            let mut j: usize = 0;
            while j < markers.len()
                invariant
                    0 <= i < markers.len(),
                    0 <= j <= markers.len(),
                    mi == markers@[i as int],
                    is_candidate(markers@, start_id, i as int),
                    p == mi.pos.unwrap(),
                    start_id != end_id,
                    best matches Some((bi, bj)) ==> {
                        &&& is_candidate(markers@, start_id, bi as int)
                        &&& bi <= i
                        &&& is_candidate(markers@, end_id, bj as int)
                        &&& best_d == pair_dist(markers@, bi as int, bj as int)
                        &&& forall|i2: int, j2: int|
                            (0 <= i2 < i || (i2 == i && 0 <= j2 < j)) && is_candidate(
                                markers@,
                                start_id,
                                i2,
                            ) && is_candidate(markers@, end_id, j2) ==> best_d
                                <= #[trigger] pair_dist(markers@, i2, j2)
                    },
                    best.is_none() ==> forall|i2: int, j2: int|
                        (0 <= i2 < i || (i2 == i && 0 <= j2 < j)) && is_candidate(
                            markers@,
                            start_id,
                            i2,
                        ) ==> !is_candidate(markers@, end_id, j2),
                decreases markers.len() - j,
            {
                let mj = markers[j];
                if mj.anchor.id == end_id && mj.pos.is_some() {
                    let d = sq_dist(p, mj.pos.unwrap());
                    if best.is_none() || d < best_d {
                        best = Some((i, j));
                        best_d = d;
                    }
                }
                j += 1;
            }
        }
        i += 1;
    }
    proof {
        if best.is_none() {
            if has_candidate(markers@, start_id) && has_candidate(markers@, end_id) {
                let a = choose|a: int| is_candidate(markers@, start_id, a);
                let b = choose|b: int| is_candidate(markers@, end_id, b);
                assert(!is_candidate(markers@, end_id, b));
            }
        } else {
            let (bi, bj) = best.unwrap();
            assert(is_candidate(markers@, start_id, bi as int));
            assert(is_candidate(markers@, end_id, bj as int));
        }
    }
    best
}

} // verus!
