use vstd::prelude::*;

use crate::model::{ArrowConnect, ArrowMeta, ArrowType, CreateArrow, Marker};
use crate::resolver::{is_min_pair, resolvable, resolve_anchor_pair};

verus! {

/// An arrow to materialize: the markers it is drawn between (start side first) and
/// the identity it carries.
#[derive(Clone, Copy, Debug, PartialEq, Eq, Structural, Hash)]
pub struct ArrowBuild {
    pub start_marker: usize,
    pub end_marker: usize,
    pub meta: ArrowMeta,
}

/// The identities of the arrows that a sequence of requests yields: one for each
/// request whose two nodes can be resolved, in request order.
pub open spec fn built_metas(events: Seq<CreateArrow>, markers: Seq<Marker>) -> Seq<ArrowMeta>
    decreases events.len(),
{
    if events.len() == 0 {
        Seq::empty()
    } else {
        let e = events.last();
        let prev = built_metas(events.drop_last(), markers);
        if resolvable(markers, e.start.id, e.end.id) {
            prev.push(e.meta())
        } else {
            prev
        }
    }
}

/// Every arrow that requests yield joins two different nodes.
pub proof fn lemma_built_metas_distinct_ends(events: Seq<CreateArrow>, markers: Seq<Marker>)
    ensures
        forall|k: int|
            0 <= k < built_metas(events, markers).len() ==> #[trigger] built_metas(events, markers)[k].start.id
                != built_metas(events, markers)[k].end.id,
    decreases events.len(),
{
    if events.len() > 0 {
        lemma_built_metas_distinct_ends(events.drop_last(), markers);
    }
}

/// Turns arrow requests into arrows to draw. Each request whose two nodes both have a
/// projected anchor (and differ) yields one arrow, drawn between the closest pair of
/// anchors and tagged with the request's identity; the others are skipped.
pub fn create_arrow_end(events: &Vec<CreateArrow>, markers: &Vec<Marker>) -> (r: Vec<ArrowBuild>)
    ensures
        r@.map_values(|b: ArrowBuild| b.meta) == built_metas(events@, markers@),
        forall|k: int|
            0 <= k < r.len() ==> is_min_pair(
                markers@,
                #[trigger] r@[k].meta.start.id,
                r@[k].meta.end.id,
                r@[k].start_marker as int,
                r@[k].end_marker as int,
            ),
        forall|k: int| 0 <= k < r.len() ==> #[trigger] r@[k].meta.start.id != r@[k].meta.end.id,
{
    let mut out: Vec<ArrowBuild> = Vec::new();
    let mut k: usize = 0;
    while k < events.len()
        invariant
            0 <= k <= events.len(),
            out@.map_values(|b: ArrowBuild| b.meta) == built_metas(events@.take(k as int), markers@),
            forall|n: int|
                0 <= n < out.len() ==> is_min_pair(
                    markers@,
                    #[trigger] out@[n].meta.start.id,
                    out@[n].meta.end.id,
                    out@[n].start_marker as int,
                    out@[n].end_marker as int,
                ),
            forall|n: int| 0 <= n < out.len() ==> #[trigger] out@[n].meta.start.id != out@[n].meta.end.id,
        decreases events.len() - k,
    {
        let e = events[k];
        assert(events@.take(k + 1).drop_last() == events@.take(k as int));
        assert(events@.take(k + 1).last() == e);
        if let Some((i, j)) = resolve_anchor_pair(e.start.id, e.end.id, markers) {
            let b = ArrowBuild {
                start_marker: i,
                end_marker: j,
                meta: ArrowMeta { start: e.start, end: e.end, arrow_type: e.arrow_type },
            };
            out.push(b);
            assert(out@.map_values(|b: ArrowBuild| b.meta) =~= built_metas(events@.take(k as int), markers@).push(e.meta()));
        }
        k += 1;
    }
    assert(events@.take(events.len() as int) =~= events@);
    out
}

} // verus!
