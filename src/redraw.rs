use vstd::prelude::*;

use crate::arrows::{built_metas, lemma_built_metas_distinct_ends};
use crate::model::{ArrowMeta, CreateArrow, Marker};
use crate::resolver::resolvable;

verus! {

/// Some node in `changed` is an end of the arrow `m`.
pub open spec fn touched(changed: Seq<u64>, m: ArrowMeta) -> bool {
    exists|c: int| 0 <= c < changed.len() && m.touches(#[trigger] changed[c])
}

/// Live arrow `i` is the first live arrow with its identity, and that identity is
/// touched by a change: it is the one that the batch despawns.
pub open spec fn despawns(live: Seq<ArrowMeta>, changed: Seq<u64>, i: int) -> bool {
    &&& 0 <= i < live.len()
    &&& touched(changed, live[i])
    &&& forall|j: int| 0 <= j < i ==> live[j] != live[i]
}

/// The indices among the first `n` live arrows that the batch despawns, in order.
pub open spec fn despawned_indices(live: Seq<ArrowMeta>, changed: Seq<u64>, n: int) -> Seq<usize>
    decreases n,
{
    if n <= 0 {
        Seq::empty()
    } else {
        let prev = despawned_indices(live, changed, n - 1);
        if despawns(live, changed, n - 1) {
            prev.push((n - 1) as usize)
        } else {
            prev
        }
    }
}

/// The distinct identities among the first `n` live arrows that a change touches.
pub open spec fn touched_metas(live: Seq<ArrowMeta>, changed: Seq<u64>, n: int) -> Set<ArrowMeta>
    decreases n,
{
    if n <= 0 {
        Set::empty()
    } else {
        let prev = touched_metas(live, changed, n - 1);
        if touched(changed, live[n - 1]) {
            prev.insert(live[n - 1])
        } else {
            prev
        }
    }
}

/// The requests that rebuild the live arrows at the given indices.
pub open spec fn requests_of(live: Seq<ArrowMeta>, idx: Seq<usize>) -> Seq<CreateArrow> {
    idx.map_values(|i: usize| live[i as int].request())
}

/// The first `n` live arrows less those that the batch despawns.
pub open spec fn survivors(live: Seq<ArrowMeta>, changed: Seq<u64>, n: int) -> Seq<ArrowMeta>
    decreases n,
{
    if n <= 0 {
        Seq::empty()
    } else {
        let prev = survivors(live, changed, n - 1);
        if despawns(live, changed, n - 1) {
            prev
        } else {
            prev.push(live[n - 1])
        }
    }
}

/// The identities of the live arrows once a batch has been redrawn: those not
/// despawned, and those rebuilt from the batch's requests.
pub open spec fn live_after_batch(live: Seq<ArrowMeta>, changed: Seq<u64>, markers: Seq<Marker>) -> Seq<ArrowMeta> {
    survivors(live, changed, live.len() as int) + built_metas(
        requests_of(live, despawned_indices(live, changed, live.len() as int)),
        markers,
    )
}

/// What one batch of node changes asks for: the live arrows to despawn (by index)
/// and, for each of them in the same order, the request that rebuilds it.
#[derive(Debug)]
pub struct RedrawPlan {
    pub despawn: Vec<usize>,
    pub recreate: Vec<CreateArrow>,
}

fn touches_any(changed: &Vec<u64>, m: ArrowMeta) -> (r: bool)
    ensures
        r == touched(changed@, m),
{
    let mut c: usize = 0;
    while c < changed.len()
        invariant
            0 <= c <= changed.len(),
            forall|c2: int| 0 <= c2 < c ==> !m.touches(#[trigger] changed@[c2]),
        decreases changed.len() - c,
    {
        if m.start.id == changed[c] || m.end.id == changed[c] {
            return true;
        }
        c += 1;
    }
    false
}

fn seen_before(live: &Vec<ArrowMeta>, i: usize) -> (r: bool)
    requires
        i < live.len(),
    ensures
        r == exists|j: int| 0 <= j < i && live@[j] == live@[i as int],
{
    let mut j: usize = 0;
    while j < i
        invariant
            i < live.len(),
            0 <= j <= i,
            forall|j2: int| 0 <= j2 < j ==> live@[j2] != live@[i as int],
        decreases i - j,
    {
        if live[j] == live[i] {
            return true;
        }
        j += 1;
    }
    false
}

/// Plans the redraw for one batch of changed nodes. Every live arrow with an end on
/// a changed node is despawned, but each identity only once (the first live arrow
/// that carries it); each despawned identity is requested again, unchanged.
pub fn redraw_arrows(changed: &Vec<u64>, live: &Vec<ArrowMeta>) -> (r: RedrawPlan)
    ensures
        r.despawn@ == despawned_indices(live@, changed@, live.len() as int),
        r.recreate@ == requests_of(live@, r.despawn@),
{
    let mut despawn: Vec<usize> = Vec::new();
    let mut recreate: Vec<CreateArrow> = Vec::new();
    let mut i: usize = 0;
    while i < live.len()
        invariant
            0 <= i <= live.len(),
            despawn@ == despawned_indices(live@, changed@, i as int),
            recreate.len() == despawn.len(),
            forall|k: int| 0 <= k < despawn.len() ==> despawn@[k] < i,
            forall|k: int|
                0 <= k < recreate.len() ==> #[trigger] recreate@[k] == live@[despawn@[k] as int].request(),
        decreases live.len() - i,
    {
        let m = live[i];
        if touches_any(changed, m) && !seen_before(live, i) {
            despawn.push(i);
            recreate.push(CreateArrow { start: m.start, end: m.end, arrow_type: m.arrow_type });
        }
        i += 1;
    }
    assert(recreate@ =~= requests_of(live@, despawn@));
    RedrawPlan { despawn, recreate }
}

proof fn lemma_touched_metas(live: Seq<ArrowMeta>, changed: Seq<u64>, n: int)
    requires
        0 <= n <= live.len(),
    ensures
        touched_metas(live, changed, n).finite(),
        despawned_indices(live, changed, n).len() == touched_metas(live, changed, n).len(),
        forall|m: ArrowMeta|
            #[trigger] touched_metas(live, changed, n).contains(m) <==> (touched(changed, m) && exists|i: int|
                0 <= i < n && live[i] == m),
    decreases n,
{
    if n > 0 {
        lemma_touched_metas(live, changed, n - 1);
        let prev = touched_metas(live, changed, n - 1);
        let m = live[n - 1];
        if touched(changed, m) {
            if despawns(live, changed, n - 1) {
                assert(!prev.contains(m));
            } else {
                let j = choose|j: int| 0 <= j < n - 1 && live[j] == m;
                assert(prev.contains(m));
            }
        }
        assert forall|x: ArrowMeta|
            touched_metas(live, changed, n).contains(x) <==> (touched(changed, x) && exists|i: int|
                0 <= i < n && live[i] == x) by {
            if touched(changed, x) && exists|i: int| 0 <= i < n && live[i] == x {
                let i = choose|i: int| 0 <= i < n && live[i] == x;
                if i < n - 1 {
                    assert(prev.contains(x));
                }
            }
            if touched_metas(live, changed, n).contains(x) {
                if x == m {
                    assert(0 <= n - 1 < n && live[n - 1] == x);
                } else {
                    assert(prev.contains(x));
                    let i = choose|i: int| 0 <= i < n - 1 && live[i] == x;
                    assert(0 <= i < n && live[i] == x);
                }
            }
        }
    }
}

proof fn lemma_counts_kept(live: Seq<ArrowMeta>, changed: Seq<u64>, markers: Seq<Marker>, m: ArrowMeta, n: int)
    requires
        0 <= n <= live.len() <= usize::MAX,
        resolvable(markers, m.start.id, m.end.id),
    ensures
        survivors(live, changed, n).to_multiset().count(m) + built_metas(
            requests_of(live, despawned_indices(live, changed, n)),
            markers,
        ).to_multiset().count(m) == live.take(n).to_multiset().count(m),
    decreases n,
{
    broadcast use vstd::seq_lib::group_to_multiset_ensures;

    if n == 0 {
        assert(live.take(0) =~= Seq::<ArrowMeta>::empty());
    } else {
        lemma_counts_kept(live, changed, markers, m, n - 1);
        let x = live[n - 1];
        assert(live.take(n) =~= live.take(n - 1).push(x));
        let d0 = despawned_indices(live, changed, n - 1);
        if despawns(live, changed, n - 1) {
            let d1 = d0.push((n - 1) as usize);
            assert(requests_of(live, d1) =~= requests_of(live, d0).push(x.request()));
            assert(requests_of(live, d1).drop_last() =~= requests_of(live, d0));
            assert(x.request().meta() == x);
            if x == m {
                assert(resolvable(markers, x.start.id, x.end.id));
            }
        }
    }
}

/// Redrawing a batch keeps, for every arrow identity whose two nodes can still be
/// resolved, as many live arrows with that identity as there were before.
pub proof fn lemma_redraw_keeps_metas(changed: Seq<u64>, live: Seq<ArrowMeta>, markers: Seq<Marker>, m: ArrowMeta)
    requires
        live.len() <= usize::MAX,
        resolvable(markers, m.start.id, m.end.id),
    ensures
        live_after_batch(live, changed, markers).to_multiset().count(m) == live.to_multiset().count(m),
{
    let n = live.len() as int;
    lemma_counts_kept(live, changed, markers, m, n);
    assert(live.take(n) =~= live);
    vstd::seq_lib::lemma_multiset_commutative(
        survivors(live, changed, n),
        built_metas(requests_of(live, despawned_indices(live, changed, n)), markers),
    );
}

proof fn lemma_survivors_distinct_ends(live: Seq<ArrowMeta>, changed: Seq<u64>, n: int)
    requires
        0 <= n <= live.len(),
        forall|i: int| 0 <= i < live.len() ==> #[trigger] live[i].start.id != live[i].end.id,
    ensures
        forall|k: int|
            0 <= k < survivors(live, changed, n).len() ==> #[trigger] survivors(live, changed, n)[k].start.id
                != survivors(live, changed, n)[k].end.id,
    decreases n,
{
    if n > 0 {
        lemma_survivors_distinct_ends(live, changed, n - 1);
    }
}

/// If every live arrow joins two different nodes, so does every arrow live after
/// a redraw batch.
pub proof fn lemma_redraw_keeps_distinct_ends(changed: Seq<u64>, live: Seq<ArrowMeta>, markers: Seq<Marker>)
    requires
        forall|i: int| 0 <= i < live.len() ==> #[trigger] live[i].start.id != live[i].end.id,
    ensures
        forall|k: int|
            0 <= k < live_after_batch(live, changed, markers).len() ==> #[trigger] live_after_batch(
                live,
                changed,
                markers,
            )[k].start.id != live_after_batch(live, changed, markers)[k].end.id,
{
    let n = live.len() as int;
    let a = survivors(live, changed, n);
    let b = built_metas(requests_of(live, despawned_indices(live, changed, n)), markers);
    lemma_survivors_distinct_ends(live, changed, n);
    lemma_built_metas_distinct_ends(requests_of(live, despawned_indices(live, changed, n)), markers);
    assert forall|k: int| 0 <= k < (a + b).len() implies #[trigger] (a + b)[k].start.id != (a + b)[k].end.id by {
        if k < a.len() {
            assert((a + b)[k] == a[k]);
        } else {
            assert((a + b)[k] == b[k - a.len()]);
        }
    }
}

/// In one batch, the number of despawns equals the number of distinct arrow
/// identities that the changed nodes touch.
pub proof fn lemma_despawn_once_per_meta(changed: Seq<u64>, live: Seq<ArrowMeta>)
    ensures
        ({
            let touched_set = Set::new(
                |m: ArrowMeta| touched(changed, m) && exists|i: int| 0 <= i < live.len() && live[i] == m,
            );
            &&& touched_set.finite()
            &&& despawned_indices(live, changed, live.len() as int).len() == touched_set.len()
        }),
{
    let n = live.len() as int;
    lemma_touched_metas(live, changed, n);
    let touched_set = Set::new(
        |m: ArrowMeta| touched(changed, m) && exists|i: int| 0 <= i < live.len() && live[i] == m,
    );
    assert forall|m: ArrowMeta| touched_set.contains(m) <==> touched_metas(live, changed, n).contains(m) by {
        if touched_set.contains(m) {
            let i = choose|i: int| 0 <= i < live.len() && live[i] == m;
            assert(0 <= i < n && live[i] == m);
        }
        if touched_metas(live, changed, n).contains(m) {
            let i = choose|i: int| 0 <= i < n && live[i] == m;
            assert(0 <= i < live.len() && live[i] == m);
        }
    }
    assert(touched_set =~= touched_metas(live, changed, n));
}

} // verus!
