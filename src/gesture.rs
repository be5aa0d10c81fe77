use vstd::prelude::*;

use crate::model::{ArrowConnect, ArrowType, CreateArrow};

verus! {

/// What the input system reports for an anchor marker in one frame.
#[derive(Clone, Copy, Debug, PartialEq, Eq, Structural, Hash)]
pub enum Interaction {
    Clicked,
    Hovered,
    Idle,
}

/// The cursor shape the window should show.
#[derive(Clone, Copy, Debug, PartialEq, Eq, Structural, Hash)]
pub enum CursorIcon {
    Default,
    Crosshair,
}

/// The drawing gesture: the anchor picked by a first click, if any, and the kind
/// of arrow the user has chosen.
#[derive(Clone, Copy, Debug, PartialEq, Eq, Structural, Hash)]
pub struct AppState {
    pub arrow_to_draw_start: Option<ArrowConnect>,
    pub arrow_type: ArrowType,
}

/// The gesture after one interaction with `anchor`, and the request it emits.
/// A second click on the node of the pending start is ignored.
pub open spec fn gesture_step(st: AppState, it: Interaction, anchor: ArrowConnect) -> (AppState, Option<CreateArrow>) {
    match it {
        Interaction::Clicked => match st.arrow_to_draw_start {
            Some(s) => if s.id == anchor.id {
                (st, None)
            } else {
                (
                    AppState { arrow_to_draw_start: None, ..st },
                    Some(CreateArrow { start: s, end: anchor, arrow_type: st.arrow_type }),
                )
            },
            None => (AppState { arrow_to_draw_start: Some(anchor), ..st }, None),
        },
        _ => (st, None),
    }
}

/// The gesture after a sequence of interactions, and the requests emitted in order.
pub open spec fn gesture_run(st: AppState, its: Seq<(Interaction, ArrowConnect)>) -> (AppState, Seq<CreateArrow>)
    decreases its.len(),
{
    if its.len() == 0 {
        (st, Seq::empty())
    } else {
        let (st1, out1) = gesture_run(st, its.drop_last());
        let (st2, e) = gesture_step(st1, its.last().0, its.last().1);
        (st2, match e {
            Some(c) => out1.push(c),
            None => out1,
        })
    }
}

/// The cursor that the last hover-related interaction of the sequence asks for.
pub open spec fn cursor_run(its: Seq<(Interaction, ArrowConnect)>) -> Option<CursorIcon>
    decreases its.len(),
{
    if its.len() == 0 {
        None
    } else {
        match its.last().0 {
            Interaction::Hovered => Some(CursorIcon::Crosshair),
            Interaction::Idle => Some(CursorIcon::Default),
            Interaction::Clicked => cursor_run(its.drop_last()),
        }
    }
}

/// Applies one frame's anchor interactions to the gesture. Returns the arrow
/// requests emitted, in order, and the cursor to show, if any interaction sets it.
/// Every request joins two different nodes.
pub fn create_arrow_start(state: &mut AppState, interactions: &Vec<(Interaction, ArrowConnect)>) -> (r: (
    Vec<CreateArrow>,
    Option<CursorIcon>,
))
    ensures
        (*final(state), r.0@) == gesture_run(*old(state), interactions@),
        r.1 == cursor_run(interactions@),
        forall|k: int| 0 <= k < r.0.len() ==> #[trigger] r.0@[k].start.id != r.0@[k].end.id,
{
    let ghost st0 = *state;
    let mut out: Vec<CreateArrow> = Vec::new();
    let mut cursor: Option<CursorIcon> = None;
    let mut k: usize = 0;
    while k < interactions.len()
        invariant
            0 <= k <= interactions.len(),
            (*state, out@) == gesture_run(st0, interactions@.take(k as int)),
            cursor == cursor_run(interactions@.take(k as int)),
            forall|n: int| 0 <= n < out.len() ==> #[trigger] out@[n].start.id != out@[n].end.id,
        decreases interactions.len() - k,
    {
        let (it, anchor) = interactions[k];
        assert(interactions@.take(k + 1).drop_last() == interactions@.take(k as int));
        assert(interactions@.take(k + 1).last() == (it, anchor));
        match it {
            Interaction::Clicked => match state.arrow_to_draw_start {
                Some(s) => {
                    if s.id != anchor.id {
                        state.arrow_to_draw_start = None;
                        out.push(CreateArrow { start: s, end: anchor, arrow_type: state.arrow_type });
                    }
                },
                None => {
                    state.arrow_to_draw_start = Some(anchor);
                },
            },
            Interaction::Hovered => {
                cursor = Some(CursorIcon::Crosshair);
            },
            Interaction::Idle => {
                cursor = Some(CursorIcon::Default);
            },
        }
        k += 1;
    }
    assert(interactions@.take(interactions.len() as int) =~= interactions@);
    (out, cursor)
}

/// Drops the pending start when its node is among the deleted nodes, so that a
/// pending start always refers to a live anchor; otherwise leaves the state as is.
pub fn clear_pending_for_deleted(state: &mut AppState, deleted: &Vec<u64>)
    ensures
        final(state).arrow_type == old(state).arrow_type,
        final(state).arrow_to_draw_start == (match old(state).arrow_to_draw_start {
            Some(s) => if deleted@.contains(s.id) {
                None
            } else {
                Some(s)
            },
            None => None,
        }),
{
    if let Some(s) = state.arrow_to_draw_start {
        let mut k: usize = 0;
        while k < deleted.len()
            invariant
                0 <= k <= deleted.len(),
                state.arrow_to_draw_start == Some(s),
                old(state).arrow_to_draw_start == Some(s),
                state.arrow_type == old(state).arrow_type,
                forall|j: int| 0 <= j < k ==> deleted@[j] != s.id,
            decreases deleted.len() - k,
        {
            if deleted[k] == s.id {
                state.arrow_to_draw_start = None;
                assert(deleted@[k as int] == s.id);
                assert(deleted@.contains(s.id));
                return;
            }
            k += 1;
        }
    }
}

/// Two clicks on anchors of different nodes, with no start pending, emit exactly
/// one request, from the first anchor to the second with the chosen kind, and
/// leave no start pending.
pub proof fn lemma_two_clicks_make_one_arrow(st: AppState, a: ArrowConnect, b: ArrowConnect)
    requires
        st.arrow_to_draw_start.is_none(),
        a.id != b.id,
    ensures
        ({
            let (st2, out) = gesture_run(st, seq![(Interaction::Clicked, a), (Interaction::Clicked, b)]);
            &&& out == seq![CreateArrow { start: a, end: b, arrow_type: st.arrow_type }]
            &&& st2.arrow_to_draw_start.is_none()
            &&& st2.arrow_type == st.arrow_type
        }),
{
    let its = seq![(Interaction::Clicked, a), (Interaction::Clicked, b)];
    assert(its.drop_last() == seq![(Interaction::Clicked, a)]);
    assert(its.drop_last().drop_last() == Seq::<(Interaction, ArrowConnect)>::empty());
    reveal_with_fuel(gesture_run, 3);
    let st1 = AppState { arrow_to_draw_start: Some(a), ..st };
    assert(gesture_run(st, its.drop_last()) == (st1, Seq::<CreateArrow>::empty()));
    assert(Seq::<CreateArrow>::empty().push(CreateArrow { start: a, end: b, arrow_type: st.arrow_type })
        == seq![CreateArrow { start: a, end: b, arrow_type: st.arrow_type }]);
}

/// Clicking the same anchor twice, with no start pending, emits no request and
/// leaves that anchor pending.
pub proof fn lemma_same_anchor_twice_makes_none(st: AppState, a: ArrowConnect)
    requires
        st.arrow_to_draw_start.is_none(),
    ensures
        ({
            let (st2, out) = gesture_run(st, seq![(Interaction::Clicked, a), (Interaction::Clicked, a)]);
            &&& out.len() == 0
            &&& st2.arrow_to_draw_start == Some(a)
        }),
{
    let its = seq![(Interaction::Clicked, a), (Interaction::Clicked, a)];
    assert(its.drop_last() == seq![(Interaction::Clicked, a)]);
    assert(its.drop_last().drop_last() == Seq::<(Interaction, ArrowConnect)>::empty());
    reveal_with_fuel(gesture_run, 3);
    let st1 = AppState { arrow_to_draw_start: Some(a), ..st };
    assert(gesture_run(st, its.drop_last()) == (st1, Seq::<CreateArrow>::empty()));
}

} // verus!
