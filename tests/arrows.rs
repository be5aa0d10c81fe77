use mindmap_arrows::arrows::create_arrow_end;
use mindmap_arrows::gesture::{create_arrow_start, AppState, CursorIcon, Interaction};
use mindmap_arrows::model::{AnchorSide, ArrowConnect, ArrowMeta, ArrowType, CreateArrow, Marker, Point};
use mindmap_arrows::redraw::redraw_arrows;
use mindmap_arrows::resolver::resolve_anchor_pair;

const SIDES: [AnchorSide; 4] = [AnchorSide::Top, AnchorSide::Bottom, AnchorSide::Left, AnchorSide::Right];

fn anchor(id: u64, pos: AnchorSide) -> ArrowConnect {
    ArrowConnect { id, pos }
}

// Markers of a 100x100 node whose top-left corner is at (x, y): top, bottom, left, right.
fn node_markers(id: u64, x: i32, y: i32) -> Vec<Marker> {
    let points = [
        Point { x: x + 50, y },
        Point { x: x + 50, y: y + 100 },
        Point { x, y: y + 50 },
        Point { x: x + 100, y: y + 50 },
    ];
    SIDES
        .iter()
        .zip(points.iter())
        .map(|(s, p)| Marker { anchor: anchor(id, *s), pos: Some(*p) })
        .collect()
}

fn two_nodes(n2x: i32, n2y: i32) -> Vec<Marker> {
    let mut m = node_markers(1, 0, 0);
    m.extend(node_markers(2, n2x, n2y));
    m
}

fn idle_state() -> AppState {
    AppState { arrow_to_draw_start: None, arrow_type: ArrowType::ArrowFromEnd }
}

fn click(a: ArrowConnect) -> (Interaction, ArrowConnect) {
    (Interaction::Clicked, a)
}

#[test]
fn basic_creation_picks_facing_sides() {
    let mut st = idle_state();
    let (reqs, _) = create_arrow_start(
        &mut st,
        &vec![click(anchor(1, AnchorSide::Right)), click(anchor(2, AnchorSide::Left))],
    );
    assert_eq!(reqs.len(), 1);
    assert_eq!(st.arrow_to_draw_start, None);
    let markers = two_nodes(400, 0);
    let builds = create_arrow_end(&reqs, &markers);
    assert_eq!(builds.len(), 1);
    assert_eq!(markers[builds[0].start_marker].anchor, anchor(1, AnchorSide::Right));
    assert_eq!(markers[builds[0].end_marker].anchor, anchor(2, AnchorSide::Left));
}

#[test]
fn resolver_ignores_clicked_sides() {
    let mut st = idle_state();
    let (reqs, _) = create_arrow_start(
        &mut st,
        &vec![click(anchor(1, AnchorSide::Left)), click(anchor(2, AnchorSide::Right))],
    );
    let markers = two_nodes(400, 0);
    let builds = create_arrow_end(&reqs, &markers);
    assert_eq!(builds.len(), 1);
    assert_eq!(markers[builds[0].start_marker].anchor, anchor(1, AnchorSide::Right));
    assert_eq!(markers[builds[0].end_marker].anchor, anchor(2, AnchorSide::Left));
    assert_eq!(builds[0].meta.start, anchor(1, AnchorSide::Left));
    assert_eq!(builds[0].meta.end, anchor(2, AnchorSide::Right));
    assert_eq!(builds[0].meta.arrow_type, ArrowType::ArrowFromEnd);
}

fn s1_meta() -> ArrowMeta {
    ArrowMeta {
        start: anchor(1, AnchorSide::Right),
        end: anchor(2, AnchorSide::Left),
        arrow_type: ArrowType::ArrowFromEnd,
    }
}

#[test]
fn move_triggers_one_redraw() {
    let live = vec![s1_meta()];
    let plan = redraw_arrows(&vec![2], &live);
    assert_eq!(plan.despawn, vec![0]);
    assert_eq!(plan.recreate.len(), 1);
    let markers = two_nodes(0, 400);
    let builds = create_arrow_end(&plan.recreate, &markers);
    assert_eq!(builds.len(), 1);
    assert_eq!(builds[0].meta, s1_meta());
    assert_eq!(markers[builds[0].start_marker].anchor, anchor(1, AnchorSide::Bottom));
    assert_eq!(markers[builds[0].end_marker].anchor, anchor(2, AnchorSide::Top));
}

#[test]
fn both_ends_changed_redraws_once() {
    let live = vec![s1_meta()];
    let plan = redraw_arrows(&vec![1, 2], &live);
    assert_eq!(plan.despawn, vec![0]);
    assert_eq!(plan.recreate.len(), 1);
}

#[test]
fn deleted_node_leaves_no_arrow() {
    let live = vec![s1_meta()];
    let plan = redraw_arrows(&vec![2], &live);
    assert_eq!(plan.despawn, vec![0]);
    let markers = node_markers(1, 0, 0);
    let builds = create_arrow_end(&plan.recreate, &markers);
    assert!(builds.is_empty());
}

#[test]
fn same_anchor_twice_creates_nothing() {
    let mut st = idle_state();
    let a = anchor(1, AnchorSide::Right);
    let (r1, _) = create_arrow_start(&mut st, &vec![click(a)]);
    assert!(r1.is_empty());
    assert_eq!(st.arrow_to_draw_start, Some(a));
    let (r2, _) = create_arrow_start(&mut st, &vec![click(a)]);
    assert!(r2.is_empty());
    assert_eq!(st.arrow_to_draw_start, Some(a));
}

#[test]
fn second_click_on_same_node_is_ignored() {
    let mut st = idle_state();
    let (r, _) = create_arrow_start(
        &mut st,
        &vec![click(anchor(1, AnchorSide::Right)), click(anchor(1, AnchorSide::Top))],
    );
    assert!(r.is_empty());
    assert_eq!(st.arrow_to_draw_start, Some(anchor(1, AnchorSide::Right)));
}

#[test]
fn two_clicks_emit_request_with_current_kind() {
    let mut st = AppState { arrow_to_draw_start: None, arrow_type: ArrowType::DoubleArrow };
    let (r, _) = create_arrow_start(
        &mut st,
        &vec![click(anchor(3, AnchorSide::Top)), click(anchor(4, AnchorSide::Bottom))],
    );
    assert_eq!(
        r,
        vec![CreateArrow {
            start: anchor(3, AnchorSide::Top),
            end: anchor(4, AnchorSide::Bottom),
            arrow_type: ArrowType::DoubleArrow
        }]
    );
}

#[test]
fn hover_sets_crosshair_and_idle_resets() {
    let mut st = idle_state();
    let a = anchor(1, AnchorSide::Top);
    let (_, c) = create_arrow_start(&mut st, &vec![(Interaction::Hovered, a)]);
    assert_eq!(c, Some(CursorIcon::Crosshair));
    let (_, c) = create_arrow_start(&mut st, &vec![(Interaction::Hovered, a), (Interaction::Idle, a)]);
    assert_eq!(c, Some(CursorIcon::Default));
    let (_, c) = create_arrow_start(&mut st, &vec![]);
    assert_eq!(c, None);
}

#[test]
fn redraw_despawns_duplicate_meta_once() {
    let other = ArrowMeta {
        start: anchor(3, AnchorSide::Top),
        end: anchor(4, AnchorSide::Top),
        arrow_type: ArrowType::Line,
    };
    let live = vec![s1_meta(), other, s1_meta()];
    let plan = redraw_arrows(&vec![1, 2, 5], &live);
    assert_eq!(plan.despawn, vec![0]);
    assert_eq!(plan.recreate, vec![CreateArrow { start: s1_meta().start, end: s1_meta().end, arrow_type: s1_meta().arrow_type }]);
}

#[test]
fn resolver_skips_unprojected_and_same_node() {
    let mut markers = two_nodes(400, 0);
    // N1's right anchor is off screen: the next closest is N1's top or bottom.
    markers[3].pos = None;
    let r = resolve_anchor_pair(1, 2, &markers).unwrap();
    assert_ne!(r.0, 3);
    assert_eq!(markers[r.1].anchor, anchor(2, AnchorSide::Left));
    assert_eq!(resolve_anchor_pair(1, 1, &markers), None);
    assert_eq!(resolve_anchor_pair(1, 9, &markers), None);
    assert_eq!(resolve_anchor_pair(1, 2, &vec![]), None);
}

#[test]
fn resolver_exact_distance_winner() {
    let markers = vec![
        Marker { anchor: anchor(1, AnchorSide::Top), pos: Some(Point { x: 0, y: 0 }) },
        Marker { anchor: anchor(1, AnchorSide::Right), pos: Some(Point { x: 10, y: 0 }) },
        Marker { anchor: anchor(2, AnchorSide::Left), pos: Some(Point { x: 13, y: 4 }) },
        Marker { anchor: anchor(2, AnchorSide::Bottom), pos: Some(Point { x: -100, y: 0 }) },
    ];
    assert_eq!(resolve_anchor_pair(1, 2, &markers), Some((1, 2)));
    assert_eq!(resolve_anchor_pair(2, 1, &markers), Some((2, 1)));
}

#[test]
fn resolver_handles_extreme_coordinates() {
    let markers = vec![
        Marker { anchor: anchor(1, AnchorSide::Top), pos: Some(Point { x: i32::MIN, y: i32::MIN }) },
        Marker { anchor: anchor(2, AnchorSide::Top), pos: Some(Point { x: i32::MAX, y: i32::MAX }) },
    ];
    assert_eq!(resolve_anchor_pair(1, 2, &markers), Some((0, 1)));
}

#[test]
fn deleting_pending_node_clears_start() {
    let a = anchor(1, AnchorSide::Right);
    let mut st = AppState { arrow_to_draw_start: Some(a), arrow_type: ArrowType::Line };
    mindmap_arrows::gesture::clear_pending_for_deleted(&mut st, &vec![5, 7]);
    assert_eq!(st.arrow_to_draw_start, Some(a));
    mindmap_arrows::gesture::clear_pending_for_deleted(&mut st, &vec![5, 1]);
    assert_eq!(st.arrow_to_draw_start, None);
    assert_eq!(st.arrow_type, ArrowType::Line);
}

#[test]
fn redraw_keeps_untouched_and_rebuilds_touched() {
    let other = ArrowMeta {
        start: anchor(3, AnchorSide::Top),
        end: anchor(1, AnchorSide::Left),
        arrow_type: ArrowType::DoubleArrow,
    };
    let live = vec![s1_meta(), other];
    let plan = redraw_arrows(&vec![2], &live);
    assert_eq!(plan.despawn, vec![0]);
    let markers = two_nodes(0, 400);
    let builds = create_arrow_end(&plan.recreate, &markers);
    let mut after: Vec<ArrowMeta> = vec![other];
    after.extend(builds.iter().map(|b| b.meta));
    assert_eq!(after.iter().filter(|m| **m == s1_meta()).count(), 1);
    assert_eq!(after.iter().filter(|m| **m == other).count(), 1);
}
