//! System-wide laws of the UI core, each stated and proved over the
//! specification functions that the executable functions' contracts are
//! written in.

use vstd::prelude::*;

use crate::geom::{Vec2, inside, sat64};
use crate::element::{UiElement, Widget, Interaction, DragAxis, spec_hovered};
use crate::state::{UiView, wf, wf_node, wf_nodes};
use crate::dispatch::{
    UiEvent, UiAction, hit, hit_children, hit_forest, phase_hit, hover_exit, capture, update_spec,
    spec_mask, with_button_interaction, drag_target, drag_delta, lemma_hit_forest_in_range,
};

verus! {

/// Box membership law: a cursor is inside an element's box exactly when
/// it is at or right of the left edge, strictly left of the right edge,
/// at or below the top edge, and strictly above the bottom edge.
pub proof fn lemma_box_membership(pos: Vec2, size: Vec2, cursor: Vec2)
    ensures
        inside(pos, size, cursor) <==> ((pos.x <= cursor.x && cursor.x < pos.x + size.x) && (pos.y
            <= cursor.y && cursor.y < pos.y + size.y)),
{
}

/// Topmost wins: among the children of one parent, the later-declared
/// sibling is visually on top and is hit-tested first, so if its subtree
/// contains the cursor (and no sibling above it does), dispatch resolves
/// into it — whether or not an earlier sibling also contains the cursor.
pub proof fn lemma_topmost_wins(nodes: Seq<UiElement>, i: int, p: Vec2, ib: int)
    requires
        wf_nodes(nodes),
        0 <= i < nodes.len(),
        0 <= ib < nodes[i].children@.len(),
        hit(nodes, nodes[i].children@[ib] as int, p) is Some,
        forall|k: int|
            ib < k < nodes[i].children@.len() ==> hit(
                nodes,
                #[trigger] nodes[i].children@[k] as int,
                p,
            ) is None,
    ensures
        hit_children(nodes, i, nodes[i].children@.len() as int, p) == hit(
            nodes,
            nodes[i].children@[ib] as int,
            p,
        ),
    decreases nodes[i].children@.len(),
{
    crate::layout::lemma_children_in_range(nodes, i);
    lemma_topmost_wins_upto(nodes, i, p, ib, nodes[i].children@.len() as int);
}

proof fn lemma_topmost_wins_upto(nodes: Seq<UiElement>, i: int, p: Vec2, ib: int, k: int)
    requires
        wf_nodes(nodes),
        0 <= i < nodes.len(),
        0 <= ib < k <= nodes[i].children@.len(),
        hit(nodes, nodes[i].children@[ib] as int, p) is Some,
        forall|k2: int|
            ib < k2 < nodes[i].children@.len() ==> hit(
                nodes,
                #[trigger] nodes[i].children@[k2] as int,
                p,
            ) is None,
    ensures
        hit_children(nodes, i, k, p) == hit(nodes, nodes[i].children@[ib] as int, p),
    decreases k,
{
    crate::layout::lemma_children_in_range(nodes, i);
    if k - 1 > ib {
        assert(hit(nodes, nodes[i].children@[k - 1] as int, p) is None);
        lemma_topmost_wins_upto(nodes, i, p, ib, k - 1);
    }
}

/// Single-focus law: in a well-formed state at most one element holds
/// the hover role, and it is the one the `selected` slot names; the
/// `pressed` and `selected` slots each name at most one element by
/// construction.  `update_cursor` ensures well-formedness after every
/// event, so this holds after any event sequence.
pub proof fn lemma_single_focus(s: UiView)
    requires
        wf(s),
    ensures
        forall|i: int, j: int|
            0 <= i < s.nodes.len() && 0 <= j < s.nodes.len() && spec_hovered(#[trigger] s.nodes[i])
                && spec_hovered(#[trigger] s.nodes[j]) ==> i == j,
        forall|i: int|
            0 <= i < s.nodes.len() && spec_hovered(#[trigger] s.nodes[i]) ==> s.selected == Some(
                i as usize,
            ),
{
}

/// Hover exclusivity: a move event whose hit lands on a not-yet-hovered
/// button, while another element holds the hover role, demotes the old
/// element to idle and promotes the hit one to hovered within the same
/// event, with the `selected` slot moving along.  (No capture is active,
/// as in a plain mouse-over.)
pub proof fn lemma_hover_exclusivity(s: UiView, cursor: Vec2, t: int, a: int)
    requires
        wf(s),
        s.pressed is None,
        hit_forest(s.nodes, s.roots, s.roots.len() as int, cursor) == Some(t),
        0 <= t < s.nodes.len(),
        s.nodes[t].widget matches Widget::Button { interaction, .. } && !(interaction is Hover),
        s.selected == Some(a as usize),
        0 <= a < s.nodes.len(),
        a != t,
        s.nodes[a].widget is Button,
    ensures
        ({
            let (post, code, acts) = update_spec(s, cursor, UiEvent::Move);
            &&& code == 3
            &&& post.selected == Some(t as usize)
            &&& post.nodes[t].widget == with_button_interaction(
                s.nodes[t].widget,
                Interaction::Hover,
            )
            &&& post.nodes[a].widget == with_button_interaction(
                s.nodes[a].widget,
                Interaction::Idle,
            )
            &&& !spec_hovered(post.nodes[a])
            &&& spec_hovered(post.nodes[t])
        }),
{
}

/// Idempotent re-hover: a move event whose hit lands on an element that
/// already holds the hover role is a re-delivery: it returns code 2 and
/// changes nothing but the stored cursor position.  Two consecutive
/// moves at one point inside an already-hovered element therefore both
/// return 2, and the second finds the state the first left.
pub proof fn lemma_idempotent_rehover(s: UiView, cursor: Vec2, t: int)
    requires
        wf(s),
        s.pressed is None,
        hit_forest(s.nodes, s.roots, s.roots.len() as int, cursor) == Some(t),
        0 <= t < s.nodes.len(),
        spec_hovered(s.nodes[t]),
        s.nodes[t].widget is Button || s.nodes[t].widget is CheckBox,
    ensures
        ({
            let (s1, r1, a1) = update_spec(s, cursor, UiEvent::Move);
            &&& r1 == 2
            &&& a1 == Seq::<UiAction>::empty()
            &&& s1 == (UiView { cursor_pos: cursor, ..s })
            &&& update_spec(s1, cursor, UiEvent::Move).1 == 2
            &&& update_spec(s1, cursor, UiEvent::Move).0 == s1
        }),
{
    let (s1, r1, a1) = update_spec(s, cursor, UiEvent::Move);
    assert(s.selected == Some(t as usize));
    assert(s1 =~= (UiView { cursor_pos: cursor, ..s }));
    assert(hit_forest(s1.nodes, s1.roots, s1.roots.len() as int, cursor) == Some(t));
    let (s2, r2, a2) = update_spec(s1, cursor, UiEvent::Move);
    assert(s2 =~= s1);
}

/// Release outside suppresses the callback: releasing a pressed button
/// with the cursor outside its box fires no `OnPress`, yet the button's
/// interaction state resets to idle and pointer capture is released.
pub proof fn lemma_release_outside(s: UiView, cursor: Vec2, p: int)
    requires
        wf(s),
        s.pressed == Some(p as usize),
        0 <= p < s.nodes.len(),
        s.nodes[p].widget is Button,
        !inside(s.nodes[p].computed.pos, s.nodes[p].computed.size, cursor),
    ensures
        ({
            let (post, code, acts) = update_spec(s, cursor, UiEvent::Release);
            &&& post.nodes[p].widget == with_button_interaction(
                s.nodes[p].widget,
                Interaction::Idle,
            )
            &&& post.pressed is None
            &&& forall|n: int|
                0 <= n < acts.len() ==> !(#[trigger] acts[n] matches UiAction::OnPress { .. })
        }),
{
    let h = hit_forest(s.nodes, s.roots, s.roots.len() as int, cursor);
    lemma_hit_forest_in_range(s.nodes, s.roots, s.roots.len() as int, cursor);
    let (s1, c1, a1) = match h {
        Some(t) => phase_hit(s, t, UiEvent::Release),
        None => (s, 0int, Seq::<UiAction>::empty()),
    };
    assert(s1 == s && a1 == Seq::<UiAction>::empty());
    let (s2, c2) = hover_exit(s1, c1);
    assert(s2.pressed == Some(p as usize));
    assert(s2.nodes[p].widget == s.nodes[p].widget || s2.nodes[p].widget
        == with_button_interaction(s.nodes[p].widget, Interaction::Idle));
    assert(s2.nodes[p].computed == s.nodes[p].computed);
    let (s3, c3, a3) = capture(s2, c2, cursor, UiEvent::Release);
    assert(a3 == Seq::<UiAction>::empty());
    assert(s3.nodes[p].widget == with_button_interaction(
        s2.nodes[p].widget,
        Interaction::Idle,
    ));
    assert(with_button_interaction(s2.nodes[p].widget, Interaction::Idle)
        == with_button_interaction(s.nodes[p].widget, Interaction::Idle));
}

/// Drag axis masking: the movement vector applied to a drag box is the
/// cursor delta with the components outside the drag axis zeroed, before
/// any host-side override (`Locked` masks both, `X` keeps only the
/// horizontal component, `Y` only the vertical one, `Both` neither).
pub proof fn lemma_drag_axis_masking(d: Vec2)
    ensures
        spec_mask(DragAxis::Locked, d) == (Vec2 { x: 0i64, y: 0i64 }),
        spec_mask(DragAxis::X, d) == (Vec2 { x: d.x, y: 0i64 }),
        spec_mask(DragAxis::Y, d) == (Vec2 { x: 0i64, y: d.y }),
        spec_mask(DragAxis::Both, d) == d,
{
}

/// A move event while a drag box holds capture applies exactly the
/// axis-masked cursor delta to the drag target's derived position and
/// reports it in a single `OnDrag` action, whatever the hit-test pass
/// found.
pub proof fn lemma_drag_applies_masked_delta(s: UiView, cursor: Vec2, p: int)
    requires
        wf(s),
        s.pressed == Some(p as usize),
        0 <= p < s.nodes.len(),
        s.nodes[p].widget is DragBox,
    ensures
        ({
            let (post, code, acts) = update_spec(s, cursor, UiEvent::Move);
            let d = spec_mask(
                s.nodes[p].widget->DragBox_axis,
                Vec2 {
                    x: sat64(cursor.x - s.cursor_pos.x) as i64,
                    y: sat64(cursor.y - s.cursor_pos.y) as i64,
                },
            );
            let tgt = drag_target(s, p);
            &&& code == 3
            &&& acts == seq![UiAction::OnDrag { element: p as usize, delta: d }]
            &&& post.nodes[tgt].computed.pos == (Vec2 {
                x: sat64(s.nodes[tgt].computed.pos.x + d.x) as i64,
                y: sat64(s.nodes[tgt].computed.pos.y + d.y) as i64,
            })
        }),
{
    let h = hit_forest(s.nodes, s.roots, s.roots.len() as int, cursor);
    lemma_hit_forest_in_range(s.nodes, s.roots, s.roots.len() as int, cursor);
    let (s1, c1, a1) = match h {
        Some(t) => phase_hit(s, t, UiEvent::Move),
        None => (s, 0int, Seq::<UiAction>::empty()),
    };
    assert(a1 == Seq::<UiAction>::empty());
    assert(s1.pressed == Some(p as usize));
    assert(s1.nodes[p].widget == s.nodes[p].widget);
    assert(s1.nodes[p].style == s.nodes[p].style);
    assert(s1.nodes[p].parent == s.nodes[p].parent);
    assert(s1.cursor_pos == s.cursor_pos);
    let (s2, c2) = hover_exit(s1, c1);
    assert(s2.pressed == Some(p as usize));
    assert(s2.nodes[p].widget == s.nodes[p].widget);
    assert(s2.nodes[p].style == s.nodes[p].style);
    assert(s2.nodes[p].parent == s.nodes[p].parent);
    assert(s2.cursor_pos == s.cursor_pos);
    let tgt = drag_target(s, p);
    assert(wf_node(s.nodes, p));
    assert(drag_target(s2, p) == tgt);
    assert(s1.nodes[tgt].computed == s.nodes[tgt].computed);
    assert(s2.nodes[tgt].computed == s.nodes[tgt].computed);
    assert(drag_delta(s2, p, cursor) == drag_delta(s, p, cursor));
}

} // verus!
