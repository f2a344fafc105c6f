//! Hit-testing and the pointer interaction state machine.
//!
//! One pointer event is processed in two phases, mirroring the root's
//! two-part update: an ordinary hit-test pass that walks the tree in
//! paint order (topmost first) and applies the hit element's transition,
//! and an unconditional capture-delivery pass to the currently pressed
//! element, which bypasses box membership.
//!
//! Outcome codes: `0` no element hit (the event should propagate to
//! non-UI consumers), `1` handled without visual change, `2` re-delivery
//! of an already active state, `3` new state change (redraw required).
//!
//! Callbacks are reported as [`UiAction`] records in firing order; the
//! host runs them after the call returns.

use vstd::prelude::*;

use crate::geom::{Vec2, inside, contains_point, sat64, sat_add, sat_sub};
use crate::element::{UiElement, Widget, Interaction, DragAxis, spec_hovered};
use crate::style::Position;
use crate::state::{UiState, UiView, wf, wf_node, wf_nodes, wf_roots, wf_focus};

verus! {

/// A pointer event, delivered with the cursor position.
#[derive(Clone, Copy, Debug, PartialEq, Eq, Structural)]
pub enum UiEvent {
    Press,
    Move,
    Release,
}

/// A callback that fired during one pointer event, for the host to run.
#[derive(Clone, Copy, Debug, PartialEq, Eq, Structural)]
pub enum UiAction {
    /// A button was pressed down (fires before the press is committed).
    BeforePress { element: usize },
    /// A button was released with the cursor still inside its box.
    OnPress { element: usize },
    /// A check box toggled on.
    OnEnable { element: usize },
    /// A check box toggled off.
    OnDisable { element: usize },
    /// A drag box moved; `delta` is the applied movement vector after
    /// axis masking.
    OnDrag { element: usize, delta: Vec2 },
}

/// One phase of a touch, as the platform reports it.
#[derive(Clone, Copy, Debug, PartialEq, Eq, Structural)]
pub enum TouchPhase {
    Started,
    Moved,
    Ended,
    Cancelled,
}

/// The pointer event a touch phase is delivered as: a cancelled touch
/// phase is mapped to an ordinary release; no other cancellation
/// exists.
pub fn pointer_event_for_touch(phase: TouchPhase) -> (e: UiEvent)
    ensures
        phase is Started ==> e is Press,
        phase is Moved ==> e is Move,
        phase is Ended || phase is Cancelled ==> e is Release,
{
    match phase {
        TouchPhase::Started => UiEvent::Press,
        TouchPhase::Moved => UiEvent::Move,
        TouchPhase::Ended | TouchPhase::Cancelled => UiEvent::Release,
    }
}

/// The pointer event a primary mouse button change is delivered as.
pub fn pointer_event_for_mouse(pressed: bool) -> (e: UiEvent)
    ensures
        pressed ==> e is Press,
        !pressed ==> e is Release,
{
    if pressed {
        UiEvent::Press
    } else {
        UiEvent::Release
    }
}

/// Axis masking of a drag delta: `Locked` suppresses both components,
/// `X` and `Y` pass one component through, `Both` passes the delta
/// unmasked.
pub open spec fn spec_mask(axis: DragAxis, d: Vec2) -> Vec2 {
    match axis {
        DragAxis::Locked => Vec2 { x: 0i64, y: 0i64 },
        DragAxis::X => Vec2 { x: d.x, y: 0i64 },
        DragAxis::Y => Vec2 { x: 0i64, y: d.y },
        DragAxis::Both => d,
    }
}

/// Executable axis masking.
pub fn mask_delta(axis: DragAxis, d: Vec2) -> (r: Vec2)
    ensures
        r == spec_mask(axis, d),
{
    match axis {
        DragAxis::Locked => Vec2 { x: 0, y: 0 },
        DragAxis::X => Vec2 { x: d.x, y: 0 },
        DragAxis::Y => Vec2 { x: 0, y: d.y },
        DragAxis::Both => d,
    }
}

/// The topmost element of the subtree rooted at `i` that contains `p`:
/// an invisible node or one whose box misses `p` hides its whole
/// subtree; otherwise children are consulted in reverse declaration
/// order (paint order, topmost first) and the node itself is the hit
/// only when no child claims it.
pub open spec fn hit(nodes: Seq<UiElement>, i: int, p: Vec2) -> Option<int>
    decreases nodes.len() - i, 1int, 0int
        when wf_nodes(nodes) && 0 <= i < nodes.len()
{
    if !nodes[i].visible || !inside(nodes[i].computed.pos, nodes[i].computed.size, p) {
        None
    } else {
        match hit_children(nodes, i, nodes[i].children@.len() as int, p) {
            Some(t) => Some(t),
            None => Some(i),
        }
    }
}

/// The topmost hit among the first `k` children of node `i` (the later
/// a child is declared, the earlier it is tested).
pub open spec fn hit_children(nodes: Seq<UiElement>, i: int, k: int, p: Vec2) -> Option<int>
    decreases nodes.len() - i, 0int, k
        when wf_nodes(nodes) && 0 <= i < nodes.len() && 0 <= k <= nodes[i].children@.len()
            && crate::layout::children_in_range(nodes, i)
{
    if k <= 0 {
        None
    } else {
        let c = nodes[i].children@[k - 1] as int;
        match hit(nodes, c, p) {
            Some(t) => Some(t),
            None => hit_children(nodes, i, k - 1, p),
        }
    }
}

/// The topmost hit among the first `k` top-level elements.
pub open spec fn hit_forest(nodes: Seq<UiElement>, roots: Seq<usize>, k: int, p: Vec2) -> Option<
    int,
>
    decreases k
        when wf_nodes(nodes) && 0 <= k <= roots.len() && (forall|j: int|
            0 <= j < roots.len() ==> #[trigger] roots[j] < nodes.len())
{
    if k <= 0 {
        None
    } else {
        let r = roots[k - 1] as int;
        match hit(nodes, r, p) {
            Some(t) => Some(t),
            None => hit_forest(nodes, roots, k - 1, p),
        }
    }
}

/// A hit lies inside the searched subtree's index range.
pub proof fn lemma_hit_in_range(nodes: Seq<UiElement>, i: int, p: Vec2)
    requires
        wf_nodes(nodes),
        0 <= i < nodes.len(),
    ensures
        hit(nodes, i, p) matches Some(t) ==> i <= t < nodes.len(),
    decreases nodes.len() - i, 1int, 0int,
{
    crate::layout::lemma_children_in_range(nodes, i);
    lemma_hit_children_in_range(nodes, i, nodes[i].children@.len() as int, p);
}

pub proof fn lemma_hit_children_in_range(nodes: Seq<UiElement>, i: int, k: int, p: Vec2)
    requires
        wf_nodes(nodes),
        0 <= i < nodes.len(),
        0 <= k <= nodes[i].children@.len(),
    ensures
        hit_children(nodes, i, k, p) matches Some(t) ==> i < t < nodes.len(),
    decreases nodes.len() - i, 0int, k,
{
    crate::layout::lemma_children_in_range(nodes, i);
    if k > 0 {
        let c = nodes[i].children@[k - 1] as int;
        lemma_hit_in_range(nodes, c, p);
        lemma_hit_children_in_range(nodes, i, k - 1, p);
    }
}

pub proof fn lemma_hit_forest_in_range(nodes: Seq<UiElement>, roots: Seq<usize>, k: int, p: Vec2)
    requires
        wf_nodes(nodes),
        0 <= k <= roots.len(),
        forall|j: int| 0 <= j < roots.len() ==> #[trigger] roots[j] < nodes.len(),
    ensures
        hit_forest(nodes, roots, k, p) matches Some(t) ==> 0 <= t < nodes.len(),
    decreases k,
{
    if k > 0 {
        lemma_hit_in_range(nodes, roots[k - 1] as int, p);
        lemma_hit_forest_in_range(nodes, roots, k - 1, p);
    }
}

/// A button widget with its interaction state replaced.
pub open spec fn with_button_interaction(w: Widget, v: Interaction) -> Widget {
    match w {
        Widget::Button { hover_style, press_style, .. } => Widget::Button {
            interaction: v,
            hover_style,
            press_style,
        },
        _ => w,
    }
}

/// A check box widget with its hover mark replaced.
pub open spec fn with_checkbox_selected(w: Widget, v: bool) -> Widget {
    match w {
        Widget::CheckBox { pressed, enabled, hover_style, press_style, .. } => Widget::CheckBox {
            selected: v,
            pressed,
            enabled,
            hover_style,
            press_style,
        },
        _ => w,
    }
}

/// A check box widget with its pressed mark replaced.
pub open spec fn with_checkbox_pressed(w: Widget, v: bool) -> Widget {
    match w {
        Widget::CheckBox { selected, enabled, hover_style, press_style, .. } => Widget::CheckBox {
            selected,
            pressed: v,
            enabled,
            hover_style,
            press_style,
        },
        _ => w,
    }
}

/// A check box widget with pressed cleared and, when `toggle` holds, the
/// persistent enabled state flipped.
pub open spec fn checkbox_released(w: Widget, toggle: bool) -> Widget {
    match w {
        Widget::CheckBox { selected, enabled, hover_style, press_style, .. } => Widget::CheckBox {
            selected,
            pressed: false,
            enabled: if toggle {
                !enabled
            } else {
                enabled
            },
            hover_style,
            press_style,
        },
        _ => w,
    }
}

/// A drag box widget with its interaction state replaced.
pub open spec fn with_dragbox_interaction(w: Widget, v: Interaction) -> Widget {
    match w {
        Widget::DragBox { axis, .. } => Widget::DragBox { interaction: v, axis },
        _ => w,
    }
}

/// The hover demotion applied to a previously selected element when a
/// new element claims hover in the same pass: a button drops to idle, a
/// check box loses its hover mark, either is marked dirty; any other
/// widget is left alone.
pub open spec fn demoted(e: UiElement) -> UiElement {
    match e.widget {
        Widget::Button { .. } => UiElement {
            widget: with_button_interaction(e.widget, Interaction::Idle),
            dirty: true,
            ..e
        },
        Widget::CheckBox { .. } => UiElement {
            widget: with_checkbox_selected(e.widget, false),
            dirty: true,
            ..e
        },
        _ => e,
    }
}

/// Phase one: the transition of the hit element `t` under `event`,
/// following the per-variant transition table.  Yields the new state,
/// the outcome code, and the callbacks that fired.
pub open spec fn phase_hit(s: UiView, t: int, event: UiEvent) -> (UiView, int, Seq<UiAction>) {
    match event {
        UiEvent::Press => match s.nodes[t].widget {
            Widget::Button { .. } => {
                let e2 = UiElement {
                    widget: with_button_interaction(s.nodes[t].widget, Interaction::Pressed),
                    dirty: true,
                    ..s.nodes[t]
                };
                (
                    UiView { nodes: s.nodes.update(t, e2), pressed: Some(t as usize), ..s },
                    3,
                    seq![UiAction::BeforePress { element: t as usize }],
                )
            },
            Widget::DragBox { .. } => {
                let e2 = UiElement {
                    widget: with_dragbox_interaction(s.nodes[t].widget, Interaction::Pressed),
                    dirty: true,
                    ..s.nodes[t]
                };
                (
                    UiView { nodes: s.nodes.update(t, e2), pressed: Some(t as usize), ..s },
                    1,
                    Seq::<UiAction>::empty(),
                )
            },
            Widget::CheckBox { .. } => {
                let e2 = UiElement {
                    widget: with_checkbox_pressed(s.nodes[t].widget, true),
                    dirty: true,
                    ..s.nodes[t]
                };
                (
                    UiView { nodes: s.nodes.update(t, e2), pressed: Some(t as usize), ..s },
                    3,
                    Seq::<UiAction>::empty(),
                )
            },
            _ => (s, 1, Seq::<UiAction>::empty()),
        },
        UiEvent::Release => (s, 1, Seq::<UiAction>::empty()),
        UiEvent::Move => match s.nodes[t].widget {
            Widget::Button { interaction, .. } => {
                if !(interaction is Hover) {
                    (hover_claim(s, t, true), 3, Seq::<UiAction>::empty())
                } else {
                    (s, 2, Seq::<UiAction>::empty())
                }
            },
            Widget::CheckBox { selected, .. } => {
                if !selected {
                    (hover_claim(s, t, false), 3, Seq::<UiAction>::empty())
                } else {
                    (s, 2, Seq::<UiAction>::empty())
                }
            },
            _ => (s, 1, Seq::<UiAction>::empty()),
        },
    }
}

/// A move over a not-yet-hovered button or check box claims the hover
/// role: the element takes its hover state, the previously selected
/// element (possibly the same one) is demoted, the `selected` slot moves
/// here and the element is marked dirty.
pub open spec fn hover_claim(s: UiView, t: int, is_button: bool) -> UiView {
    let w2 = if is_button {
        with_button_interaction(s.nodes[t].widget, Interaction::Hover)
    } else {
        with_checkbox_selected(s.nodes[t].widget, true)
    };
    let n1 = s.nodes.update(t, UiElement { widget: w2, ..s.nodes[t] });
    let n2 = match s.selected {
        Some(j) => n1.update(j as int, demoted(n1[j as int])),
        None => n1,
    };
    let n3 = n2.update(t, UiElement { dirty: true, ..n2[t] });
    UiView { nodes: n3, selected: Some(t as usize), ..s }
}

/// Phase two of the root update: when the pass produced no claim
/// (outcome 0 or 1) and an element still holds hover focus, the cursor
/// has left it: clear the slot, demote its state if it was hovered, and
/// report a state change.
pub open spec fn hover_exit(s: UiView, code: int) -> (UiView, int) {
    if code < 2 && s.selected is Some {
        let j = s.selected->0;
        let s1 = UiView { selected: None, ..s };
        match s.nodes[j as int].widget {
            Widget::Button { interaction, .. } => {
                if interaction is Hover {
                    (
                        UiView {
                            nodes: s1.nodes.update(j as int, demoted(s.nodes[j as int])),
                            dirty: true,
                            ..s1
                        },
                        3,
                    )
                } else {
                    (s1, code)
                }
            },
            Widget::CheckBox { selected, .. } => {
                if selected {
                    (
                        UiView {
                            nodes: s1.nodes.update(j as int, demoted(s.nodes[j as int])),
                            dirty: true,
                            ..s1
                        },
                        3,
                    )
                } else {
                    (s1, code)
                }
            },
            _ => (s1, code),
        }
    } else {
        (s, code)
    }
}

/// The masked movement vector a captured drag box receives for a move
/// to `cursor`: the difference to the stored cursor position, clamped
/// per component, then axis-masked.
pub open spec fn drag_delta(s: UiView, p: int, cursor: Vec2) -> Vec2 {
    let axis = s.nodes[p].widget->DragBox_axis;
    spec_mask(
        axis,
        Vec2 {
            x: sat64(cursor.x - s.cursor_pos.x) as i64,
            y: sat64(cursor.y - s.cursor_pos.y) as i64,
        },
    )
}

/// The element a drag moves: an inline drag box with a parent drags the
/// parent panel, anything else drags itself.
pub open spec fn drag_target(s: UiView, p: int) -> int {
    if s.nodes[p].style.position is Inline && s.nodes[p].parent is Some {
        s.nodes[p].parent->0 as int
    } else {
        p
    }
}

/// An element shifted by a drag vector (derived position only).
pub open spec fn shifted(e: UiElement, d: Vec2) -> UiElement {
    UiElement {
        computed: crate::style::Computed {
            pos: Vec2 {
                x: sat64(e.computed.pos.x + d.x) as i64,
                y: sat64(e.computed.pos.y + d.y) as i64,
            },
            ..e.computed
        },
        ..e
    }
}

/// Phase three: unconditional capture delivery to the pressed element,
/// independent of the hit-test result — pointer capture bypasses box
/// membership.
pub open spec fn capture(s: UiView, code: int, cursor: Vec2, event: UiEvent) -> (
    UiView,
    int,
    Seq<UiAction>,
) {
    if s.pressed is Some {
        let pu = s.pressed->0;
        let p = pu as int;
        match event {
            UiEvent::Move => match s.nodes[p].widget {
                Widget::DragBox { .. } => {
                    let d = drag_delta(s, p, cursor);
                    let tgt = drag_target(s, p);
                    (
                        UiView { nodes: s.nodes.update(tgt, shifted(s.nodes[tgt], d)), ..s },
                        3,
                        seq![UiAction::OnDrag { element: pu, delta: d }],
                    )
                },
                _ => (s, code, Seq::<UiAction>::empty()),
            },
            UiEvent::Release => match s.nodes[p].widget {
                Widget::Button { .. } => {
                    let is_in = inside(s.nodes[p].computed.pos, s.nodes[p].computed.size, cursor);
                    let e2 = UiElement {
                        widget: with_button_interaction(s.nodes[p].widget, Interaction::Idle),
                        dirty: true,
                        ..s.nodes[p]
                    };
                    (
                        UiView { nodes: s.nodes.update(p, e2), pressed: None, ..s },
                        3,
                        if is_in {
                            seq![UiAction::OnPress { element: pu }]
                        } else {
                            Seq::<UiAction>::empty()
                        },
                    )
                },
                Widget::CheckBox { enabled, .. } => {
                    let is_in = inside(s.nodes[p].computed.pos, s.nodes[p].computed.size, cursor);
                    let e2 = UiElement {
                        widget: checkbox_released(s.nodes[p].widget, is_in),
                        dirty: true,
                        ..s.nodes[p]
                    };
                    (
                        UiView { nodes: s.nodes.update(p, e2), ..s },
                        3,
                        if is_in {
                            if enabled {
                                seq![UiAction::OnDisable { element: pu }]
                            } else {
                                seq![UiAction::OnEnable { element: pu }]
                            }
                        } else {
                            Seq::<UiAction>::empty()
                        },
                    )
                },
                Widget::DragBox { .. } => {
                    let e2 = UiElement {
                        widget: with_dragbox_interaction(s.nodes[p].widget, Interaction::Idle),
                        ..s.nodes[p]
                    };
                    (
                        UiView { nodes: s.nodes.update(p, e2), pressed: None, ..s },
                        code,
                        Seq::<UiAction>::empty(),
                    )
                },
                _ => (s, code, Seq::<UiAction>::empty()),
            },
            UiEvent::Press => (s, code, Seq::<UiAction>::empty()),
        }
    } else {
        (s, code, Seq::<UiAction>::empty())
    }
}

/// Only derived state, widget payloads and flags change across a
/// transition; the structure read by `wf_node` survives any single-node
/// update that keeps children, parent and order.
pub open spec fn same_shape(a: UiElement, b: UiElement) -> bool {
    &&& b.children == a.children
    &&& b.parent == a.parent
    &&& b.order == a.order
}

/// A pass that keeps every node's shape (children, parent, order) keeps
/// structural well-formedness of the arena and of the forest.
pub proof fn lemma_wf_shape_preserved(s: UiView, post: UiView)
    requires
        wf_nodes(s.nodes),
        wf_roots(s),
        post.nodes.len() == s.nodes.len(),
        forall|j: int| 0 <= j < s.nodes.len() ==> same_shape(s.nodes[j], #[trigger] post.nodes[j]),
        post.roots == s.roots,
    ensures
        wf_nodes(post.nodes),
        wf_roots(post),
{
    assert forall|i: int| 0 <= i < post.nodes.len() implies #[trigger] wf_node(post.nodes, i) by {
        assert(wf_node(s.nodes, i));
        assert(same_shape(s.nodes[i], post.nodes[i]));
        assert forall|k: int| 0 <= k < post.nodes[i].children@.len() implies {
            let c = #[trigger] post.nodes[i].children@[k];
            &&& i < c < post.nodes.len()
            &&& post.nodes[c as int].parent == Some(i as usize)
            &&& post.nodes[c as int].order == k
        } by {
            let c = post.nodes[i].children@[k];
            assert(c == s.nodes[i].children@[k]);
            assert(same_shape(s.nodes[c as int], post.nodes[c as int]));
        }
    }
    assert forall|k: int| 0 <= k < post.roots.len() implies {
        let r = #[trigger] post.roots[k];
        &&& r < post.nodes.len()
        &&& post.nodes[r as int].parent is None
        &&& post.nodes[r as int].order == k
    } by {
        let r = post.roots[k];
        assert(s.roots[k] == r);
        assert(same_shape(s.nodes[r as int], post.nodes[r as int]));
    }
}

/// A single-node update that keeps the node's shape keeps structural
/// well-formedness of the arena and of the forest.
pub proof fn lemma_wf_structure_update(s: UiView, post: UiView, t: int)
    requires
        wf_nodes(s.nodes),
        wf_roots(s),
        0 <= t < s.nodes.len(),
        post.nodes.len() == s.nodes.len(),
        forall|j: int| 0 <= j < s.nodes.len() && j != t ==> post.nodes[j] == s.nodes[j],
        same_shape(s.nodes[t], post.nodes[t]),
        post.roots == s.roots,
    ensures
        wf_nodes(post.nodes),
        wf_roots(post),
{
    assert forall|i: int| 0 <= i < post.nodes.len() implies #[trigger] wf_node(post.nodes, i) by {
        assert(wf_node(s.nodes, i));
        assert(post.nodes[i].children == s.nodes[i].children);
        assert forall|k: int| 0 <= k < post.nodes[i].children@.len() implies {
            let c = #[trigger] post.nodes[i].children@[k];
            &&& i < c < post.nodes.len()
            &&& post.nodes[c as int].parent == Some(i as usize)
            &&& post.nodes[c as int].order == k
        } by {
            let c = post.nodes[i].children@[k];
            assert(c == s.nodes[i].children@[k]);
        }
    }
    assert forall|k: int| 0 <= k < post.roots.len() implies {
        let r = #[trigger] post.roots[k];
        &&& r < post.nodes.len()
        &&& post.nodes[r as int].parent is None
        &&& post.nodes[r as int].order == k
    } by {
        let r = post.roots[k];
        assert(s.roots[k] == r);
    }
}

/// The hit-phase transition preserves the whole invariant; in
/// particular a hover claim keeps hover exclusivity, because the
/// previously selected element is demoted in the same step.
pub proof fn lemma_phase_hit_wf(s: UiView, t: int, event: UiEvent)
    requires
        wf(s),
        0 <= t < s.nodes.len(),
    ensures
        wf(phase_hit(s, t, event).0),
{
    let post = phase_hit(s, t, event).0;
    match event {
        UiEvent::Press => {
            if s.nodes[t].widget is Button || s.nodes[t].widget is DragBox || s.nodes[t].widget
                is CheckBox {
                lemma_wf_structure_update(s, post, t);
                assert forall|i: int|
                    0 <= i < post.nodes.len() && spec_hovered(
                        #[trigger] post.nodes[i],
                    ) implies post.selected == Some(i as usize) by {
                    assert(spec_hovered(s.nodes[i]));
                }
            }
        },
        UiEvent::Release => {},
        UiEvent::Move => {
            match s.nodes[t].widget {
                Widget::Button { interaction, .. } => {
                    if !(interaction is Hover) {
                        lemma_hover_claim_wf(s, t, true);
                    }
                },
                Widget::CheckBox { selected, .. } => {
                    if !selected {
                        lemma_hover_claim_wf(s, t, false);
                    }
                },
                _ => {},
            }
        },
    }
}

/// A hover claim leaves exactly the claiming element (or, when it
/// demoted itself, no element) hovered, with the `selected` slot on it.
pub proof fn lemma_hover_claim_wf(s: UiView, t: int, is_button: bool)
    requires
        wf(s),
        0 <= t < s.nodes.len(),
        is_button ==> s.nodes[t].widget is Button,
        !is_button ==> s.nodes[t].widget is CheckBox,
    ensures
        wf(hover_claim(s, t, is_button)),
{
    let post = hover_claim(s, t, is_button);
    let n1 = s.nodes.update(
        t,
        UiElement {
            widget: if is_button {
                with_button_interaction(s.nodes[t].widget, Interaction::Hover)
            } else {
                with_checkbox_selected(s.nodes[t].widget, true)
            },
            ..s.nodes[t]
        },
    );
    assert forall|i: int| 0 <= i < post.nodes.len() implies #[trigger] wf_node(post.nodes, i) by {
        assert(wf_node(s.nodes, i));
        assert(post.nodes[i].children == s.nodes[i].children);
        assert forall|k: int| 0 <= k < post.nodes[i].children@.len() implies {
            let c = #[trigger] post.nodes[i].children@[k];
            &&& i < c < post.nodes.len()
            &&& post.nodes[c as int].parent == Some(i as usize)
            &&& post.nodes[c as int].order == k
        } by {
            let c = post.nodes[i].children@[k];
            assert(c == s.nodes[i].children@[k]);
        }
    }
    assert forall|k: int| 0 <= k < post.roots.len() implies {
        let r = #[trigger] post.roots[k];
        &&& r < post.nodes.len()
        &&& post.nodes[r as int].parent is None
        &&& post.nodes[r as int].order == k
    } by {
        let r = post.roots[k];
        assert(s.roots[k] == r);
        assert(post.nodes[r as int].parent == s.nodes[r as int].parent);
        assert(post.nodes[r as int].order == s.nodes[r as int].order);
    }
    assert forall|i: int|
        0 <= i < post.nodes.len() && spec_hovered(#[trigger] post.nodes[i]) implies post.selected
        == Some(i as usize) by {
        if i != t {
            match s.selected {
                Some(j) => {
                    if i != j as int {
                        assert(post.nodes[i] == s.nodes[i]);
                        assert(spec_hovered(s.nodes[i]));
                        assert(s.selected == Some(i as usize));
                        assert(false);
                    } else {
                        assert(!spec_hovered(post.nodes[i]));
                    }
                },
                None => {
                    assert(post.nodes[i] == s.nodes[i]);
                    assert(spec_hovered(s.nodes[i]));
                    assert(false);
                },
            }
        }
    }
}

/// Hover exit preserves the invariant: afterwards no element is hovered
/// and the slot is empty (or nothing changed).
pub proof fn lemma_hover_exit_wf(s: UiView, code: int)
    requires
        wf(s),
    ensures
        wf(hover_exit(s, code).0),
{
    let post = hover_exit(s, code).0;
    if code < 2 && s.selected is Some {
        let j = s.selected->0 as int;
        lemma_wf_structure_update(s, post, j);
        assert forall|i: int|
            0 <= i < post.nodes.len() && spec_hovered(
                #[trigger] post.nodes[i],
            ) implies post.selected == Some(i as usize) by {
            if i != j {
                assert(post.nodes[i] == s.nodes[i]);
                assert(spec_hovered(s.nodes[i]));
                assert(false);
            } else {
                assert(!spec_hovered(post.nodes[i]));
                assert(false);
            }
        }
    }
}

/// Capture delivery preserves the invariant: it only rewrites widget
/// payloads, derived positions and the pressed slot.
pub proof fn lemma_capture_wf(s: UiView, code: int, cursor: Vec2, event: UiEvent)
    requires
        wf(s),
    ensures
        wf(capture(s, code, cursor, event).0),
{
    let post = capture(s, code, cursor, event).0;
    if s.pressed is Some {
        let p = s.pressed->0 as int;
        match event {
            UiEvent::Move => {
                if s.nodes[p].widget is DragBox {
                    let tgt = drag_target(s, p);
                    assert(wf_node(s.nodes, p));
                    assert(0 <= tgt < s.nodes.len());
                    lemma_wf_structure_update(s, post, tgt);
                    assert forall|i: int|
                        0 <= i < post.nodes.len() && spec_hovered(
                            #[trigger] post.nodes[i],
                        ) implies post.selected == Some(i as usize) by {
                        assert(post.nodes[i].widget == s.nodes[i].widget);
                        assert(spec_hovered(s.nodes[i]));
                    }
                    match s.selected {
                        Some(j) => {
                            assert(post.nodes[j as int].widget == s.nodes[j as int].widget);
                        },
                        None => {},
                    }
                }
            },
            UiEvent::Release => {
                if s.nodes[p].widget is Button || s.nodes[p].widget is CheckBox || s.nodes[p].widget
                    is DragBox {
                    lemma_wf_structure_update(s, post, p);
                    assert forall|i: int|
                        0 <= i < post.nodes.len() && spec_hovered(
                            #[trigger] post.nodes[i],
                        ) implies post.selected == Some(i as usize) by {
                        assert(spec_hovered(s.nodes[i]));
                    }
                    match s.selected {
                        Some(j) => {
                            if j as int == p {
                                assert(post.nodes[j as int].widget is Button
                                    <==> s.nodes[j as int].widget is Button);
                                assert(post.nodes[j as int].widget is CheckBox
                                    <==> s.nodes[j as int].widget is CheckBox);
                            }
                        },
                        None => {},
                    }
                }
            },
            UiEvent::Press => {},
        }
    }
}

/// One whole pointer event preserves the invariant.
pub proof fn lemma_update_spec_wf(s: UiView, cursor: Vec2, event: UiEvent)
    requires
        wf(s),
    ensures
        wf(update_spec(s, cursor, event).0),
{
    let h = hit_forest(s.nodes, s.roots, s.roots.len() as int, cursor);
    lemma_hit_forest_in_range(s.nodes, s.roots, s.roots.len() as int, cursor);
    let (s1, c1, a1) = match h {
        Some(t) => phase_hit(s, t, event),
        None => (s, 0, Seq::<UiAction>::empty()),
    };
    match h {
        Some(t) => {
            lemma_phase_hit_wf(s, t, event);
        },
        None => {},
    }
    let (s2, c2) = hover_exit(s1, c1);
    lemma_hover_exit_wf(s1, c1);
    let (s3, c3, a3) = capture(s2, c2, cursor, event);
    lemma_capture_wf(s2, c2, cursor, event);
}

/// One whole pointer event: hit-test pass, hover exit, capture delivery,
/// then the root dirty mark for a new outcome and the unconditional
/// cursor store.
pub open spec fn update_spec(s: UiView, cursor: Vec2, event: UiEvent) -> (
    UiView,
    int,
    Seq<UiAction>,
) {
    let h = hit_forest(s.nodes, s.roots, s.roots.len() as int, cursor);
    let (s1, c1, a1) = match h {
        Some(t) => phase_hit(s, t, event),
        None => (s, 0, Seq::<UiAction>::empty()),
    };
    let (s2, c2) = hover_exit(s1, c1);
    let (s3, c3, a3) = capture(s2, c2, cursor, event);
    (
        UiView { dirty: s3.dirty || c3 == 3, cursor_pos: cursor, ..s3 },
        c3,
        a1 + a3,
    )
}

impl UiState {
    /// Hit-test dispatch over the subtree rooted at `i`: find the
    /// topmost visible element containing the cursor and apply its
    /// transition.  Returns `0` untouched when the subtree misses.
    #[verifier::loop_isolation(false)]
    fn dispatch_node(&mut self, i: usize, cursor: Vec2, event: UiEvent, actions: &mut Vec<
        UiAction,
    >) -> (r: u8)
        requires
            wf(old(self)@),
            i < old(self)@.nodes.len(),
        ensures
            ({
                match hit(old(self)@.nodes, i as int, cursor) {
                    Option::None => final(self)@ == old(self)@ && r == 0 && final(actions)@ == old(
                        actions,
                    )@,
                    Option::Some(t) => ({
                        let (s1, c1, a1) = phase_hit(old(self)@, t, event);
                        &&& final(self)@ == s1
                        &&& r as int == c1
                        &&& final(actions)@ == old(actions)@ + a1
                    }),
                }
            }),
        decreases old(self)@.nodes.len() - i,
    {
        let ghost s0 = self@;
        proof {
            assert(wf_node(s0.nodes, i as int));
            crate::layout::lemma_children_in_range(s0.nodes, i as int);
        }
        if !self.nodes[i].visible {
            return 0;
        }
        let pos = self.nodes[i].computed.pos;
        let size = self.nodes[i].computed.size;
        if !contains_point(pos, size, cursor) {
            return 0;
        }
        let n = self.nodes[i].children.len();
        let mut k: usize = n;
        while k > 0
            invariant
                k <= n,
                self@ == s0,
                actions@ == old(actions)@,
                hit_children(s0.nodes, i as int, n as int, cursor) == hit_children(
                    s0.nodes,
                    i as int,
                    k as int,
                    cursor,
                ),
            decreases k,
        {
            let c = self.nodes[i].children[k - 1];
            proof {
                assert(i < c < s0.nodes.len());
            }
            let res = self.dispatch_node(c, cursor, event, actions);
            if res > 0 {
                proof {
                    assert(hit(s0.nodes, c as int, cursor) is Some);
                    assert(hit_children(s0.nodes, i as int, k as int, cursor) == hit(
                        s0.nodes,
                        c as int,
                        cursor,
                    ));
                    assert(hit(s0.nodes, i as int, cursor) == hit(s0.nodes, c as int, cursor));
                }
                return res;
            }
            k = k - 1;
        }
        proof {
            assert(hit_children(s0.nodes, i as int, 0int, cursor) is None);
            assert(hit(s0.nodes, i as int, cursor) == Some(i as int));
        }
        match event {
            UiEvent::Press => {
                let code: u8;
                let mut fire_before = false;
                match &mut self.nodes[i].widget {
                    Widget::Button { interaction, .. } => {
                        *interaction = Interaction::Pressed;
                        code = 3;
                        fire_before = true;
                    },
                    Widget::DragBox { interaction, .. } => {
                        *interaction = Interaction::Pressed;
                        code = 1;
                    },
                    Widget::CheckBox { pressed, .. } => {
                        *pressed = true;
                        code = 3;
                    },
                    _ => {
                        code = 0;
                    },
                }
                if code == 0 {
                    proof {
                        assert(self@ =~= s0);
                    }
                    return 1;
                }
                self.nodes[i].dirty = true;
                self.pressed = Some(i);
                if fire_before {
                    actions.push(UiAction::BeforePress { element: i });
                }
                proof {
                    assert(self@ =~= phase_hit(s0, i as int, event).0);
                    assert(final(actions)@ == old(actions)@ + phase_hit(s0, i as int, event).2);
                }
                code
            },
            UiEvent::Release => {
                1
            },
            UiEvent::Move => {
                let claims: bool;
                let already: bool;
                match &self.nodes[i].widget {
                    Widget::Button { interaction, .. } => {
                        claims = true;
                        already = *interaction == Interaction::Hover;
                    },
                    Widget::CheckBox { selected, .. } => {
                        claims = true;
                        already = *selected;
                    },
                    _ => {
                        claims = false;
                        already = false;
                    },
                }
                if !claims {
                    return 1;
                }
                if already {
                    return 2;
                }
                match &mut self.nodes[i].widget {
                    Widget::Button { interaction, .. } => {
                        *interaction = Interaction::Hover;
                    },
                    Widget::CheckBox { selected, .. } => {
                        *selected = true;
                    },
                    _ => {},
                }
                if let Some(j) = self.selected {
                    let mut demote_dirty = false;
                    match &mut self.nodes[j].widget {
                        Widget::Button { interaction, .. } => {
                            *interaction = Interaction::Idle;
                            demote_dirty = true;
                        },
                        Widget::CheckBox { selected, .. } => {
                            *selected = false;
                            demote_dirty = true;
                        },
                        _ => {},
                    }
                    if demote_dirty {
                        self.nodes[j].dirty = true;
                    }
                }
                self.selected = Some(i);
                self.nodes[i].dirty = true;
                proof {
                    assert(self@ =~= phase_hit(s0, i as int, event).0);
                }
                3
            },
        }
    }

    /// Shift an element's derived position by `delta`: a drag applied to
    /// the element itself.  The host may use this to apply an overridden
    /// drag vector after an `OnDrag` action.
    pub fn move_element(&mut self, i: usize, delta: Vec2)
        requires
            wf(old(self)@),
            i < old(self)@.nodes.len(),
        ensures
            final(self)@ == (UiView {
                nodes: old(self)@.nodes.update(
                    i as int,
                    shifted(old(self)@.nodes[i as int], delta),
                ),
                ..old(self)@
            }),
            wf(final(self)@),
    {
        let px = self.nodes[i].computed.pos.x;
        let py = self.nodes[i].computed.pos.y;
        let e = &mut self.nodes[i];
        e.computed.pos = Vec2 { x: sat_add(px, delta.x), y: sat_add(py, delta.y) };
        proof {
            assert(self@.nodes =~= old(self)@.nodes.update(
                i as int,
                shifted(old(self)@.nodes[i as int], delta),
            ));
            lemma_wf_structure_update(old(self)@, self@, i as int);
            assert forall|n: int|
                0 <= n < self@.nodes.len() && spec_hovered(
                    #[trigger] self@.nodes[n],
                ) implies self@.selected == Some(n as usize) by {
                assert(self@.nodes[n].widget == old(self)@.nodes[n].widget);
                assert(spec_hovered(old(self)@.nodes[n]));
            }
            match self@.selected {
                Some(j) => {
                    assert(self@.nodes[j as int].widget == old(self)@.nodes[j as int].widget);
                },
                None => {},
            }
        }
    }

    /// The hover-exit step of the root update: when the hit-test pass
    /// made no claim, the previously hovered element is demoted and the
    /// `selected` slot cleared.
    fn hover_exit_pass(&mut self, code: u8) -> (r: u8)
        requires
            wf(old(self)@),
        ensures
            ({
                let (s2, c2) = hover_exit(old(self)@, code as int);
                &&& final(self)@ == s2
                &&& r as int == c2
            }),
            wf(final(self)@),
    {
        let ghost s1v = self@;
        let mut bol = code;
        if bol < 2 {
            if let Some(j) = self.selected {
                self.selected = None;
                let mut changed = false;
                match &mut self.nodes[j].widget {
                    Widget::Button { interaction, .. } => {
                        if *interaction == Interaction::Hover {
                            *interaction = Interaction::Idle;
                            changed = true;
                        }
                    },
                    Widget::CheckBox { selected, .. } => {
                        if *selected {
                            *selected = false;
                            changed = true;
                        }
                    },
                    _ => {},
                }
                if changed {
                    self.nodes[j].dirty = true;
                    self.dirty = true;
                    bol = 3;
                }
            }
        }
        proof {
            assert(self@ =~= hover_exit(s1v, code as int).0);
            lemma_hover_exit_wf(s1v, code as int);
        }
        bol
    }

    /// The capture-delivery step of the root update: the pressed element
    /// receives the event regardless of box membership.
    fn capture_pass(&mut self, code: u8, cursor_pos: Vec2, event: UiEvent, actions: &mut Vec<
        UiAction,
    >) -> (r: u8)
        requires
            wf(old(self)@),
        ensures
            ({
                let (s3, c3, a3) = capture(old(self)@, code as int, cursor_pos, event);
                &&& final(self)@ == s3
                &&& r as int == c3
                &&& final(actions)@ == old(actions)@ + a3
            }),
            wf(final(self)@),
    {
        let ghost s2v = self@;
        let mut bol = code;
        if let Some(p) = self.pressed {
            match event {
                UiEvent::Move => {
                    let is_drag: bool;
                    let axis: DragAxis;
                    match &self.nodes[p].widget {
                        Widget::DragBox { axis: a, .. } => {
                            is_drag = true;
                            axis = *a;
                        },
                        _ => {
                            is_drag = false;
                            axis = DragAxis::Locked;
                        },
                    }
                    if is_drag {
                        let dx = sat_sub(cursor_pos.x, self.cursor_pos.x);
                        let dy = sat_sub(cursor_pos.y, self.cursor_pos.y);
                        let d = mask_delta(axis, Vec2 { x: dx, y: dy });
                        let inline_child: bool;
                        match (&self.nodes[p].style.position, &self.nodes[p].parent) {
                            (Position::Inline { .. }, Option::Some(_)) => {
                                inline_child = true;
                            },
                            _ => {
                                inline_child = false;
                            },
                        }
                        let tgt: usize;
                        if inline_child {
                            match self.nodes[p].parent {
                                Option::Some(par) => {
                                    tgt = par;
                                },
                                Option::None => {
                                    tgt = p;
                                },
                            }
                        } else {
                            tgt = p;
                        }
                        proof {
                            assert(wf_node(s2v.nodes, p as int));
                            assert(tgt < s2v.nodes.len());
                            assert(tgt as int == drag_target(s2v, p as int));
                            assert(d == drag_delta(s2v, p as int, cursor_pos));
                        }
                        let px = self.nodes[tgt].computed.pos.x;
                        let py = self.nodes[tgt].computed.pos.y;
                        let e = &mut self.nodes[tgt];
                        e.computed.pos = Vec2 { x: sat_add(px, d.x), y: sat_add(py, d.y) };
                        bol = 3;
                        actions.push(UiAction::OnDrag { element: p, delta: d });
                    }
                },
                UiEvent::Release => {
                    let pos = self.nodes[p].computed.pos;
                    let size = self.nodes[p].computed.size;
                    let is_in = contains_point(pos, size, cursor_pos);
                    let kind: u8;
                    let mut was_enabled = false;
                    match &mut self.nodes[p].widget {
                        Widget::Button { interaction, .. } => {
                            *interaction = Interaction::Idle;
                            kind = 1;
                        },
                        Widget::CheckBox { pressed, enabled, .. } => {
                            was_enabled = *enabled;
                            *pressed = false;
                            if is_in {
                                *enabled = !*enabled;
                            }
                            kind = 2;
                        },
                        Widget::DragBox { interaction, .. } => {
                            *interaction = Interaction::Idle;
                            kind = 3;
                        },
                        _ => {
                            kind = 0;
                        },
                    }
                    if kind == 1 {
                        self.nodes[p].dirty = true;
                        bol = 3;
                        if is_in {
                            actions.push(UiAction::OnPress { element: p });
                        }
                        self.pressed = None;
                    } else if kind == 2 {
                        self.nodes[p].dirty = true;
                        bol = 3;
                        if is_in {
                            if was_enabled {
                                actions.push(UiAction::OnDisable { element: p });
                            } else {
                                actions.push(UiAction::OnEnable { element: p });
                            }
                        }
                    } else if kind == 3 {
                        self.pressed = None;
                    }
                },
                UiEvent::Press => {},
            }
        }
        proof {
            assert(self@ =~= capture(s2v, code as int, cursor_pos, event).0);
            lemma_capture_wf(s2v, code as int, cursor_pos, event);
        }
        bol
    }

    /// Apply one pointer event to the whole tree: the paint-order
    /// hit-test pass over the top-level forest, hover exit when no
    /// element claims the pass, then unconditional capture delivery to
    /// the pressed element.  Marks the root dirty on a new outcome and
    /// stores the cursor position unconditionally.  Fired callbacks are
    /// appended to `actions` in firing order.
    #[verifier::loop_isolation(false)]
    #[verifier::rlimit(100)]
    pub fn update_cursor(&mut self, cursor_pos: Vec2, event: UiEvent, actions: &mut Vec<
        UiAction,
    >) -> (r: u8)
        requires
            wf(old(self)@),
        ensures
            ({
                let (s_end, code, acts) = update_spec(old(self)@, cursor_pos, event);
                &&& final(self)@ == s_end
                &&& r as int == code
                &&& final(actions)@ == old(actions)@ + acts
            }),
            wf(final(self)@),
    {
        let ghost s0 = self@;
        let mut bol: u8 = 0;
        let n = self.roots.len();
        let mut k: usize = n;
        let mut found = false;
        while k > 0 && !found
            invariant
                k <= n,
                !found ==> self@ == s0 && actions@ == old(actions)@ && bol == 0 && hit_forest(
                    s0.nodes,
                    s0.roots,
                    n as int,
                    cursor_pos,
                ) == hit_forest(s0.nodes, s0.roots, k as int, cursor_pos),
                found ==> ({
                    let h = hit_forest(s0.nodes, s0.roots, n as int, cursor_pos);
                    &&& h is Some
                    &&& ({
                        let (s1, c1, a1) = phase_hit(s0, h->0, event);
                        &&& self@ == s1
                        &&& bol as int == c1
                        &&& actions@ == old(actions)@ + a1
                    })
                }),
            decreases (if found { 0int } else { 1int }), k,
        {
            let rt = self.roots[k - 1];
            let res = self.dispatch_node(rt, cursor_pos, event, actions);
            if res > 0 {
                proof {
                    assert(hit(s0.nodes, rt as int, cursor_pos) is Some);
                    assert(hit_forest(s0.nodes, s0.roots, k as int, cursor_pos) == hit(
                        s0.nodes,
                        rt as int,
                        cursor_pos,
                    ));
                }
                bol = res;
                found = true;
            } else {
                k = k - 1;
            }
        }
        let ghost h = hit_forest(s0.nodes, s0.roots, n as int, cursor_pos);
        let ghost phase1 = if h is Some {
            phase_hit(s0, h->0, event)
        } else {
            (s0, 0int, Seq::<UiAction>::empty())
        };
        proof {
            if !found {
                assert(hit_forest(s0.nodes, s0.roots, 0int, cursor_pos) is None);
            }
            assert(self@ == phase1.0);
            assert(bol as int == phase1.1);
            assert(actions@ == old(actions)@ + phase1.2);
            if h is Some {
                lemma_hit_forest_in_range(s0.nodes, s0.roots, n as int, cursor_pos);
                lemma_phase_hit_wf(s0, h->0, event);
            }
            assert(wf(self@));
        }
        let ghost s1v = phase1.0;
        let ghost c1v = phase1.1;
        bol = self.hover_exit_pass(bol);
        let ghost s2v = hover_exit(s1v, c1v).0;
        let ghost c2v = hover_exit(s1v, c1v).1;
        bol = self.capture_pass(bol, cursor_pos, event, actions);
        // A new outcome marks the whole tree dirty; the cursor position
        // is stored unconditionally.
        if bol == 3 {
            self.dirty = true;
        }
        self.cursor_pos = cursor_pos;
        proof {
            assert(self@ =~= update_spec(s0, cursor_pos, event).0);
        }
        bol
    }
}

} // verus!
