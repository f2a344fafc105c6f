//! Layout engine: resolves the active style of every node and computes
//! root-relative absolute pixel boxes.
//!
//! Absolute elements anchor inside the parent box and ignore sibling flow;
//! inline elements are placed left to right along a shared line cursor and
//! wrap to a new line when the remaining width on the current line is
//! smaller than their width (row-wrap layout).  The layout of a whole pass
//! is specified as a map from arena index to the freshly laid out element,
//! computed over the pre-pass tree; `rebuild` applies exactly that map.

use vstd::prelude::*;

use crate::geom::{
    Vec2, sat64, sat_add, sat_add3, sat_add4, sat_sub3, max_int, max64,
};
use crate::style::{
    Style, Computed, Position, spec_resolve_x, spec_resolve_y, spec_size_w, spec_size_h,
    spec_anchor_x, spec_anchor_y, resolve_x, resolve_y, size_w, size_h, anchor_x, anchor_y,
};
use crate::element::{UiElement, static_eq, spec_active_style, active_style};
use crate::state::{UiState, UiView, wf, wf_node, wf_nodes, wf_roots, wf_focus};

verus! {

broadcast use vstd::map_lib::group_map_union, vstd::map_lib::group_map_properties;

/// The shared line cursor of one inline flow: the x offset on the current
/// line, the y offset of the line's top, and the running line height.
pub struct Flow {
    pub x: int,
    pub y: int,
    pub h: int,
}

/// Executable line cursor.
#[derive(Clone, Copy, Debug, PartialEq, Eq, Structural)]
pub struct FlowCursor {
    pub x: i64,
    pub y: i64,
    pub h: i64,
}

pub open spec fn flow_of(fc: FlowCursor) -> Flow {
    Flow { x: fc.x as int, y: fc.y as int, h: fc.h as int }
}

pub open spec fn initial_flow() -> Flow {
    Flow { x: 0, y: 0, h: 0 }
}

/// A resolved box before it is stored: position and extent as clamped
/// pixel values.
pub struct PlacedBox {
    pub pos_x: int,
    pub pos_y: int,
    pub w: int,
    pub h: int,
}

/// Place one element with active style `st` against parent box
/// (`psize`, `ppos`) and line cursor `flow`; yields the box and the
/// advanced cursor.
pub open spec fn spec_place(st: Style, psize: Vec2, ppos: Vec2, flow: Flow) -> (PlacedBox, Flow) {
    match st.position {
        Position::Absolute { align, x, y } => {
            let w = spec_size_w(st.width, psize);
            let h = spec_size_h(st.height, psize);
            let px = sat64(spec_anchor_x(align, psize.x as int, w) + spec_resolve_x(x, psize));
            let py = sat64(spec_anchor_y(align, psize.y as int, h) + spec_resolve_y(y, psize));
            (PlacedBox { pos_x: px, pos_y: py, w, h }, flow)
        },
        Position::Inline { margin, .. } => {
            let ml = spec_resolve_x(margin.left, psize);
            let mr = spec_resolve_x(margin.right, psize);
            let mt = spec_resolve_y(margin.top, psize);
            let mb = spec_resolve_y(margin.bottom, psize);
            let space = Vec2 {
                x: sat64(psize.x - ml - mr) as i64,
                y: sat64(psize.y - mt - mb) as i64,
            };
            let w = spec_size_w(st.width, space);
            let h = spec_size_h(st.height, space);
            let f1 = if psize.x - flow.x < w {
                Flow { x: 0, y: sat64(flow.y + flow.h), h: 0 }
            } else {
                flow
            };
            let px = sat64(ppos.x + f1.x + ml);
            let py = sat64(ppos.y + f1.y + mt);
            let f2 = Flow {
                x: sat64(f1.x + w + ml + mr),
                y: f1.y,
                h: max_int(f1.h, sat64(h + mt + mb)),
            };
            (PlacedBox { pos_x: px, pos_y: py, w, h }, f2)
        },
    }
}

/// The element as the layout pass leaves it: the resolved box and the
/// active style's visual attributes in `computed`, the dirty flag
/// cleared, everything else untouched.
pub open spec fn spec_styled_element(e: UiElement, st: Style, pb: PlacedBox) -> UiElement {
    UiElement {
        computed: Computed {
            pos: Vec2 { x: pb.pos_x as i64, y: pb.pos_y as i64 },
            size: Vec2 { x: pb.w as i64, y: pb.h as i64 },
            color: st.color,
            border_color: st.border_color,
            border: st.border.left,
            corner: spec_resolve_x(
                st.corner.top_left,
                Vec2 { x: pb.w as i64, y: pb.h as i64 },
            ) as i64,
        },
        dirty: false,
        ..e
    }
}

/// Layout of the subtree rooted at `i`: the map of updated elements and
/// the line cursor after `i` took its slot in the surrounding flow.
pub open spec fn layout_node(
    nodes: Seq<UiElement>,
    i: int,
    psize: Vec2,
    ppos: Vec2,
    flow: Flow,
) -> (Map<int, UiElement>, Flow)
    decreases nodes.len() - i, 1int, 0int
        when wf_nodes(nodes) && 0 <= i < nodes.len()
{
    let st = spec_active_style(nodes[i]);
    let (pb, f2) = spec_place(st, psize, ppos, flow);
    let me = spec_styled_element(nodes[i], st, pb);
    let my_size = Vec2 { x: pb.w as i64, y: pb.h as i64 };
    let my_pos = Vec2 { x: pb.pos_x as i64, y: pb.pos_y as i64 };
    let (children, _) = layout_children(
        nodes,
        i,
        nodes[i].children@.len() as int,
        my_size,
        my_pos,
    );
    (Map::<int, UiElement>::empty().insert(i, me).union_prefer_right(children), f2)
}

/// Layout of the first `k` children of node `i`, sharing one line cursor
/// that starts fresh inside the parent box.
pub open spec fn layout_children(
    nodes: Seq<UiElement>,
    i: int,
    k: int,
    psize: Vec2,
    ppos: Vec2,
) -> (Map<int, UiElement>, Flow)
    decreases nodes.len() - i, 0int, k
        when wf_nodes(nodes) && 0 <= i < nodes.len() && 0 <= k <= nodes[i].children@.len()
            && children_in_range(nodes, i)
{
    if k <= 0 {
        (Map::<int, UiElement>::empty(), initial_flow())
    } else {
        let (m1, f1) = layout_children(nodes, i, k - 1, psize, ppos);
        let c = nodes[i].children@[k - 1] as int;
        let (m2, f2) = layout_node(nodes, c, psize, ppos, f1);
        (m1.union_prefer_right(m2), f2)
    }
}

/// Layout of the first `k` top-level elements against the viewport; the
/// root forest shares one line cursor like a sibling list.
pub open spec fn layout_forest(
    nodes: Seq<UiElement>,
    roots: Seq<usize>,
    k: int,
    viewport: Vec2,
) -> (Map<int, UiElement>, Flow)
    decreases k
        when wf_nodes(nodes) && 0 <= k <= roots.len() && (forall|j: int|
            0 <= j < roots.len() ==> #[trigger] roots[j] < nodes.len())
{
    if k <= 0 {
        (Map::<int, UiElement>::empty(), initial_flow())
    } else {
        let (m1, f1) = layout_forest(nodes, roots, k - 1, viewport);
        let r = roots[k - 1] as int;
        let (m2, f2) = layout_node(nodes, r, viewport, Vec2 { x: 0i64, y: 0i64 }, f1);
        (m1.union_prefer_right(m2), f2)
    }
}

/// Child indices of node `i` stay inside the arena and past their
/// parent; this is the part of well-formedness that layout recursion
/// rests on.
pub open spec fn children_in_range(nodes: Seq<UiElement>, i: int) -> bool {
    forall|k2: int|
        0 <= k2 < nodes[i].children@.len() ==> i < #[trigger] nodes[i].children@[k2] < nodes.len()
}

/// Well-formedness of one node gives the range bound layout unfolds on.
pub proof fn lemma_children_in_range(nodes: Seq<UiElement>, i: int)
    requires
        wf_nodes(nodes),
        0 <= i < nodes.len(),
    ensures
        children_in_range(nodes, i),
{
    assert(wf_node(nodes, i));
    assert forall|k2: int|
        0 <= k2 < nodes[i].children@.len() implies i < #[trigger] nodes[i].children@[k2]
        < nodes.len() by {
        assert(0 <= k2 < nodes[i].children@.len());
    }
}

/// Apply a layout map: every mapped index takes its updated element,
/// every other node is untouched.
pub open spec fn apply_layout(nodes: Seq<UiElement>, m: Map<int, UiElement>) -> Seq<UiElement> {
    Seq::new(nodes.len(), |j: int| if m.dom().contains(j) { m[j] } else { nodes[j] })
}

/// Pointwise agreement of two arenas on everything layout and
/// well-formedness read.
pub open spec fn static_seq_eq(a: Seq<UiElement>, b: Seq<UiElement>) -> bool {
    &&& a.len() == b.len()
    &&& forall|j: int| 0 <= j < a.len() ==> static_eq(#[trigger] a[j], #[trigger] b[j])
}

/// Arenas that agree on structure are well-formed together.
pub proof fn lemma_static_preserves_wf_nodes(a: Seq<UiElement>, b: Seq<UiElement>)
    requires
        wf_nodes(a),
        static_seq_eq(a, b),
    ensures
        wf_nodes(b),
{
    assert forall|i: int| 0 <= i < b.len() implies #[trigger] wf_node(b, i) by {
        assert(wf_node(a, i));
        assert(static_eq(a[i], b[i]));
        assert forall|k: int| 0 <= k < b[i].children@.len() implies {
            let c = #[trigger] b[i].children@[k];
            &&& i < c < b.len()
            &&& b[c as int].parent == Some(i as usize)
            &&& b[c as int].order == k
        } by {
            let c = b[i].children@[k];
            assert(c == a[i].children@[k]);
            assert(static_eq(a[c as int], b[c as int]));
        }
    }
}

/// Layout reads only structural fields, so arenas that agree on those
/// yield the same layout map and cursor.
pub proof fn lemma_layout_node_congruence(
    a: Seq<UiElement>,
    b: Seq<UiElement>,
    i: int,
    psize: Vec2,
    ppos: Vec2,
    flow: Flow,
)
    requires
        wf_nodes(a),
        static_seq_eq(a, b),
        0 <= i < a.len(),
    ensures
        layout_node(b, i, psize, ppos, flow) == layout_node(a, i, psize, ppos, flow),
    decreases a.len() - i, 1int, 0int,
{
    assert(wf_node(a, i));
    lemma_static_preserves_wf_nodes(a, b);
    lemma_children_in_range(a, i);
    lemma_children_in_range(b, i);
    assert(static_eq(a[i], b[i]));
    let st = spec_active_style(a[i]);
    let (pb, f2) = spec_place(st, psize, ppos, flow);
    assert(spec_active_style(b[i]) == st);
    assert(spec_styled_element(b[i], st, pb) == spec_styled_element(a[i], st, pb));
    let my_size = Vec2 { x: pb.w as i64, y: pb.h as i64 };
    let my_pos = Vec2 { x: pb.pos_x as i64, y: pb.pos_y as i64 };
    lemma_layout_children_congruence(a, b, i, a[i].children@.len() as int, my_size, my_pos);
}

pub proof fn lemma_layout_children_congruence(
    a: Seq<UiElement>,
    b: Seq<UiElement>,
    i: int,
    k: int,
    psize: Vec2,
    ppos: Vec2,
)
    requires
        wf_nodes(a),
        static_seq_eq(a, b),
        0 <= i < a.len(),
        0 <= k <= a[i].children@.len(),
    ensures
        layout_children(b, i, k, psize, ppos) == layout_children(a, i, k, psize, ppos),
    decreases a.len() - i, 0int, k,
{
    assert(wf_node(a, i));
    assert(static_eq(a[i], b[i]));
    lemma_static_preserves_wf_nodes(a, b);
    lemma_children_in_range(a, i);
    lemma_children_in_range(b, i);
    if k > 0 {
        lemma_layout_children_congruence(a, b, i, k - 1, psize, ppos);
        let (m1, f1) = layout_children(a, i, k - 1, psize, ppos);
        let c = a[i].children@[k - 1] as int;
        assert(b[i].children@[k - 1] == a[i].children@[k - 1]);
        lemma_layout_node_congruence(a, b, c, psize, ppos, f1);
    }
}

pub proof fn lemma_layout_forest_congruence(
    a: Seq<UiElement>,
    b: Seq<UiElement>,
    roots: Seq<usize>,
    k: int,
    viewport: Vec2,
)
    requires
        wf_nodes(a),
        static_seq_eq(a, b),
        0 <= k <= roots.len(),
        forall|j: int| 0 <= j < roots.len() ==> #[trigger] roots[j] < a.len(),
    ensures
        layout_forest(b, roots, k, viewport) == layout_forest(a, roots, k, viewport),
    decreases k,
{
    lemma_static_preserves_wf_nodes(a, b);
    if k > 0 {
        lemma_layout_forest_congruence(a, b, roots, k - 1, viewport);
        let (m1, f1) = layout_forest(a, roots, k - 1, viewport);
        lemma_layout_node_congruence(
            a,
            b,
            roots[k - 1] as int,
            viewport,
            Vec2 { x: 0i64, y: 0i64 },
            f1,
        );
    }
}

/// Every entry of a subtree layout map lies in the subtree's index range
/// and only changes the derived box and dirty flag of its node.
pub proof fn lemma_layout_node_frame(
    nodes: Seq<UiElement>,
    i: int,
    psize: Vec2,
    ppos: Vec2,
    flow: Flow,
)
    requires
        wf_nodes(nodes),
        0 <= i < nodes.len(),
    ensures
        ({
            let (m, f) = layout_node(nodes, i, psize, ppos, flow);
            &&& m.dom().contains(i)
            &&& forall|j: int|
                #[trigger] m.dom().contains(j) ==> i <= j < nodes.len() && static_eq(
                    nodes[j],
                    m[j],
                )
        }),
    decreases nodes.len() - i, 1int, 0int,
{
    assert(wf_node(nodes, i));
    lemma_children_in_range(nodes, i);
    let st = spec_active_style(nodes[i]);
    let (pb, f2) = spec_place(st, psize, ppos, flow);
    let me = spec_styled_element(nodes[i], st, pb);
    let my_size = Vec2 { x: pb.w as i64, y: pb.h as i64 };
    let my_pos = Vec2 { x: pb.pos_x as i64, y: pb.pos_y as i64 };
    lemma_layout_children_frame(nodes, i, nodes[i].children@.len() as int, my_size, my_pos);
    let (children, _) = layout_children(nodes, i, nodes[i].children@.len() as int, my_size, my_pos);
    let m = Map::<int, UiElement>::empty().insert(i, me).union_prefer_right(children);
    assert(layout_node(nodes, i, psize, ppos, flow).0 == m);
    assert(Map::<int, UiElement>::empty().insert(i, me).dom().contains(i));
    assert(m.dom().contains(i));
    assert(static_eq(nodes[i], me));
    assert forall|j: int| #[trigger] m.dom().contains(j) implies i <= j < nodes.len() && static_eq(
        nodes[j],
        m[j],
    ) by {
        if children.dom().contains(j) {
            assert(m[j] == children[j]);
        } else {
            assert(j == i);
            assert(m[j] == me);
        }
    }
}

pub proof fn lemma_layout_children_frame(
    nodes: Seq<UiElement>,
    i: int,
    k: int,
    psize: Vec2,
    ppos: Vec2,
)
    requires
        wf_nodes(nodes),
        0 <= i < nodes.len(),
        0 <= k <= nodes[i].children@.len(),
    ensures
        ({
            let (m, f) = layout_children(nodes, i, k, psize, ppos);
            forall|j: int|
                #[trigger] m.dom().contains(j) ==> i < j < nodes.len() && static_eq(
                    nodes[j],
                    m[j],
                )
        }),
    decreases nodes.len() - i, 0int, k,
{
    assert(wf_node(nodes, i));
    lemma_children_in_range(nodes, i);
    if k > 0 {
        lemma_layout_children_frame(nodes, i, k - 1, psize, ppos);
        let (m1, f1) = layout_children(nodes, i, k - 1, psize, ppos);
        let c = nodes[i].children@[k - 1] as int;
        lemma_layout_node_frame(nodes, c, psize, ppos, f1);
        let (m2, f2) = layout_node(nodes, c, psize, ppos, f1);
        assert(layout_children(nodes, i, k, psize, ppos).0 == m1.union_prefer_right(m2));
        assert(i < c);
        assert forall|j: int| #[trigger] m1.union_prefer_right(m2).dom().contains(j) implies i < j
            < nodes.len() && static_eq(nodes[j], m1.union_prefer_right(m2)[j]) by {
            if m2.dom().contains(j) {
                assert(c <= j < nodes.len());
                assert(m1.union_prefer_right(m2)[j] == m2[j]);
            } else {
                assert(m1.dom().contains(j));
                assert(i < j < nodes.len());
                assert(m1.union_prefer_right(m2)[j] == m1[j]);
            }
        }
    } else {
        assert(layout_children(nodes, i, k, psize, ppos).0 =~= Map::<int, UiElement>::empty());
    }
}

pub proof fn lemma_layout_forest_frame(
    nodes: Seq<UiElement>,
    roots: Seq<usize>,
    k: int,
    viewport: Vec2,
)
    requires
        wf_nodes(nodes),
        0 <= k <= roots.len(),
        forall|j: int| 0 <= j < roots.len() ==> #[trigger] roots[j] < nodes.len(),
    ensures
        ({
            let (m, f) = layout_forest(nodes, roots, k, viewport);
            forall|j: int|
                #[trigger] m.dom().contains(j) ==> 0 <= j < nodes.len() && static_eq(
                    nodes[j],
                    m[j],
                )
        }),
    decreases k,
{
    if k > 0 {
        lemma_layout_forest_frame(nodes, roots, k - 1, viewport);
        let (m1, f1) = layout_forest(nodes, roots, k - 1, viewport);
        lemma_layout_node_frame(
            nodes,
            roots[k - 1] as int,
            viewport,
            Vec2 { x: 0i64, y: 0i64 },
            f1,
        );
        let (m2, f2) = layout_node(nodes, roots[k - 1] as int, viewport, Vec2 { x: 0i64, y: 0i64 }, f1);
        assert(layout_forest(nodes, roots, k, viewport).0 == m1.union_prefer_right(m2));
        assert forall|j: int| #[trigger] m1.union_prefer_right(m2).dom().contains(j) implies 0 <= j
            < nodes.len() && static_eq(nodes[j], m1.union_prefer_right(m2)[j]) by {
            if m2.dom().contains(j) {
                assert(m2.dom().contains(j));
                assert(m1.union_prefer_right(m2)[j] == m2[j]);
            } else {
                assert(m1.dom().contains(j));
                assert(m1.union_prefer_right(m2)[j] == m1[j]);
            }
        }
    }
}

/// Applying two layout maps in sequence equals applying their
/// right-preferring union.
pub proof fn lemma_apply_compose(
    nodes: Seq<UiElement>,
    m1: Map<int, UiElement>,
    m2: Map<int, UiElement>,
)
    ensures
        apply_layout(apply_layout(nodes, m1), m2) == apply_layout(
            nodes,
            m1.union_prefer_right(m2),
        ),
{
    assert(apply_layout(apply_layout(nodes, m1), m2) =~= apply_layout(
        nodes,
        m1.union_prefer_right(m2),
    ));
}

/// An applied layout map whose entries are static-preserving leaves the
/// arena statically unchanged.
pub proof fn lemma_apply_static(nodes: Seq<UiElement>, m: Map<int, UiElement>)
    requires
        forall|j: int|
            #[trigger] m.dom().contains(j) && 0 <= j < nodes.len() ==> static_eq(nodes[j], m[j]),
    ensures
        static_seq_eq(nodes, apply_layout(nodes, m)),
{
}

/// A pass that only rewrites derived state keeps the whole invariant.
pub proof fn lemma_static_preserves_wf(pre: UiView, post: UiView)
    requires
        wf(pre),
        static_seq_eq(pre.nodes, post.nodes),
        post.roots == pre.roots,
        post.selected == pre.selected,
        post.pressed == pre.pressed,
    ensures
        wf(post),
{
    lemma_static_preserves_wf_nodes(pre.nodes, post.nodes);
    assert forall|k: int| 0 <= k < post.roots.len() implies {
        let r = #[trigger] post.roots[k];
        &&& r < post.nodes.len()
        &&& post.nodes[r as int].parent is None
        &&& post.nodes[r as int].order == k
    } by {
        let r = post.roots[k];
        assert(static_eq(pre.nodes[r as int], post.nodes[r as int]));
    }
    assert forall|i: int|
        0 <= i < post.nodes.len() && crate::element::spec_hovered(
            #[trigger] post.nodes[i],
        ) implies post.selected == Some(i as usize) by {
        assert(static_eq(pre.nodes[i], post.nodes[i]));
        assert(crate::element::spec_hovered(pre.nodes[i]));
    }
    if post.selected is Some {
        let j = post.selected->0 as int;
        assert(static_eq(pre.nodes[j], post.nodes[j]));
    }
}

/// A union of two static-preserving layout maps is static-preserving.
proof fn lemma_union_static(
    nodes: Seq<UiElement>,
    a: Map<int, UiElement>,
    b: Map<int, UiElement>,
)
    requires
        forall|j: int|
            #[trigger] a.dom().contains(j) && 0 <= j < nodes.len() ==> static_eq(nodes[j], a[j]),
        forall|j: int|
            #[trigger] b.dom().contains(j) && 0 <= j < nodes.len() ==> static_eq(nodes[j], b[j]),
    ensures
        forall|j: int|
            #[trigger] a.union_prefer_right(b).dom().contains(j) && 0 <= j < nodes.len()
                ==> static_eq(nodes[j], a.union_prefer_right(b)[j]),
{
    assert forall|j: int|
        #[trigger] a.union_prefer_right(b).dom().contains(j) && 0 <= j
        < nodes.len() implies static_eq(nodes[j], a.union_prefer_right(b)[j]) by {
        if b.dom().contains(j) {
            assert(a.union_prefer_right(b)[j] == b[j]);
        } else {
            assert(a.dom().contains(j));
            assert(a.union_prefer_right(b)[j] == a[j]);
        }
    }
}

/// Union of layout maps is associative.
proof fn lemma_union_assoc(
    a: Map<int, UiElement>,
    b: Map<int, UiElement>,
    c: Map<int, UiElement>,
)
    ensures
        a.union_prefer_right(b).union_prefer_right(c) == a.union_prefer_right(
            b.union_prefer_right(c),
        ),
{
    assert(a.union_prefer_right(b).union_prefer_right(c) =~= a.union_prefer_right(
        b.union_prefer_right(c),
    ));
}

/// Executable placement of one active style; mirrors [`spec_place`].
fn place(st: Style, psize: Vec2, ppos: Vec2, fc: FlowCursor) -> (r: (Vec2, Vec2, FlowCursor))
    ensures
        ({
            let (pb, f2) = spec_place(st, psize, ppos, flow_of(fc));
            &&& r.0 == (Vec2 { x: pb.pos_x as i64, y: pb.pos_y as i64 })
            &&& r.1 == (Vec2 { x: pb.w as i64, y: pb.h as i64 })
            &&& flow_of(r.2) == f2
        }),
{
    match st.position {
        Position::Absolute { align, x, y } => {
            let w = size_w(st.width, psize);
            let h = size_h(st.height, psize);
            let px = sat_add(anchor_x(align, psize.x, w), resolve_x(x, psize));
            let py = sat_add(anchor_y(align, psize.y, h), resolve_y(y, psize));
            (Vec2 { x: px, y: py }, Vec2 { x: w, y: h }, fc)
        },
        Position::Inline { margin, .. } => {
            let ml = resolve_x(margin.left, psize);
            let mr = resolve_x(margin.right, psize);
            let mt = resolve_y(margin.top, psize);
            let mb = resolve_y(margin.bottom, psize);
            let space = Vec2 {
                x: crate::geom::sat_sub3(psize.x, ml, mr),
                y: crate::geom::sat_sub3(psize.y, mt, mb),
            };
            let w = size_w(st.width, space);
            let h = size_h(st.height, space);
            let wraps = (psize.x as i128) - (fc.x as i128) < (w as i128);
            let f1 = if wraps {
                FlowCursor { x: 0, y: sat_add(fc.y, fc.h), h: 0 }
            } else {
                fc
            };
            let px = sat_add3(ppos.x, f1.x, ml);
            let py = sat_add3(ppos.y, f1.y, mt);
            let f2 = FlowCursor {
                x: sat_add4(f1.x, w, ml, mr),
                y: f1.y,
                h: max64(f1.h, sat_add3(h, mt, mb)),
            };
            (Vec2 { x: px, y: py }, Vec2 { x: w, y: h }, f2)
        },
    }
}

impl UiState {
    /// Lay out the subtree rooted at `i` against the parent box and the
    /// surrounding line cursor; every node of the subtree gets its
    /// resolved box and a cleared dirty flag, nothing else changes.
    #[verifier::loop_isolation(false)]
    fn rebuild_node(&mut self, i: usize, psize: Vec2, ppos: Vec2, flow: &mut FlowCursor)
        requires
            wf_nodes(old(self)@.nodes),
            i < old(self)@.nodes.len(),
        ensures
            ({
                let (m, f2) = layout_node(
                    old(self)@.nodes,
                    i as int,
                    psize,
                    ppos,
                    flow_of(*old(flow)),
                );
                &&& final(self)@.nodes == apply_layout(old(self)@.nodes, m)
                &&& flow_of(*final(flow)) == f2
            }),
            static_seq_eq(old(self)@.nodes, final(self)@.nodes),
            final(self)@ == (UiView { nodes: final(self)@.nodes, ..old(self)@ }),
        decreases old(self)@.nodes.len() - i,
    {
        proof {
            assert(wf_node(self@.nodes, i as int));
            lemma_children_in_range(self@.nodes, i as int);
        }
        let ghost s0 = self@;
        let st = active_style(&self.nodes[i]);
        let (my_pos, my_size, f2) = place(st, psize, ppos, *flow);
        let corner = resolve_x(st.corner.top_left, my_size);
        let e = &mut self.nodes[i];
        e.computed = Computed {
            pos: my_pos,
            size: my_size,
            color: st.color,
            border_color: st.border_color,
            border: st.border.left,
            corner,
        };
        e.dirty = false;
        let ghost pb = spec_place(st, psize, ppos, flow_of(*old(flow))).0;
        let ghost me = spec_styled_element(s0.nodes[i as int], st, pb);
        let ghost m_me = Map::<int, UiElement>::empty().insert(i as int, me);
        proof {
            assert(self@.nodes[i as int] == me);
            assert(self@.nodes =~= apply_layout(s0.nodes, m_me));
            assert(static_eq(s0.nodes[i as int], me));
            lemma_apply_static(s0.nodes, m_me);
        }
        let n = self.nodes[i].children.len();
        let mut cf = FlowCursor { x: 0, y: 0, h: 0 };
        let mut k: usize = 0;
        while k < n
            invariant
                wf_nodes(s0.nodes),
                i < s0.nodes.len(),
                wf_node(s0.nodes, i as int),
                children_in_range(s0.nodes, i as int),
                n == s0.nodes[i as int].children@.len(),
                k <= n,
                ({
                    let (mc, fc2) = layout_children(
                        s0.nodes,
                        i as int,
                        k as int,
                        my_size,
                        my_pos,
                    );
                    &&& self@.nodes == apply_layout(s0.nodes, m_me.union_prefer_right(mc))
                    &&& flow_of(cf) == fc2
                }),
                static_seq_eq(s0.nodes, self@.nodes),
                self@ == (UiView { nodes: self@.nodes, ..s0 }),
            decreases n - k,
        {
            proof {
                assert(static_eq(s0.nodes[i as int], self@.nodes[i as int]));
            }
            let c = self.nodes[i].children[k];
            let ghost s_k = self@;
            let ghost mc_k = layout_children(s0.nodes, i as int, k as int, my_size, my_pos).0;
            proof {
                assert(self@.nodes[i as int].children@ == s0.nodes[i as int].children@);
                assert(c == s0.nodes[i as int].children@[k as int]);
                assert(i < c < s0.nodes.len());
                assert(self@.nodes.len() == s0.nodes.len());
                lemma_static_preserves_wf_nodes(s0.nodes, s_k.nodes);
            }
            self.rebuild_node(c, my_size, my_pos, &mut cf);
            proof {
                let fc2 = layout_children(s0.nodes, i as int, k as int, my_size, my_pos).1;
                lemma_layout_node_congruence(
                    s0.nodes,
                    s_k.nodes,
                    c as int,
                    my_size,
                    my_pos,
                    fc2,
                );
                let (m2, f3) = layout_node(s0.nodes, c as int, my_size, my_pos, fc2);
                lemma_apply_compose(s0.nodes, m_me.union_prefer_right(mc_k), m2);
                lemma_union_assoc(m_me, mc_k, m2);
                lemma_layout_node_frame(s0.nodes, c as int, my_size, my_pos, fc2);
                lemma_layout_children_frame(s0.nodes, i as int, k as int, my_size, my_pos);
                assert forall|j: int|
                    #[trigger] m_me.dom().contains(j) && 0 <= j < s0.nodes.len() implies static_eq(
                    s0.nodes[j],
                    m_me[j],
                ) by {
                    assert(j == i as int);
                    assert(m_me[j] == me);
                }
                lemma_union_static(s0.nodes, mc_k, m2);
                lemma_union_static(s0.nodes, m_me, mc_k.union_prefer_right(m2));
                lemma_apply_static(
                    s0.nodes,
                    m_me.union_prefer_right(mc_k.union_prefer_right(m2)),
                );
            }
            k = k + 1;
        }
        *flow = f2;
    }

    /// Recompute the layout of the whole tree against the viewport:
    /// resolve every node's active style, place absolute boxes by their
    /// anchors and inline boxes along per-parent wrapping flow lines, and
    /// clear all dirty flags.  Only derived state changes, so the tree
    /// invariant is kept.
    #[verifier::loop_isolation(false)]
    pub fn rebuild(&mut self, viewport: Vec2)
        requires
            wf(old(self)@),
        ensures
            final(self)@.nodes == apply_layout(
                old(self)@.nodes,
                layout_forest(
                    old(self)@.nodes,
                    old(self)@.roots,
                    old(self)@.roots.len() as int,
                    viewport,
                ).0,
            ),
            static_seq_eq(old(self)@.nodes, final(self)@.nodes),
            final(self)@.roots == old(self)@.roots,
            final(self)@.selected == old(self)@.selected,
            final(self)@.pressed == old(self)@.pressed,
            final(self)@.cursor_pos == old(self)@.cursor_pos,
            final(self)@.visible == old(self)@.visible,
            final(self)@.dirty == false,
            wf(final(self)@),
    {
        let ghost s0 = self@;
        let n = self.roots.len();
        let mut cf = FlowCursor { x: 0, y: 0, h: 0 };
        let mut k: usize = 0;
        proof {
            assert(self@.nodes =~= apply_layout(s0.nodes, Map::<int, UiElement>::empty()));
        }
        while k < n
            invariant
                wf(s0),
                n == s0.roots.len(),
                k <= n,
                ({
                    let (mc, fc2) = layout_forest(s0.nodes, s0.roots, k as int, viewport);
                    &&& self@.nodes == apply_layout(s0.nodes, mc)
                    &&& flow_of(cf) == fc2
                }),
                static_seq_eq(s0.nodes, self@.nodes),
                self@ == (UiView { nodes: self@.nodes, ..s0 }),
            decreases n - k,
        {
            let r = self.roots[k];
            let ghost s_k = self@;
            let ghost mc_k = layout_forest(s0.nodes, s0.roots, k as int, viewport).0;
            proof {
                lemma_static_preserves_wf_nodes(s0.nodes, s_k.nodes);
            }
            self.rebuild_node(r, viewport, Vec2 { x: 0, y: 0 }, &mut cf);
            proof {
                let fc2 = layout_forest(s0.nodes, s0.roots, k as int, viewport).1;
                lemma_layout_node_congruence(
                    s0.nodes,
                    s_k.nodes,
                    r as int,
                    viewport,
                    Vec2 { x: 0i64, y: 0i64 },
                    fc2,
                );
                let (m2, f3) = layout_node(
                    s0.nodes,
                    r as int,
                    viewport,
                    Vec2 { x: 0i64, y: 0i64 },
                    fc2,
                );
                lemma_apply_compose(s0.nodes, mc_k, m2);
                lemma_layout_forest_frame(s0.nodes, s0.roots, k as int, viewport);
                lemma_layout_node_frame(s0.nodes, r as int, viewport, Vec2 { x: 0i64, y: 0i64 }, fc2);
                lemma_union_static(s0.nodes, mc_k, m2);
                lemma_apply_static(s0.nodes, mc_k.union_prefer_right(m2));
            }
            k = k + 1;
        }
        self.dirty = false;
        proof {
            lemma_static_preserves_wf(s0, self@);
        }
    }
}

} // verus!
