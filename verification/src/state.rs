//! The UI root state: the element arena, the top-level forest, transient
//! pointer focus, and the builder API that grows the tree.

use vstd::prelude::*;

use crate::geom::Vec2;
use crate::style::{Style, Computed};
use crate::element::{UiElement, Widget, spec_hovered};

verus! {

/// Mathematical view of the whole UI state.
#[verifier::ext_equal]
pub struct UiView {
    pub nodes: Seq<UiElement>,
    pub roots: Seq<usize>,
    pub selected: Option<usize>,
    pub pressed: Option<usize>,
    pub cursor_pos: Vec2,
    pub dirty: bool,
    pub visible: bool,
}

/// The UI root.  It owns the arena of nodes; the top-level forest, child
/// lists and the `selected` / `pressed` focus slots all address nodes by
/// arena index, so a node referenced from a focus slot shares its storage
/// with its tree slot.
pub struct UiState {
    pub nodes: Vec<UiElement>,
    pub roots: Vec<usize>,
    pub selected: Option<usize>,
    pub pressed: Option<usize>,
    pub cursor_pos: Vec2,
    pub dirty: bool,
    pub visible: bool,
}

impl View for UiState {
    type V = UiView;

    open spec fn view(&self) -> UiView {
        UiView {
            nodes: self.nodes@,
            roots: self.roots@,
            selected: self.selected,
            pressed: self.pressed,
            cursor_pos: self.cursor_pos,
            dirty: self.dirty,
            visible: self.visible,
        }
    }
}

/// Structural well-formedness of one node: every child index points past
/// its parent (so walks terminate), back references and sibling order
/// indices are consistent.
pub open spec fn wf_node(nodes: Seq<UiElement>, i: int) -> bool {
    &&& (nodes[i].parent matches Some(q) ==> q < nodes.len())
    &&& forall|k: int|
        0 <= k < nodes[i].children@.len() ==> {
            let c = #[trigger] nodes[i].children@[k];
            &&& i < c < nodes.len()
            &&& nodes[c as int].parent == Some(i as usize)
            &&& nodes[c as int].order == k
        }
}

/// Structural well-formedness of the arena.
pub open spec fn wf_nodes(nodes: Seq<UiElement>) -> bool {
    forall|i: int| 0 <= i < nodes.len() ==> #[trigger] wf_node(nodes, i)
}

/// Well-formedness of the top-level forest: every root is a parentless
/// node carrying its forest position.
pub open spec fn wf_roots(s: UiView) -> bool {
    forall|k: int|
        0 <= k < s.roots.len() ==> {
            let r = #[trigger] s.roots[k];
            &&& r < s.nodes.len()
            &&& s.nodes[r as int].parent is None
            &&& s.nodes[r as int].order == k
        }
}

/// The focus slots reference live nodes, hover focus only ever points at a
/// button or a check box, and the hover role is exclusive: an element in
/// hover state is the one the `selected` slot names, so at most one
/// element is hovered at any time.
pub open spec fn wf_focus(s: UiView) -> bool {
    &&& s.selected matches Some(j) ==> j < s.nodes.len() && (s.nodes[j as int].widget is Button
        || s.nodes[j as int].widget is CheckBox)
    &&& s.pressed matches Some(j) ==> j < s.nodes.len()
    &&& forall|i: int|
        0 <= i < s.nodes.len() && spec_hovered(#[trigger] s.nodes[i]) ==> s.selected == Some(
            i as usize,
        )
}

/// Invariant of the whole UI state.  The arena is machine-addressable
/// (its length fits `usize`), structurally sound, and focus is
/// consistent.
pub open spec fn wf(s: UiView) -> bool {
    &&& s.nodes.len() <= usize::MAX
    &&& wf_nodes(s.nodes)
    &&& wf_roots(s)
    &&& wf_focus(s)
}

/// `e` is the record a builder call appends: the given style, widget and
/// visibility, no children yet, an all-zero derived box, and the dirty
/// flag raised so the first layout pass resolves it.
pub open spec fn is_new_element(
    e: UiElement,
    style: Style,
    widget: Widget,
    visible: bool,
    parent: Option<usize>,
    order: int,
) -> bool {
    &&& e.style == style
    &&& e.computed == crate::style::spec_empty_computed()
    &&& e.widget == widget
    &&& e.children@ == Seq::<usize>::empty()
    &&& e.parent == parent
    &&& e.order == order
    &&& e.dirty == true
    &&& e.visible == visible
}

/// `b` is `a` with one more child index appended (everything else equal).
pub open spec fn with_child_appended(a: UiElement, b: UiElement, c: usize) -> bool {
    &&& b.style == a.style
    &&& b.computed == a.computed
    &&& b.widget == a.widget
    &&& b.children@ == a.children@.push(c)
    &&& b.parent == a.parent
    &&& b.order == a.order
    &&& b.dirty == a.dirty
    &&& b.visible == a.visible
}

/// Whether a widget value already carries the hover role; freshly built
/// elements must not, so that hover exclusivity holds from construction.
pub open spec fn hovered_widget(w: Widget) -> bool {
    match w {
        Widget::Button { interaction, .. } => interaction is Hover,
        Widget::CheckBox { selected, .. } => selected,
        _ => false,
    }
}

impl UiState {
    /// An empty UI root with no elements and no focus.
    pub fn create(visible: bool) -> (s: UiState)
        ensures
            s@.nodes.len() == 0,
            s@.roots.len() == 0,
            s@.selected is None,
            s@.pressed is None,
            s@.cursor_pos == (Vec2 { x: 0i64, y: 0i64 }),
            s@.dirty == true,
            s@.visible == visible,
            wf(s@),
    {
        UiState {
            nodes: Vec::new(),
            roots: Vec::new(),
            selected: None,
            pressed: None,
            cursor_pos: Vec2 { x: 0, y: 0 },
            dirty: true,
            visible,
        }
    }

    /// Number of nodes in the arena.
    pub fn len(&self) -> (n: usize)
        ensures
            n == self@.nodes.len(),
    {
        self.nodes.len()
    }

    /// Read one node.
    pub fn node(&self, i: usize) -> (e: &UiElement)
        requires
            i < self@.nodes.len(),
        ensures
            *e == self@.nodes[i as int],
    {
        &self.nodes[i]
    }

    /// The top-level forest, in declaration order.
    pub fn roots(&self) -> (r: &Vec<usize>)
        ensures
            r@ == self@.roots,
    {
        &self.roots
    }

    /// The element currently holding the hover role, if any.
    pub fn selected(&self) -> (r: Option<usize>)
        ensures
            r == self@.selected,
    {
        self.selected
    }

    /// The element currently holding pointer capture, if any.
    pub fn pressed(&self) -> (r: Option<usize>)
        ensures
            r == self@.pressed,
    {
        self.pressed
    }

    /// The cursor position stored by the last pointer event.
    pub fn cursor_pos(&self) -> (r: Vec2)
        ensures
            r == self@.cursor_pos,
    {
        self.cursor_pos
    }

    /// Whether the tree's visual output is stale and must be re-uploaded
    /// before the next present.
    pub fn dirty(&self) -> (r: bool)
        ensures
            r == self@.dirty,
    {
        self.dirty
    }

    /// Clear the root dirty signal once the renderer has consumed it.
    pub fn clear_dirty(&mut self)
        ensures
            final(self)@ == (UiView { dirty: false, ..old(self)@ }),
    {
        self.dirty = false;
    }

    pub fn visible(&self) -> (r: bool)
        ensures
            r == self@.visible,
    {
        self.visible
    }

    /// Show or hide the whole overlay; marks it dirty.
    pub fn set_visible(&mut self, visible: bool)
        ensures
            final(self)@ == (UiView { visible, dirty: true, ..old(self)@ }),
    {
        self.visible = visible;
        self.dirty = true;
    }

    /// Append a new top-level element, last in paint order.
    pub fn add_element(&mut self, style: Style, widget: Widget, visible: bool) -> (idx: usize)
        requires
            wf(old(self)@),
            !hovered_widget(widget),
        ensures
            idx == old(self)@.nodes.len(),
            final(self)@.nodes.len() == old(self)@.nodes.len() + 1,
            forall|j: int|
                0 <= j < old(self)@.nodes.len() ==> final(self)@.nodes[j] == old(self)@.nodes[j],
            is_new_element(
                final(self)@.nodes[idx as int],
                style,
                widget,
                visible,
                None,
                old(self)@.roots.len() as int,
            ),
            final(self)@.roots == old(self)@.roots.push(idx),
            final(self)@.selected == old(self)@.selected,
            final(self)@.pressed == old(self)@.pressed,
            final(self)@.cursor_pos == old(self)@.cursor_pos,
            final(self)@.dirty == old(self)@.dirty,
            final(self)@.visible == old(self)@.visible,
            wf(final(self)@),
    {
        let idx = self.nodes.len();
        let order = self.roots.len();
        let e = UiElement {
            style,
            computed: Computed::empty(),
            widget,
            children: Vec::new(),
            parent: None,
            order,
            dirty: true,
            visible,
        };
        self.nodes.push(e);
        self.roots.push(idx);
        proof {
            assert(self.nodes.len() == self@.nodes.len());
            lemma_wf_after_append(old(self)@, self@, idx);
        }
        idx
    }

    /// Append a new element as the last child of `parent`, on top of its
    /// earlier siblings in paint order.
    pub fn add_child(&mut self, parent: usize, style: Style, widget: Widget, visible: bool) -> (idx: usize)
        requires
            wf(old(self)@),
            parent < old(self)@.nodes.len(),
            !hovered_widget(widget),
        ensures
            idx == old(self)@.nodes.len(),
            final(self)@.nodes.len() == old(self)@.nodes.len() + 1,
            forall|j: int|
                0 <= j < old(self)@.nodes.len() && j != parent ==> final(self)@.nodes[j] == old(
                    self,
                )@.nodes[j],
            with_child_appended(
                old(self)@.nodes[parent as int],
                final(self)@.nodes[parent as int],
                idx,
            ),
            is_new_element(
                final(self)@.nodes[idx as int],
                style,
                widget,
                visible,
                Some(parent),
                old(self)@.nodes[parent as int].children@.len() as int,
            ),
            final(self)@.roots == old(self)@.roots,
            final(self)@.selected == old(self)@.selected,
            final(self)@.pressed == old(self)@.pressed,
            final(self)@.cursor_pos == old(self)@.cursor_pos,
            final(self)@.dirty == old(self)@.dirty,
            final(self)@.visible == old(self)@.visible,
            wf(final(self)@),
    {
        let idx = self.nodes.len();
        let order = self.nodes[parent].children.len();
        let e = UiElement {
            style,
            computed: Computed::empty(),
            widget,
            children: Vec::new(),
            parent: Some(parent),
            order,
            dirty: true,
            visible,
        };
        self.nodes.push(e);
        let p = &mut self.nodes[parent];
        p.children.push(idx);
        proof {
            assert(self.nodes.len() == self@.nodes.len());
            lemma_wf_after_add_child(old(self)@, self@, parent as int, idx);
        }
        idx
    }
}

/// Appending a fresh parentless node and registering it as a root
/// preserves the invariant.
proof fn lemma_wf_after_append(pre: UiView, post: UiView, idx: usize)
    requires
        wf(pre),
        post.nodes.len() <= usize::MAX,
        idx == pre.nodes.len(),
        post.nodes.len() == pre.nodes.len() + 1,
        forall|j: int| 0 <= j < pre.nodes.len() ==> post.nodes[j] == pre.nodes[j],
        is_new_element(
            post.nodes[idx as int],
            post.nodes[idx as int].style,
            post.nodes[idx as int].widget,
            post.nodes[idx as int].visible,
            None,
            pre.roots.len() as int,
        ),
        !hovered_widget(post.nodes[idx as int].widget),
        post.roots == pre.roots.push(idx),
        post.selected == pre.selected,
        post.pressed == pre.pressed,
    ensures
        wf(post),
{
    assert forall|i: int| 0 <= i < post.nodes.len() implies #[trigger] wf_node(post.nodes, i) by {
        if i < pre.nodes.len() {
            assert(wf_node(pre.nodes, i));
            assert forall|k: int| 0 <= k < post.nodes[i].children@.len() implies {
                let c = #[trigger] post.nodes[i].children@[k];
                &&& i < c < post.nodes.len()
                &&& post.nodes[c as int].parent == Some(i as usize)
                &&& post.nodes[c as int].order == k
            } by {
                let c = post.nodes[i].children@[k];
                assert(c == pre.nodes[i].children@[k]);
            }
        } else {
            assert(post.nodes[i].children@.len() == 0);
        }
    }
    assert forall|i: int|
        0 <= i < post.nodes.len() && spec_hovered(#[trigger] post.nodes[i]) implies post.selected
        == Some(i as usize) by {
        if i < pre.nodes.len() {
            assert(spec_hovered(pre.nodes[i]));
        }
    }
}

/// Appending a fresh node and linking it as the last child of a live
/// parent preserves the invariant.
proof fn lemma_wf_after_add_child(pre: UiView, post: UiView, parent: int, idx: usize)
    requires
        wf(pre),
        post.nodes.len() <= usize::MAX,
        0 <= parent < pre.nodes.len(),
        idx == pre.nodes.len(),
        post.nodes.len() == pre.nodes.len() + 1,
        forall|j: int| 0 <= j < pre.nodes.len() && j != parent ==> post.nodes[j] == pre.nodes[j],
        with_child_appended(pre.nodes[parent], post.nodes[parent], idx),
        is_new_element(
            post.nodes[idx as int],
            post.nodes[idx as int].style,
            post.nodes[idx as int].widget,
            post.nodes[idx as int].visible,
            Some(parent as usize),
            pre.nodes[parent].children@.len() as int,
        ),
        !hovered_widget(post.nodes[idx as int].widget),
        post.roots == pre.roots,
        post.selected == pre.selected,
        post.pressed == pre.pressed,
    ensures
        wf(post),
{
    assert forall|i: int| 0 <= i < post.nodes.len() implies #[trigger] wf_node(post.nodes, i) by {
        if i < pre.nodes.len() {
            assert(wf_node(pre.nodes, i));
            assert forall|k: int| 0 <= k < post.nodes[i].children@.len() implies {
                let c = #[trigger] post.nodes[i].children@[k];
                &&& i < c < post.nodes.len()
                &&& post.nodes[c as int].parent == Some(i as usize)
                &&& post.nodes[c as int].order == k
            } by {
                if i == parent {
                    if k < pre.nodes[i].children@.len() {
                        assert(post.nodes[i].children@[k] == pre.nodes[i].children@[k]);
                    } else {
                        assert(post.nodes[i].children@[k] == idx);
                    }
                } else {
                    assert(post.nodes[i].children@[k] == pre.nodes[i].children@[k]);
                }
            }
        } else {
            assert(post.nodes[i].children@.len() == 0);
        }
    }
    assert forall|k: int| 0 <= k < post.roots.len() implies {
        let r = #[trigger] post.roots[k];
        &&& r < post.nodes.len()
        &&& post.nodes[r as int].parent is None
        &&& post.nodes[r as int].order == k
    } by {
        let r = post.roots[k];
        assert(pre.roots[k] == r);
        assert(r as int != idx as int);
        if r as int == parent {
            assert(post.nodes[r as int].parent == pre.nodes[r as int].parent);
        }
    }
    assert forall|i: int|
        0 <= i < post.nodes.len() && spec_hovered(#[trigger] post.nodes[i]) implies post.selected
        == Some(i as usize) by {
        if i < pre.nodes.len() {
            assert(post.nodes[i].widget == pre.nodes[i].widget);
            assert(spec_hovered(pre.nodes[i]));
        }
    }
}

} // verus!
