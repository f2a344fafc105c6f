//! Tree nodes: widget variants, per-widget interaction state and the
//! arena element record.

use vstd::prelude::*;

use crate::style::{Style, Computed};

verus! {

/// Pointer interaction state of a button or drag box.
#[derive(Clone, Copy, Debug, PartialEq, Eq, Structural)]
pub enum Interaction {
    Idle,
    Hover,
    Pressed,
}

/// Which axes a drag box passes cursor movement through; `Locked` masks
/// both.
#[derive(Clone, Copy, Debug, PartialEq, Eq, Structural)]
pub enum DragAxis {
    Locked,
    X,
    Y,
    Both,
}

/// The widget variant of an element: a closed sum over widget kinds,
/// dispatched by exhaustive matching.
///
/// Buttons and check boxes carry the styles that replace the base style
/// while hovered or activated, so every reachable interaction state has a
/// resolvable style by construction.  Callback identity lives with the
/// host: dispatch reports fired callbacks as [`crate::dispatch::UiAction`]
/// records instead of holding function pointers.
#[derive(Debug)]
pub enum Widget {
    Container,
    Text { text: String },
    Button { interaction: Interaction, hover_style: Style, press_style: Style },
    CheckBox {
        selected: bool,
        pressed: bool,
        enabled: bool,
        hover_style: Style,
        press_style: Style,
    },
    DragBox { interaction: Interaction, axis: DragAxis },
    Slider { value: i64, min: i64, max: i64 },
}

/// One arena node.  `children` holds arena indices in declaration order,
/// which is paint order: later entries render on top and are hit-tested
/// first.  `parent` is the non-owning back reference, `order` the index of
/// this node in its parent's (or the root forest's) child list.
#[derive(Debug)]
pub struct UiElement {
    pub style: Style,
    pub computed: Computed,
    pub widget: Widget,
    pub children: Vec<usize>,
    pub parent: Option<usize>,
    pub order: usize,
    pub dirty: bool,
    pub visible: bool,
}

/// Whether this element currently holds the hover role: a button in
/// `Hover` state, or a check box with its transient `selected` mark.
pub open spec fn spec_hovered(e: UiElement) -> bool {
    match e.widget {
        Widget::Button { interaction, .. } => interaction is Hover,
        Widget::CheckBox { selected, .. } => selected,
        _ => false,
    }
}

/// The style the next layout pass resolves for this element: press or
/// hover overrides for buttons, enabled or selected overrides for check
/// boxes, the base style for everything else.
pub open spec fn spec_active_style(e: UiElement) -> Style {
    match e.widget {
        Widget::Button { interaction, hover_style, press_style } => {
            if interaction is Pressed {
                press_style
            } else if interaction is Hover {
                hover_style
            } else {
                e.style
            }
        },
        Widget::CheckBox { selected, enabled, hover_style, press_style, .. } => {
            if enabled {
                press_style
            } else if selected {
                hover_style
            } else {
                e.style
            }
        },
        _ => e.style,
    }
}

/// Executable style resolution, matching [`spec_active_style`].
pub fn active_style(e: &UiElement) -> (s: Style)
    ensures
        s == spec_active_style(*e),
{
    match &e.widget {
        Widget::Button { interaction, hover_style, press_style } => {
            if *interaction == Interaction::Pressed {
                *press_style
            } else if *interaction == Interaction::Hover {
                *hover_style
            } else {
                e.style
            }
        },
        Widget::CheckBox { selected, enabled, hover_style, press_style, .. } => {
            if *enabled {
                *press_style
            } else if *selected {
                *hover_style
            } else {
                e.style
            }
        },
        _ => e.style,
    }
}

/// Two elements agree on everything layout reads: structure, style, widget
/// and visibility (the derived box and the dirty flag may differ).
pub open spec fn static_eq(a: UiElement, b: UiElement) -> bool {
    &&& a.style == b.style
    &&& a.widget == b.widget
    &&& a.children == b.children
    &&& a.parent == b.parent
    &&& a.order == b.order
    &&& a.visible == b.visible
}

/// Two elements agree on everything hit-testing reads: the derived box,
/// visibility and the child list.
pub open spec fn geom_eq(a: UiElement, b: UiElement) -> bool {
    &&& a.computed.pos == b.computed.pos
    &&& a.computed.size == b.computed.size
    &&& a.children@ == b.children@
    &&& a.visible == b.visible
}

} // verus!
