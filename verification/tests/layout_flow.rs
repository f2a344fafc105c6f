//! Layout engine: absolute anchoring, relative sizing, inline row-wrap
//! flow, style resolution and dirty-flag clearing.

use retained_ui::geom::Vec2;
use retained_ui::style::{
    Style, Rgba, Position, Align, UiUnit, UiSize, Margin, Overflow, Corners, BorderWidths,
};
use retained_ui::element::{Widget, Interaction};
use retained_ui::state::UiState;
use retained_ui::dispatch::{UiEvent, UiAction};

fn v(x: i64, y: i64) -> Vec2 {
    Vec2 { x, y }
}

fn base(color: Rgba) -> Style {
    Style {
        position: Position::Absolute {
            align: Align::TopLeft,
            x: UiUnit::Zero,
            y: UiUnit::Zero,
        },
        width: UiSize::Size(UiUnit::Pixel(0)),
        height: UiSize::Size(UiUnit::Pixel(0)),
        color,
        border_color: Rgba { r: 0, g: 0, b: 0, a: 255 },
        border: BorderWidths { left: 2, top: 2, right: 2, bottom: 2 },
        corner: Corners {
            top_left: UiUnit::Zero,
            top_right: UiUnit::Zero,
            bottom_right: UiUnit::Zero,
            bottom_left: UiUnit::Zero,
        },
        padding: 0,
    }
}

fn abs(x: i64, y: i64, w: i64, h: i64) -> Style {
    let mut s = base(Rgba { r: 100, g: 100, b: 100, a: 255 });
    s.position = Position::Absolute {
        align: Align::TopLeft,
        x: UiUnit::Pixel(x),
        y: UiUnit::Pixel(y),
    };
    s.width = UiSize::Size(UiUnit::Pixel(w));
    s.height = UiSize::Size(UiUnit::Pixel(h));
    s
}

fn inline(w: i64, h: i64) -> Style {
    let mut s = base(Rgba { r: 80, g: 80, b: 80, a: 255 });
    s.position = Position::Inline {
        margin: Margin {
            left: UiUnit::Zero,
            top: UiUnit::Zero,
            right: UiUnit::Zero,
            bottom: UiUnit::Zero,
        },
        overflow: Overflow::Clip,
    };
    s.width = UiSize::Size(UiUnit::Pixel(w));
    s.height = UiSize::Size(UiUnit::Pixel(h));
    s
}

#[test]
fn absolute_top_left_with_offset() {
    let mut ui = UiState::create(true);
    let e = ui.add_element(abs(30, 40, 100, 50), Widget::Container, true);
    ui.rebuild(v(800, 600));
    assert_eq!(ui.node(e).computed.pos, v(30, 40));
    assert_eq!(ui.node(e).computed.size, v(100, 50));
}

#[test]
fn absolute_centered() {
    let mut ui = UiState::create(true);
    let mut s = abs(0, 0, 100, 50);
    s.position = Position::Absolute { align: Align::Center, x: UiUnit::Zero, y: UiUnit::Zero };
    let e = ui.add_element(s, Widget::Container, true);
    ui.rebuild(v(800, 600));
    assert_eq!(ui.node(e).computed.pos, v(350, 275));
}

#[test]
fn relative_size_resolves_against_parent() {
    let mut ui = UiState::create(true);
    let panel = ui.add_element(abs(0, 0, 200, 100), Widget::Container, true);
    let mut child_style = inline(0, 10);
    child_style.width = UiSize::Size(UiUnit::Relative(500));
    let child = ui.add_child(panel, child_style, Widget::Container, true);
    ui.rebuild(v(800, 600));
    assert_eq!(ui.node(child).computed.size, v(100, 10));
}

#[test]
fn inline_flow_wraps_rows() {
    // three children of widths 50, 60, 50 on a 100-wide line with zero
    // margins: the first sits at x 0, the second wraps below the first,
    // the third wraps again because 100 - 60 = 40 < 50
    let mut ui = UiState::create(true);
    let panel = ui.add_element(abs(0, 0, 100, 300), Widget::Container, true);
    let c1 = ui.add_child(panel, inline(50, 20), Widget::Container, true);
    let c2 = ui.add_child(panel, inline(60, 25), Widget::Container, true);
    let c3 = ui.add_child(panel, inline(50, 20), Widget::Container, true);
    ui.rebuild(v(800, 600));
    assert_eq!(ui.node(c1).computed.pos, v(0, 0));
    assert_eq!(ui.node(c2).computed.pos, v(0, 20));
    assert_eq!(ui.node(c3).computed.pos, v(0, 45));
}

#[test]
fn inline_flow_keeps_line_when_width_suffices() {
    // widths 50, 60, 30: the third fits on the second line (40 >= 30)
    let mut ui = UiState::create(true);
    let panel = ui.add_element(abs(0, 0, 100, 300), Widget::Container, true);
    let c1 = ui.add_child(panel, inline(50, 20), Widget::Container, true);
    let c2 = ui.add_child(panel, inline(60, 25), Widget::Container, true);
    let c3 = ui.add_child(panel, inline(30, 20), Widget::Container, true);
    ui.rebuild(v(800, 600));
    assert_eq!(ui.node(c1).computed.pos, v(0, 0));
    assert_eq!(ui.node(c2).computed.pos, v(0, 20));
    assert_eq!(ui.node(c3).computed.pos, v(60, 20));
}

#[test]
fn inline_margins_offset_position_and_shrink_space() {
    let mut ui = UiState::create(true);
    let panel = ui.add_element(abs(0, 0, 100, 300), Widget::Container, true);
    let mut s = inline(0, 10);
    s.position = Position::Inline {
        margin: Margin {
            left: UiUnit::Pixel(5),
            top: UiUnit::Pixel(7),
            right: UiUnit::Pixel(5),
            bottom: UiUnit::Pixel(0),
        },
        overflow: Overflow::Clip,
    };
    s.width = UiSize::Fill;
    let c = ui.add_child(panel, s, Widget::Container, true);
    ui.rebuild(v(800, 600));
    // position shifted by the left/top margins, width fills the space
    // left after both horizontal margins
    assert_eq!(ui.node(c).computed.pos, v(5, 7));
    assert_eq!(ui.node(c).computed.size, v(90, 10));
}

#[test]
fn style_attributes_copied_into_computed() {
    let mut ui = UiState::create(true);
    let mut s = abs(0, 0, 100, 50);
    s.color = Rgba { r: 1, g: 2, b: 3, a: 4 };
    s.border_color = Rgba { r: 9, g: 8, b: 7, a: 6 };
    s.border = BorderWidths { left: 3, top: 0, right: 0, bottom: 0 };
    s.corner = Corners {
        top_left: UiUnit::Relative(100),
        top_right: UiUnit::Zero,
        bottom_right: UiUnit::Zero,
        bottom_left: UiUnit::Zero,
    };
    let e = ui.add_element(s, Widget::Container, true);
    ui.rebuild(v(800, 600));
    let c = ui.node(e).computed;
    assert_eq!(c.color, Rgba { r: 1, g: 2, b: 3, a: 4 });
    assert_eq!(c.border_color, Rgba { r: 9, g: 8, b: 7, a: 6 });
    assert_eq!(c.border, 3);
    // corner resolves against the element's own computed width
    assert_eq!(c.corner, 10);
}

#[test]
fn hovered_button_resolves_hover_style() {
    let mut ui = UiState::create(true);
    let mut hover = abs(0, 0, 100, 30);
    hover.color = Rgba { r: 40, g: 40, b: 40, a: 255 };
    let mut press = abs(0, 0, 100, 30);
    press.color = Rgba { r: 45, g: 45, b: 45, a: 255 };
    let b = ui.add_element(
        abs(0, 0, 100, 30),
        Widget::Button { interaction: Interaction::Idle, hover_style: hover, press_style: press },
        true,
    );
    ui.rebuild(v(800, 600));
    assert_eq!(ui.node(b).computed.color, Rgba { r: 100, g: 100, b: 100, a: 255 });
    let mut acts: Vec<UiAction> = Vec::new();
    ui.update_cursor(v(10, 10), UiEvent::Move, &mut acts);
    ui.rebuild(v(800, 600));
    assert_eq!(ui.node(b).computed.color, Rgba { r: 40, g: 40, b: 40, a: 255 });
    ui.update_cursor(v(10, 10), UiEvent::Press, &mut acts);
    ui.rebuild(v(800, 600));
    assert_eq!(ui.node(b).computed.color, Rgba { r: 45, g: 45, b: 45, a: 255 });
}

#[test]
fn rebuild_clears_dirty_flags() {
    let mut ui = UiState::create(true);
    let panel = ui.add_element(abs(0, 0, 100, 100), Widget::Container, true);
    let child = ui.add_child(panel, inline(10, 10), Widget::Container, true);
    assert!(ui.node(panel).dirty);
    assert!(ui.node(child).dirty);
    ui.rebuild(v(800, 600));
    assert!(!ui.node(panel).dirty);
    assert!(!ui.node(child).dirty);
    assert!(!ui.dirty());
}
