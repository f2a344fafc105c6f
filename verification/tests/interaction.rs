//! The pointer interaction state machine: hit-testing order, focus
//! transitions, capture delivery and callback reporting.

use retained_ui::geom::Vec2;
use retained_ui::style::{
    Style, Rgba, Position, Align, UiUnit, UiSize, Margin, Overflow, Corners, BorderWidths,
};
use retained_ui::element::{Widget, Interaction, DragAxis, UiElement};
use retained_ui::state::UiState;
use retained_ui::dispatch::{UiEvent, UiAction, TouchPhase, pointer_event_for_touch, pointer_event_for_mouse};

fn v(x: i64, y: i64) -> Vec2 {
    Vec2 { x, y }
}

fn abs(x: i64, y: i64, w: i64, h: i64) -> Style {
    Style {
        position: Position::Absolute {
            align: Align::TopLeft,
            x: UiUnit::Pixel(x),
            y: UiUnit::Pixel(y),
        },
        width: UiSize::Size(UiUnit::Pixel(w)),
        height: UiSize::Size(UiUnit::Pixel(h)),
        color: Rgba { r: 100, g: 100, b: 100, a: 255 },
        border_color: Rgba { r: 0, g: 0, b: 0, a: 255 },
        border: BorderWidths { left: 0, top: 0, right: 0, bottom: 0 },
        corner: Corners {
            top_left: UiUnit::Zero,
            top_right: UiUnit::Zero,
            bottom_right: UiUnit::Zero,
            bottom_left: UiUnit::Zero,
        },
        padding: 0,
    }
}

fn inline(w: i64, h: i64) -> Style {
    let mut s = abs(0, 0, w, h);
    s.position = Position::Inline {
        margin: Margin {
            left: UiUnit::Zero,
            top: UiUnit::Zero,
            right: UiUnit::Zero,
            bottom: UiUnit::Zero,
        },
        overflow: Overflow::Clip,
    };
    s
}

fn button(x: i64, y: i64, w: i64, h: i64) -> (Style, Widget) {
    (
        abs(x, y, w, h),
        Widget::Button {
            interaction: Interaction::Idle,
            hover_style: abs(x, y, w, h),
            press_style: abs(x, y, w, h),
        },
    )
}

fn checkbox(x: i64, y: i64, w: i64, h: i64) -> (Style, Widget) {
    (
        abs(x, y, w, h),
        Widget::CheckBox {
            selected: false,
            pressed: false,
            enabled: false,
            hover_style: abs(x, y, w, h),
            press_style: abs(x, y, w, h),
        },
    )
}

fn interaction_of(e: &UiElement) -> Interaction {
    match &e.widget {
        Widget::Button { interaction, .. } => *interaction,
        Widget::DragBox { interaction, .. } => *interaction,
        _ => panic!("not a button or drag box"),
    }
}

#[test]
fn press_and_release_inside_fires_on_press() {
    // Scenario: a button at (0,0) sized 100 x 30
    let mut ui = UiState::create(true);
    let (s, w) = button(0, 0, 100, 30);
    let b = ui.add_element(s, w, true);
    ui.rebuild(v(800, 600));

    let mut acts: Vec<UiAction> = Vec::new();
    let code = ui.update_cursor(v(10, 10), UiEvent::Press, &mut acts);
    assert_eq!(code, 3);
    assert_eq!(interaction_of(ui.node(b)), Interaction::Pressed);
    assert_eq!(ui.pressed(), Some(b));
    assert!(ui.dirty());
    assert_eq!(acts, vec![UiAction::BeforePress { element: b }]);

    let mut acts2: Vec<UiAction> = Vec::new();
    let code2 = ui.update_cursor(v(10, 10), UiEvent::Release, &mut acts2);
    assert_eq!(code2, 3);
    assert_eq!(interaction_of(ui.node(b)), Interaction::Idle);
    assert_eq!(ui.pressed(), None);
    assert!(ui.dirty());
    assert!(acts2.contains(&UiAction::OnPress { element: b }));
}

#[test]
fn release_outside_suppresses_callback() {
    // press inside, release with the cursor moved outside the box:
    // on-press must not fire, yet the state resets and capture clears
    let mut ui = UiState::create(true);
    let (s, w) = button(0, 0, 100, 30);
    let b = ui.add_element(s, w, true);
    ui.rebuild(v(800, 600));

    let mut acts: Vec<UiAction> = Vec::new();
    ui.update_cursor(v(10, 10), UiEvent::Press, &mut acts);
    acts.clear();
    ui.update_cursor(v(200, 200), UiEvent::Release, &mut acts);
    assert!(!acts.iter().any(|a| matches!(a, UiAction::OnPress { .. })));
    assert_eq!(interaction_of(ui.node(b)), Interaction::Idle);
    assert_eq!(ui.pressed(), None);
}

#[test]
fn topmost_sibling_wins() {
    // two overlapping siblings: the one declared second is on top and
    // receives the event
    let mut ui = UiState::create(true);
    let (sa, wa) = button(0, 0, 100, 30);
    let a = ui.add_element(sa, wa, true);
    let (sb, wb) = button(0, 0, 100, 30);
    let b = ui.add_element(sb, wb, true);
    ui.rebuild(v(800, 600));

    let mut acts: Vec<UiAction> = Vec::new();
    let code = ui.update_cursor(v(10, 10), UiEvent::Move, &mut acts);
    assert_eq!(code, 3);
    assert_eq!(ui.selected(), Some(b));
    assert_eq!(interaction_of(ui.node(b)), Interaction::Hover);
    assert_eq!(interaction_of(ui.node(a)), Interaction::Idle);
}

#[test]
fn hover_moves_between_buttons_in_one_event() {
    // moving from button A onto button B demotes A and promotes B in
    // the same event
    let mut ui = UiState::create(true);
    let (sa, wa) = button(0, 0, 100, 30);
    let a = ui.add_element(sa, wa, true);
    let (sb, wb) = button(100, 0, 100, 30);
    let b = ui.add_element(sb, wb, true);
    ui.rebuild(v(800, 600));

    let mut acts: Vec<UiAction> = Vec::new();
    ui.update_cursor(v(10, 10), UiEvent::Move, &mut acts);
    assert_eq!(interaction_of(ui.node(a)), Interaction::Hover);
    assert_eq!(ui.selected(), Some(a));

    let code = ui.update_cursor(v(150, 10), UiEvent::Move, &mut acts);
    assert_eq!(code, 3);
    assert_eq!(interaction_of(ui.node(a)), Interaction::Idle);
    assert_eq!(interaction_of(ui.node(b)), Interaction::Hover);
    assert_eq!(ui.selected(), Some(b));
}

#[test]
fn repeated_hover_is_re_delivery() {
    // the second move at the same point inside an already-hovered
    // element returns code 2
    let mut ui = UiState::create(true);
    let (s, w) = button(0, 0, 100, 30);
    ui.add_element(s, w, true);
    ui.rebuild(v(800, 600));

    let mut acts: Vec<UiAction> = Vec::new();
    let first = ui.update_cursor(v(10, 10), UiEvent::Move, &mut acts);
    let second = ui.update_cursor(v(10, 10), UiEvent::Move, &mut acts);
    assert_eq!(first, 3);
    assert_eq!(second, 2);
}

#[test]
fn hover_exit_demotes_on_leaving() {
    let mut ui = UiState::create(true);
    let (s, w) = button(0, 0, 100, 30);
    let b = ui.add_element(s, w, true);
    ui.rebuild(v(800, 600));

    let mut acts: Vec<UiAction> = Vec::new();
    ui.update_cursor(v(10, 10), UiEvent::Move, &mut acts);
    assert_eq!(interaction_of(ui.node(b)), Interaction::Hover);
    let code = ui.update_cursor(v(400, 400), UiEvent::Move, &mut acts);
    assert_eq!(code, 3);
    assert_eq!(interaction_of(ui.node(b)), Interaction::Idle);
    assert_eq!(ui.selected(), None);
}

#[test]
fn at_most_one_element_hovered_after_any_sequence() {
    let mut ui = UiState::create(true);
    for i in 0..3 {
        let (s, w) = button(i * 100, 0, 100, 30);
        ui.add_element(s, w, true);
    }
    ui.rebuild(v(800, 600));

    let script = [
        (v(10, 10), UiEvent::Move),
        (v(150, 10), UiEvent::Move),
        (v(150, 10), UiEvent::Press),
        (v(250, 10), UiEvent::Move),
        (v(250, 10), UiEvent::Release),
        (v(50, 10), UiEvent::Move),
        (v(400, 400), UiEvent::Move),
        (v(250, 10), UiEvent::Move),
    ];
    let mut acts: Vec<UiAction> = Vec::new();
    for (p, e) in script {
        ui.update_cursor(p, e, &mut acts);
        let hovered: Vec<usize> = (0..ui.len())
            .filter(|&i| match &ui.node(i).widget {
                Widget::Button { interaction, .. } => *interaction == Interaction::Hover,
                Widget::CheckBox { selected, .. } => *selected,
                _ => false,
            })
            .collect();
        assert!(hovered.len() <= 1);
        if let Some(&h) = hovered.first() {
            assert_eq!(ui.selected(), Some(h));
        }
    }
}

#[test]
fn miss_propagates_to_non_ui_consumers() {
    // outcome 0 tells the host the event belongs to whatever is behind
    // the overlay
    let mut ui = UiState::create(true);
    let (s, w) = button(0, 0, 100, 30);
    ui.add_element(s, w, true);
    ui.rebuild(v(800, 600));

    let mut acts: Vec<UiAction> = Vec::new();
    assert_eq!(ui.update_cursor(v(500, 500), UiEvent::Move, &mut acts), 0);
    assert_eq!(ui.update_cursor(v(500, 500), UiEvent::Press, &mut acts), 0);
    assert!(acts.is_empty());
}

#[test]
fn invisible_elements_are_not_hit() {
    let mut ui = UiState::create(true);
    let (s, w) = button(0, 0, 100, 30);
    ui.add_element(s, w, false);
    ui.rebuild(v(800, 600));

    let mut acts: Vec<UiAction> = Vec::new();
    let code = ui.update_cursor(v(10, 10), UiEvent::Move, &mut acts);
    assert_eq!(code, 0);
}

#[test]
fn children_clipped_to_parent_box() {
    // a child reaching outside its parent is not hit-tested where the
    // parent's own box already missed
    let mut ui = UiState::create(true);
    let panel = ui.add_element(abs(0, 0, 50, 50), Widget::Container, true);
    let (s, w) = button(60, 0, 20, 20);
    ui.add_child(panel, s, w, true);
    ui.rebuild(v(800, 600));

    let mut acts: Vec<UiAction> = Vec::new();
    let code = ui.update_cursor(v(65, 5), UiEvent::Move, &mut acts);
    assert_eq!(code, 0);
}

#[test]
fn container_consumes_event_without_change() {
    let mut ui = UiState::create(true);
    ui.add_element(abs(0, 0, 100, 100), Widget::Container, true);
    ui.rebuild(v(800, 600));

    let mut acts: Vec<UiAction> = Vec::new();
    let code = ui.update_cursor(v(10, 10), UiEvent::Move, &mut acts);
    assert_eq!(code, 1);
    assert!(acts.is_empty());
}

#[test]
fn drag_axis_masks_delta() {
    // drag box locked to the horizontal axis: a (10, 10) cursor delta
    // applies as (10, 0)
    let mut ui = UiState::create(true);
    let d = ui.add_element(
        abs(0, 0, 50, 50),
        Widget::DragBox { interaction: Interaction::Idle, axis: DragAxis::X },
        true,
    );
    ui.rebuild(v(800, 600));

    let mut acts: Vec<UiAction> = Vec::new();
    ui.update_cursor(v(10, 10), UiEvent::Move, &mut acts);
    let code = ui.update_cursor(v(10, 10), UiEvent::Press, &mut acts);
    assert_eq!(code, 1);
    assert_eq!(ui.pressed(), Some(d));
    assert_eq!(interaction_of(ui.node(d)), Interaction::Pressed);

    acts.clear();
    let code2 = ui.update_cursor(v(20, 20), UiEvent::Move, &mut acts);
    assert_eq!(code2, 3);
    assert_eq!(ui.node(d).computed.pos, v(10, 0));
    assert_eq!(acts, vec![UiAction::OnDrag { element: d, delta: v(10, 0) }]);

    ui.update_cursor(v(20, 20), UiEvent::Release, &mut acts);
    assert_eq!(interaction_of(ui.node(d)), Interaction::Idle);
    assert_eq!(ui.pressed(), None);
}

#[test]
fn drag_applies_even_outside_box() {
    // capture bypasses box membership: the drag follows the cursor far
    // outside the element
    let mut ui = UiState::create(true);
    let d = ui.add_element(
        abs(0, 0, 50, 50),
        Widget::DragBox { interaction: Interaction::Idle, axis: DragAxis::Both },
        true,
    );
    ui.rebuild(v(800, 600));

    let mut acts: Vec<UiAction> = Vec::new();
    ui.update_cursor(v(10, 10), UiEvent::Move, &mut acts);
    ui.update_cursor(v(10, 10), UiEvent::Press, &mut acts);
    ui.update_cursor(v(500, 300), UiEvent::Move, &mut acts);
    assert_eq!(ui.node(d).computed.pos, v(490, 290));
}

#[test]
fn inline_drag_box_moves_its_parent() {
    // the drag-the-panel-by-its-handle case: an inline drag box with a
    // parent applies the movement to the parent's derived position
    let mut ui = UiState::create(true);
    let panel = ui.add_element(abs(0, 0, 200, 200), Widget::Container, true);
    let handle = ui.add_child(
        panel,
        inline(200, 20),
        Widget::DragBox { interaction: Interaction::Idle, axis: DragAxis::Both },
        true,
    );
    ui.rebuild(v(800, 600));

    let mut acts: Vec<UiAction> = Vec::new();
    ui.update_cursor(v(10, 10), UiEvent::Move, &mut acts);
    ui.update_cursor(v(10, 10), UiEvent::Press, &mut acts);
    ui.update_cursor(v(40, 25), UiEvent::Move, &mut acts);
    assert_eq!(ui.node(panel).computed.pos, v(30, 15));
    // the handle's own derived position is untouched
    assert_eq!(ui.node(handle).computed.pos, v(0, 0));
}

#[test]
fn checkbox_toggles_on_release_inside() {
    let mut ui = UiState::create(true);
    let (s, w) = checkbox(0, 0, 20, 20);
    let c = ui.add_element(s, w, true);
    ui.rebuild(v(800, 600));

    let mut acts: Vec<UiAction> = Vec::new();
    let code = ui.update_cursor(v(5, 5), UiEvent::Press, &mut acts);
    assert_eq!(code, 3);
    assert_eq!(ui.pressed(), Some(c));

    acts.clear();
    ui.update_cursor(v(5, 5), UiEvent::Release, &mut acts);
    assert_eq!(acts, vec![UiAction::OnEnable { element: c }]);
    match &ui.node(c).widget {
        Widget::CheckBox { enabled, pressed, .. } => {
            assert!(*enabled);
            assert!(!*pressed);
        },
        _ => panic!("not a check box"),
    }

    // a second press and release toggles back off
    ui.update_cursor(v(5, 5), UiEvent::Press, &mut acts);
    acts.clear();
    ui.update_cursor(v(5, 5), UiEvent::Release, &mut acts);
    assert_eq!(acts, vec![UiAction::OnDisable { element: c }]);
    match &ui.node(c).widget {
        Widget::CheckBox { enabled, .. } => assert!(!*enabled),
        _ => panic!("not a check box"),
    }
}

#[test]
fn checkbox_release_outside_does_not_toggle() {
    let mut ui = UiState::create(true);
    let (s, w) = checkbox(0, 0, 20, 20);
    let c = ui.add_element(s, w, true);
    ui.rebuild(v(800, 600));

    let mut acts: Vec<UiAction> = Vec::new();
    ui.update_cursor(v(5, 5), UiEvent::Press, &mut acts);
    acts.clear();
    ui.update_cursor(v(300, 300), UiEvent::Release, &mut acts);
    assert!(acts.is_empty());
    match &ui.node(c).widget {
        Widget::CheckBox { enabled, pressed, .. } => {
            assert!(!*enabled);
            assert!(!*pressed);
        },
        _ => panic!("not a check box"),
    }
}

#[test]
fn cursor_position_stored_every_call() {
    let mut ui = UiState::create(true);
    ui.rebuild(v(800, 600));
    let mut acts: Vec<UiAction> = Vec::new();
    ui.update_cursor(v(42, 17), UiEvent::Move, &mut acts);
    assert_eq!(ui.cursor_pos(), v(42, 17));
    ui.update_cursor(v(1, 2), UiEvent::Release, &mut acts);
    assert_eq!(ui.cursor_pos(), v(1, 2));
}

#[test]
fn move_element_shifts_position() {
    let mut ui = UiState::create(true);
    let e = ui.add_element(abs(10, 10, 50, 50), Widget::Container, true);
    ui.rebuild(v(800, 600));
    ui.move_element(e, v(5, -3));
    assert_eq!(ui.node(e).computed.pos, v(15, 7));
}

#[test]
fn touch_phases_map_to_pointer_events() {
    assert_eq!(pointer_event_for_touch(TouchPhase::Started), UiEvent::Press);
    assert_eq!(pointer_event_for_touch(TouchPhase::Moved), UiEvent::Move);
    assert_eq!(pointer_event_for_touch(TouchPhase::Ended), UiEvent::Release);
    // a cancelled touch phase is an ordinary release
    assert_eq!(pointer_event_for_touch(TouchPhase::Cancelled), UiEvent::Release);
    assert_eq!(pointer_event_for_mouse(true), UiEvent::Press);
    assert_eq!(pointer_event_for_mouse(false), UiEvent::Release);
}

#[test]
fn slider_is_a_passive_leaf() {
    // the slider is specified at the boundary only: it exposes its
    // value range and is not wired into the transition table
    let mut ui = UiState::create(true);
    let s = ui.add_element(
        abs(0, 0, 100, 16),
        Widget::Slider { value: 0, min: 0, max: 100 },
        true,
    );
    ui.rebuild(v(800, 600));

    let mut acts: Vec<UiAction> = Vec::new();
    assert_eq!(ui.update_cursor(v(10, 10), UiEvent::Press, &mut acts), 1);
    assert_eq!(ui.update_cursor(v(10, 10), UiEvent::Move, &mut acts), 1);
    assert_eq!(ui.update_cursor(v(10, 10), UiEvent::Release, &mut acts), 1);
    assert!(acts.is_empty());
    assert_eq!(ui.pressed(), None);
    match ui.node(s).widget {
        Widget::Slider { value, min, max } => {
            assert_eq!((value, min, max), (0, 0, 100));
        },
        _ => panic!("not a slider"),
    }
}

#[test]
fn hiding_the_overlay_marks_it_dirty() {
    let mut ui = UiState::create(true);
    ui.rebuild(v(800, 600));
    assert!(!ui.dirty());
    ui.set_visible(false);
    assert!(!ui.visible());
    assert!(ui.dirty());
    ui.clear_dirty();
    assert!(!ui.dirty());
}
