//! Shader path mapping and the main overlay: structure, layout and the
//! button press callback.

use retained_ui::geom::Vec2;
use retained_ui::element::{Widget, Interaction};
use retained_ui::shaders::{get_spirv_output_path, is_shader_source};
use retained_ui::demo::{build_main, on_click};
use retained_ui::dispatch::{UiEvent, UiAction};

#[test]
fn spirv_output_path_uses_file_name() {
    assert_eq!(get_spirv_output_path("shaders/basic.vert").as_str(), "spv/basic.vert.spv");
    assert_eq!(get_spirv_output_path("basic.frag").as_str(), "spv/basic.frag.spv");
    assert_eq!(get_spirv_output_path("a/b/bitmap.frag").as_str(), "spv/bitmap.frag.spv");
}

#[test]
fn shader_source_recognizer() {
    assert!(is_shader_source("shaders/basic.vert"));
    assert!(is_shader_source("shaders/basic.frag"));
    assert!(is_shader_source("x.comp"));
    assert!(is_shader_source("deep/dir/fx.geom"));
    assert!(!is_shader_source("shaders/basic.spv"));
    assert!(!is_shader_source("readme.md"));
    assert!(!is_shader_source("frag"));
}

#[test]
fn main_overlay_structure() {
    let ui = build_main();
    assert_eq!(ui.len(), 12);
    assert_eq!(ui.roots().as_slice(), &[0]);
    assert_eq!(ui.node(0).children.as_slice(), &[1, 3, 5, 7, 9, 10, 11]);
    for b in [3, 5, 7] {
        match &ui.node(b).widget {
            Widget::Button { interaction, .. } => {
                assert_eq!(*interaction, Interaction::Idle)
            },
            _ => panic!("expected a button at {b}"),
        }
    }
    match &ui.node(4).widget {
        Widget::Text { text } => assert_eq!(text.as_str(), "Normal"),
        _ => panic!("expected a text label"),
    }
}

#[test]
fn clicking_a_button_restyles_it() {
    let mut ui = build_main();
    on_click(&mut ui, 3);
    assert_eq!(ui.node(3).style.color.r, 35);
    match &ui.node(4).widget {
        Widget::Text { text } => assert_eq!(text.as_str(), "Button"),
        _ => panic!("expected a text label"),
    }
    assert!(ui.dirty());

    // a hovered button takes the hover palette and label
    match &mut ui.nodes[3].widget {
        Widget::Button { interaction, .. } => *interaction = Interaction::Hover,
        _ => unreachable!(),
    }
    // re-establish the hover slot the dispatcher would have set
    ui.selected = Some(3);
    on_click(&mut ui, 3);
    assert_eq!(ui.node(3).style.color.r, 40);
    match &ui.node(4).widget {
        Widget::Text { text } => assert_eq!(text.as_str(), "Hover"),
        _ => panic!("expected a text label"),
    }
}

#[test]
fn main_overlay_button_press_round_trip() {
    let mut ui = build_main();
    ui.rebuild(Vec2 { x: 1280, y: 720 });
    let b = 3;
    let pos = ui.node(b).computed.pos;
    let size = ui.node(b).computed.size;
    assert!(size.x > 0 && size.y > 0);
    let center = Vec2 { x: pos.x + size.x / 2, y: pos.y + size.y / 2 };

    let mut acts: Vec<UiAction> = Vec::new();
    let code = ui.update_cursor(center, UiEvent::Press, &mut acts);
    assert_eq!(code, 3);
    assert_eq!(ui.pressed(), Some(b));
    assert_eq!(acts, vec![UiAction::BeforePress { element: b }]);

    acts.clear();
    ui.update_cursor(center, UiEvent::Release, &mut acts);
    assert_eq!(acts, vec![UiAction::OnPress { element: b }]);
    assert_eq!(ui.pressed(), None);

    // run the host callback as the action asks
    on_click(&mut ui, b);
    match &ui.node(4).widget {
        Widget::Text { text } => assert_eq!(text.as_str(), "Button"),
        _ => panic!("expected a text label"),
    }
}
