//! The main overlay of the application: a left side panel with a title
//! label, three push buttons and three placeholder rows, plus the button
//! callback that restyles a button and its label after each press.

use vstd::prelude::*;

use crate::geom::Vec2;
use crate::style::{
    Style, Rgba, Position, Align, UiUnit, UiSize, Margin, Overflow, Corners, BorderWidths,
};
use crate::element::{UiElement, Widget, Interaction};
use crate::state::{UiState, UiView, wf, wf_node};

verus! {

/// An inline style with symmetric vertical margins, full width, a fixed
/// pixel height and a flat colour.
fn row_style(margin_v: i64, height: i64, color: Rgba) -> (s: Style)
    ensures
        s == spec_row_style(margin_v, height, color),
{
    Style {
        position: Position::Inline {
            margin: Margin {
                left: UiUnit::Zero,
                top: UiUnit::Pixel(margin_v),
                right: UiUnit::Zero,
                bottom: UiUnit::Pixel(margin_v),
            },
            overflow: Overflow::Clip,
        },
        width: UiSize::Size(UiUnit::Relative(1000)),
        height: UiSize::Size(UiUnit::Pixel(height)),
        color,
        border_color: Rgba { r: 0, g: 0, b: 0, a: 0 },
        border: BorderWidths { left: 0, top: 0, right: 0, bottom: 0 },
        corner: Corners {
            top_left: UiUnit::Zero,
            top_right: UiUnit::Zero,
            bottom_right: UiUnit::Zero,
            bottom_left: UiUnit::Zero,
        },
        padding: 0,
    }
}

pub open spec fn spec_row_style(margin_v: i64, height: i64, color: Rgba) -> Style {
    Style {
        position: Position::Inline {
            margin: Margin {
                left: UiUnit::Zero,
                top: UiUnit::Pixel(margin_v),
                right: UiUnit::Zero,
                bottom: UiUnit::Pixel(margin_v),
            },
            overflow: Overflow::Clip,
        },
        width: UiSize::Size(UiUnit::Relative(1000)),
        height: UiSize::Size(UiUnit::Pixel(height)),
        color,
        border_color: Rgba { r: 0u8, g: 0u8, b: 0u8, a: 0u8 },
        border: BorderWidths { left: 0i64, top: 0i64, right: 0i64, bottom: 0i64 },
        corner: Corners {
            top_left: UiUnit::Zero,
            top_right: UiUnit::Zero,
            bottom_right: UiUnit::Zero,
            bottom_left: UiUnit::Zero,
        },
        padding: 0i64,
    }
}

/// The colour a button shows for an interaction state, as the press
/// callback restyles it.
pub open spec fn click_color(v: Interaction) -> Rgba {
    match v {
        Interaction::Idle => Rgba { r: 35u8, g: 35u8, b: 35u8, a: 255u8 },
        Interaction::Hover => Rgba { r: 40u8, g: 40u8, b: 40u8, a: 255u8 },
        Interaction::Pressed => Rgba { r: 45u8, g: 45u8, b: 45u8, a: 255u8 },
    }
}

/// The label a button shows for an interaction state, as the press
/// callback rewrites it.
pub open spec fn click_label(v: Interaction) -> Seq<char> {
    match v {
        Interaction::Idle => "Button"@,
        Interaction::Hover => "Hover"@,
        Interaction::Pressed => "Press"@,
    }
}

/// Build the main overlay: one absolutely positioned side panel (node 0)
/// whose children flow as rows — a title container with a text label,
/// three buttons each carrying a text label, and three empty rows.
pub fn build_main() -> (s: UiState)
    ensures
        wf(s@),
        s@.nodes.len() == 12,
        s@.roots == seq![0usize],
        s@.nodes[0].children@ == seq![1usize, 3usize, 5usize, 7usize, 9usize, 10usize, 11usize],
        forall|b: int|
            b == 3 || b == 5 || b == 7 ==> (#[trigger] s@.nodes[b].widget matches Widget::Button {
                interaction: Interaction::Idle,
                hover_style,
                press_style,
            } && hover_style == spec_row_style(1, 41, click_color(Interaction::Hover))
                && press_style == spec_row_style(1, 41, click_color(Interaction::Pressed))),
        forall|b: int|
            b == 3 || b == 5 || b == 7 ==> #[trigger] s@.nodes[b].style == spec_row_style(
                1,
                41,
                click_color(Interaction::Idle),
            ),
        s@.nodes[2].widget is Text,
        (s@.nodes[4].widget matches Widget::Text { text } && text@ == "Normal"@),
        (s@.nodes[6].widget matches Widget::Text { text } && text@ == "Normal"@),
        (s@.nodes[8].widget matches Widget::Text { text } && text@ == "Normal"@),
        s@.nodes[3].children@ == seq![4usize],
        s@.nodes[5].children@ == seq![6usize],
        s@.nodes[7].children@ == seq![8usize],
        s@.selected is None,
        s@.pressed is None,
        s@.visible == true,
{
    let mut state = UiState::create(true);

    let panel_style = Style {
        position: Position::Absolute { align: Align::Left, x: UiUnit::Zero, y: UiUnit::Zero },
        width: UiSize::Size(UiUnit::Pixel(200)),
        height: UiSize::Size(UiUnit::Relative(1000)),
        color: Rgba { r: 25, g: 25, b: 25, a: 255 },
        border_color: Rgba { r: 0, g: 0, b: 0, a: 0 },
        border: BorderWidths { left: 0, top: 0, right: 0, bottom: 0 },
        corner: Corners {
            top_left: UiUnit::Zero,
            top_right: UiUnit::Zero,
            bottom_right: UiUnit::Zero,
            bottom_left: UiUnit::Zero,
        },
        padding: 20,
    };
    let title_row = row_style(10, 32, Rgba { r: 0, g: 0, b: 0, a: 0 });
    let button_row = row_style(1, 41, Rgba { r: 35, g: 35, b: 35, a: 255 });
    let hover_row = row_style(1, 41, Rgba { r: 40, g: 40, b: 40, a: 255 });
    let press_row = row_style(1, 41, Rgba { r: 45, g: 45, b: 45, a: 255 });
    let text_style = row_style(0, 16, Rgba { r: 255, g: 0, b: 0, a: 255 });

    let panel = state.add_element(panel_style, Widget::Container, true);

    let title = state.add_child(panel, title_row, Widget::Container, true);
    state.add_child(title, text_style, Widget::Text { text: String::from_str("Vulkan is the best!") }, true);

    let b1 = state.add_child(
        panel,
        button_row,
        Widget::Button {
            interaction: Interaction::Idle,
            hover_style: hover_row,
            press_style: press_row,
        },
        true,
    );
    state.add_child(b1, text_style, Widget::Text { text: String::from_str("Normal") }, true);
    let b2 = state.add_child(
        panel,
        button_row,
        Widget::Button {
            interaction: Interaction::Idle,
            hover_style: hover_row,
            press_style: press_row,
        },
        true,
    );
    state.add_child(b2, text_style, Widget::Text { text: String::from_str("Normal") }, true);
    let b3 = state.add_child(
        panel,
        button_row,
        Widget::Button {
            interaction: Interaction::Idle,
            hover_style: hover_row,
            press_style: press_row,
        },
        true,
    );
    state.add_child(b3, text_style, Widget::Text { text: String::from_str("Normal") }, true);

    state.add_child(panel, button_row, Widget::Container, true);
    state.add_child(panel, button_row, Widget::Container, true);
    state.add_child(panel, button_row, Widget::Container, true);

    proof {
        assert(state@.roots =~= seq![0usize]);
        assert(state@.nodes[0].children@ =~= seq![
            1usize,
            3usize,
            5usize,
            7usize,
            9usize,
            10usize,
            11usize,
        ]);
        assert(state@.nodes[3].children@ =~= seq![4usize]);
        assert(state@.nodes[5].children@ =~= seq![6usize]);
        assert(state@.nodes[7].children@ =~= seq![8usize]);
    }
    state
}

/// The press callback of the demo buttons: restyle the button's base
/// colour for its current interaction state and rewrite its text label
/// accordingly, then signal a colour re-upload.
pub fn on_click(ui: &mut UiState, i: usize)
    requires
        wf(old(ui)@),
        i < old(ui)@.nodes.len(),
        old(ui)@.nodes[i as int].widget is Button,
    ensures
        wf(final(ui)@),
        final(ui)@.nodes.len() == old(ui)@.nodes.len(),
        ({
            let e = old(ui)@.nodes[i as int];
            let v = e.widget->Button_interaction;
            let cs = e.children@;
            &&& final(ui)@.nodes[i as int] == UiElement {
                style: Style { color: click_color(v), ..e.style },
                ..e
            }
            &&& (cs.len() > 0 && old(ui)@.nodes[cs[0] as int].widget is Text ==> {
                let c = old(ui)@.nodes[cs[0] as int];
                &&& final(ui)@.nodes[cs[0] as int].widget matches Widget::Text { text } && text@
                    == click_label(v)
                &&& final(ui)@.nodes[cs[0] as int] == UiElement {
                    widget: final(ui)@.nodes[cs[0] as int].widget,
                    ..c
                }
            })
            &&& forall|j: int|
                0 <= j < old(ui)@.nodes.len() && j != i && !(cs.len() > 0 && j == cs[0] && old(
                    ui,
                )@.nodes[cs[0] as int].widget is Text) ==> final(ui)@.nodes[j] == old(ui)@.nodes[j]
        }),
        final(ui)@ == (UiView { nodes: final(ui)@.nodes, dirty: true, ..old(ui)@ }),
{
    let ghost s0 = ui@;
    proof {
        assert(wf_node(s0.nodes, i as int));
    }
    let v = match &ui.nodes[i].widget {
        Widget::Button { interaction, .. } => *interaction,
        _ => Interaction::Idle,
    };
    let color: Rgba;
    let label: &str;
    match v {
        Interaction::Idle => {
            color = Rgba { r: 35, g: 35, b: 35, a: 255 };
            label = "Button";
        },
        Interaction::Hover => {
            color = Rgba { r: 40, g: 40, b: 40, a: 255 };
            label = "Hover";
        },
        Interaction::Pressed => {
            color = Rgba { r: 45, g: 45, b: 45, a: 255 };
            label = "Press";
        },
    }
    ui.nodes[i].style.color = color;
    if ui.nodes[i].children.len() > 0 {
        let c0 = ui.nodes[i].children[0];
        match &mut ui.nodes[c0].widget {
            Widget::Text { text } => {
                *text = String::from_str(label);
            },
            _ => {},
        }
    }
    ui.dirty = true;
    proof {
        assert forall|j: int|
            0 <= j < s0.nodes.len() implies crate::dispatch::same_shape(
            s0.nodes[j],
            #[trigger] ui@.nodes[j],
        ) by {}
        crate::dispatch::lemma_wf_shape_preserved(s0, ui@);
        assert forall|n: int|
            0 <= n < ui@.nodes.len() && crate::element::spec_hovered(
                #[trigger] ui@.nodes[n],
            ) implies ui@.selected == Some(n as usize) by {
            if ui@.nodes[n].widget == s0.nodes[n].widget {
                assert(crate::element::spec_hovered(s0.nodes[n]));
            } else {
                assert(ui@.nodes[n].widget is Text || n == i as int);
                if n == i as int {
                    assert(crate::element::spec_hovered(s0.nodes[n]));
                }
            }
        }
        match ui@.selected {
            Some(j) => {
                assert(s0.nodes[j as int].widget is Button || s0.nodes[j as int].widget
                    is CheckBox);
                assert(ui@.nodes[j as int].widget is Button <==> s0.nodes[j as int].widget
                    is Button);
                assert(ui@.nodes[j as int].widget is CheckBox <==> s0.nodes[j as int].widget
                    is CheckBox);
            },
            None => {},
        }
    }
}

} // verus!
