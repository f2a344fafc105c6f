//! Box membership, saturating pixel arithmetic and unit resolution.

use retained_ui::geom::{Vec2, contains_point, sat_add, sat_sub, scale_by_permille};
use retained_ui::style::{
    resolve_x, resolve_y, size_w, size_h, anchor_x, anchor_y, Align, UiUnit, UiSize,
};

fn v(x: i64, y: i64) -> Vec2 {
    Vec2 { x, y }
}

#[test]
fn box_membership_edges() {
    let pos = v(10, 20);
    let size = v(100, 30);
    // inside iff pos.x <= c.x < pos.x + size.x and pos.y <= c.y < pos.y + size.y
    assert!(contains_point(pos, size, v(10, 20)));
    assert!(contains_point(pos, size, v(109, 49)));
    assert!(!contains_point(pos, size, v(110, 20)));
    assert!(!contains_point(pos, size, v(10, 50)));
    assert!(!contains_point(pos, size, v(9, 20)));
    assert!(!contains_point(pos, size, v(10, 19)));
    assert!(contains_point(pos, size, v(50, 35)));
}

#[test]
fn box_membership_zero_size() {
    // an empty box contains nothing
    assert!(!contains_point(v(0, 0), v(0, 0), v(0, 0)));
    assert!(!contains_point(v(5, 5), v(0, 10), v(5, 5)));
}

#[test]
fn box_membership_extreme_coordinates() {
    // the far-edge comparison must not overflow
    assert!(contains_point(v(i64::MAX - 1, 0), v(5, 1), v(i64::MAX, 0)));
    assert!(!contains_point(v(i64::MAX, 0), v(0, 1), v(i64::MAX, 0)));
}

#[test]
fn saturating_arithmetic() {
    assert_eq!(sat_add(2, 3), 5);
    assert_eq!(sat_add(i64::MAX, 1), i64::MAX);
    assert_eq!(sat_add(i64::MIN, -1), i64::MIN);
    assert_eq!(sat_sub(2, 3), -1);
    assert_eq!(sat_sub(i64::MIN, 1), i64::MIN);
    assert_eq!(sat_sub(i64::MAX, -1), i64::MAX);
}

#[test]
fn permille_scaling() {
    assert_eq!(scale_by_permille(200, 500), 100);
    assert_eq!(scale_by_permille(1000, 200), 200);
    assert_eq!(scale_by_permille(999, 1000), 999);
    assert_eq!(scale_by_permille(10, 333), 3);
    // non-positive contexts resolve to zero
    assert_eq!(scale_by_permille(-50, 500), 0);
    assert_eq!(scale_by_permille(0, 500), 0);
}

#[test]
fn unit_resolution_axes() {
    let ctx = v(200, 100);
    assert_eq!(resolve_x(UiUnit::Zero, ctx), 0);
    assert_eq!(resolve_x(UiUnit::Pixel(17), ctx), 17);
    assert_eq!(resolve_x(UiUnit::Relative(500), ctx), 100);
    assert_eq!(resolve_y(UiUnit::Relative(500), ctx), 50);
    assert_eq!(resolve_x(UiUnit::RelativeWidth(250), ctx), 50);
    assert_eq!(resolve_y(UiUnit::RelativeWidth(250), ctx), 50);
    assert_eq!(resolve_x(UiUnit::RelativeHeight(100), ctx), 10);
    assert_eq!(resolve_y(UiUnit::RelativeHeight(100), ctx), 10);
}

#[test]
fn size_rules() {
    let ctx = v(640, 480);
    assert_eq!(size_w(UiSize::Auto, ctx), 0);
    assert_eq!(size_w(UiSize::Fill, ctx), 640);
    assert_eq!(size_h(UiSize::Fill, ctx), 480);
    assert_eq!(size_w(UiSize::Size(UiUnit::Pixel(33)), ctx), 33);
    assert_eq!(size_h(UiSize::Size(UiUnit::Relative(250)), ctx), 120);
}

#[test]
fn anchors() {
    // a 40-wide box in a 100-wide parent
    assert_eq!(anchor_x(Align::TopLeft, 100, 40), 0);
    assert_eq!(anchor_x(Align::Center, 100, 40), 30);
    assert_eq!(anchor_x(Align::Right, 100, 40), 60);
    assert_eq!(anchor_y(Align::Top, 100, 40), 0);
    assert_eq!(anchor_y(Align::Left, 100, 40), 30);
    assert_eq!(anchor_y(Align::Bottom, 100, 40), 60);
    // oversized boxes centre with truncation toward zero
    assert_eq!(anchor_x(Align::Center, 10, 15), -2);
}
