//! Style data model and unit resolution.
//!
//! A style gives an element its placement mode (absolute or inline flow),
//! its width and height rules, and the visual attributes that layout copies
//! into the derived [`Computed`] box.  Lengths are pixel values or
//! per-mille fractions of a context length, so every resolution is exact
//! integer arithmetic.

use vstd::prelude::*;

use crate::geom::{Vec2, sat64, sat_sub, scale_permille, scale_by_permille, half_toward_zero};

verus! {

/// An RGBA colour, 8 bits per channel.
#[derive(Clone, Copy, Debug, PartialEq, Eq, Structural)]
pub struct Rgba {
    pub r: u8,
    pub g: u8,
    pub b: u8,
    pub a: u8,
}

impl Rgba {
    pub fn new(r: u8, g: u8, b: u8, a: u8) -> (c: Rgba)
        ensures
            c == (Rgba { r, g, b, a }),
    {
        Rgba { r, g, b, a }
    }

    pub fn rgb(r: u8, g: u8, b: u8) -> (c: Rgba)
        ensures
            c == (Rgba { r, g, b, a: 255u8 }),
    {
        Rgba { r, g, b, a: 255 }
    }
}

/// A length unit, resolved against a context box.
///
/// `Relative` resolves against the same axis it is used on; the width and
/// height variants pick their axis explicitly.  Relative factors are
/// per-mille, so `Relative(500)` is half the context length.
#[derive(Clone, Copy, Debug, PartialEq, Eq, Structural)]
pub enum UiUnit {
    Zero,
    Pixel(i64),
    Relative(u32),
    RelativeWidth(u32),
    RelativeHeight(u32),
}

/// A width or height rule: a fixed unit, the whole context axis, or
/// content-determined (`Auto` resolves to zero here; content measurement
/// is the renderer's, at the glyph step).
#[derive(Clone, Copy, Debug, PartialEq, Eq, Structural)]
pub enum UiSize {
    Auto,
    Fill,
    Size(UiUnit),
}

/// Anchor of an absolutely positioned box inside its parent box.
#[derive(Clone, Copy, Debug, PartialEq, Eq, Structural)]
pub enum Align {
    TopLeft,
    Top,
    TopRight,
    Left,
    Center,
    Right,
    BottomLeft,
    Bottom,
    BottomRight,
}

/// Per-side outer margins of an inline element.
#[derive(Clone, Copy, Debug, PartialEq, Eq, Structural)]
pub struct Margin {
    pub left: UiUnit,
    pub top: UiUnit,
    pub right: UiUnit,
    pub bottom: UiUnit,
}

/// Whether an inline box clips its contents; kept for the renderer, layout
/// itself always clips hit-testing to the parent box.
#[derive(Clone, Copy, Debug, PartialEq, Eq, Structural)]
pub enum Overflow {
    Clip,
    Visible,
}

/// Placement mode of an element.
#[derive(Clone, Copy, Debug, PartialEq, Eq, Structural)]
pub enum Position {
    Absolute { align: Align, x: UiUnit, y: UiUnit },
    Inline { margin: Margin, overflow: Overflow },
}

/// Corner rounding units, one per corner.
#[derive(Clone, Copy, Debug, PartialEq, Eq, Structural)]
pub struct Corners {
    pub top_left: UiUnit,
    pub top_right: UiUnit,
    pub bottom_right: UiUnit,
    pub bottom_left: UiUnit,
}

/// Border widths in pixels, one per side.
#[derive(Clone, Copy, Debug, PartialEq, Eq, Structural)]
pub struct BorderWidths {
    pub left: i64,
    pub top: i64,
    pub right: i64,
    pub bottom: i64,
}

/// The declarative style of one element.
#[derive(Clone, Copy, Debug, PartialEq, Eq, Structural)]
pub struct Style {
    pub position: Position,
    pub width: UiSize,
    pub height: UiSize,
    pub color: Rgba,
    pub border_color: Rgba,
    pub border: BorderWidths,
    pub corner: Corners,
    pub padding: i64,
}

/// The derived box of one element: root-relative absolute pixel
/// coordinates plus the visual attributes the renderer reads.
#[derive(Clone, Copy, Debug, PartialEq, Eq, Structural)]
pub struct Computed {
    pub pos: Vec2,
    pub size: Vec2,
    pub color: Rgba,
    pub border_color: Rgba,
    pub border: i64,
    pub corner: i64,
}

impl Computed {
    /// The all-zero derived box a fresh element carries before its first
    /// layout pass.
    pub fn empty() -> (c: Computed)
        ensures
            c == spec_empty_computed(),
    {
        Computed {
            pos: Vec2 { x: 0, y: 0 },
            size: Vec2 { x: 0, y: 0 },
            color: Rgba { r: 0, g: 0, b: 0, a: 0 },
            border_color: Rgba { r: 0, g: 0, b: 0, a: 0 },
            border: 0,
            corner: 0,
        }
    }
}

pub open spec fn spec_empty_computed() -> Computed {
    Computed {
        pos: Vec2 { x: 0, y: 0 },
        size: Vec2 { x: 0, y: 0 },
        color: Rgba { r: 0, g: 0, b: 0, a: 0 },
        border_color: Rgba { r: 0, g: 0, b: 0, a: 0 },
        border: 0,
        corner: 0,
    }
}

/// Value of a unit on the horizontal axis of context box `ctx`.
pub open spec fn spec_resolve_x(u: UiUnit, ctx: Vec2) -> int {
    match u {
        UiUnit::Zero => 0,
        UiUnit::Pixel(p) => p as int,
        UiUnit::Relative(k) => scale_permille(ctx.x as int, k as int),
        UiUnit::RelativeWidth(k) => scale_permille(ctx.x as int, k as int),
        UiUnit::RelativeHeight(k) => scale_permille(ctx.y as int, k as int),
    }
}

/// Value of a unit on the vertical axis of context box `ctx`.
pub open spec fn spec_resolve_y(u: UiUnit, ctx: Vec2) -> int {
    match u {
        UiUnit::Zero => 0,
        UiUnit::Pixel(p) => p as int,
        UiUnit::Relative(k) => scale_permille(ctx.y as int, k as int),
        UiUnit::RelativeWidth(k) => scale_permille(ctx.x as int, k as int),
        UiUnit::RelativeHeight(k) => scale_permille(ctx.y as int, k as int),
    }
}

pub fn resolve_x(u: UiUnit, ctx: Vec2) -> (r: i64)
    ensures
        r as int == spec_resolve_x(u, ctx),
{
    match u {
        UiUnit::Zero => 0,
        UiUnit::Pixel(p) => p,
        UiUnit::Relative(k) => scale_by_permille(ctx.x, k),
        UiUnit::RelativeWidth(k) => scale_by_permille(ctx.x, k),
        UiUnit::RelativeHeight(k) => scale_by_permille(ctx.y, k),
    }
}

pub fn resolve_y(u: UiUnit, ctx: Vec2) -> (r: i64)
    ensures
        r as int == spec_resolve_y(u, ctx),
{
    match u {
        UiUnit::Zero => 0,
        UiUnit::Pixel(p) => p,
        UiUnit::Relative(k) => scale_by_permille(ctx.y, k),
        UiUnit::RelativeWidth(k) => scale_by_permille(ctx.x, k),
        UiUnit::RelativeHeight(k) => scale_by_permille(ctx.y, k),
    }
}

/// Width rule resolved against context box `ctx`.
pub open spec fn spec_size_w(s: UiSize, ctx: Vec2) -> int {
    match s {
        UiSize::Auto => 0,
        UiSize::Fill => ctx.x as int,
        UiSize::Size(u) => spec_resolve_x(u, ctx),
    }
}

/// Height rule resolved against context box `ctx`.
pub open spec fn spec_size_h(s: UiSize, ctx: Vec2) -> int {
    match s {
        UiSize::Auto => 0,
        UiSize::Fill => ctx.y as int,
        UiSize::Size(u) => spec_resolve_y(u, ctx),
    }
}

pub fn size_w(s: UiSize, ctx: Vec2) -> (r: i64)
    ensures
        r as int == spec_size_w(s, ctx),
{
    match s {
        UiSize::Auto => 0,
        UiSize::Fill => ctx.x,
        UiSize::Size(u) => resolve_x(u, ctx),
    }
}

pub fn size_h(s: UiSize, ctx: Vec2) -> (r: i64)
    ensures
        r as int == spec_size_h(s, ctx),
{
    match s {
        UiSize::Auto => 0,
        UiSize::Fill => ctx.y,
        UiSize::Size(u) => resolve_y(u, ctx),
    }
}

/// Horizontal anchor offset of a box of width `w` inside a parent of width
/// `pw`: left-aligned at 0, centred, or right-aligned flush.
pub open spec fn spec_anchor_x(a: Align, pw: int, w: int) -> int {
    match a {
        Align::TopLeft | Align::Left | Align::BottomLeft => 0,
        Align::Top | Align::Center | Align::Bottom => half_toward_zero(pw - w),
        Align::TopRight | Align::Right | Align::BottomRight => sat64(pw - w),
    }
}

/// Vertical anchor offset of a box of height `h` inside a parent of height
/// `ph`.
pub open spec fn spec_anchor_y(a: Align, ph: int, h: int) -> int {
    match a {
        Align::TopLeft | Align::Top | Align::TopRight => 0,
        Align::Left | Align::Center | Align::Right => half_toward_zero(ph - h),
        Align::BottomLeft | Align::Bottom | Align::BottomRight => sat64(ph - h),
    }
}

fn half_diff(a: i64, b: i64) -> (r: i64)
    ensures
        r as int == half_toward_zero(a - b),
{
    let d: i128 = a as i128 - b as i128;
    let h: i128 = if d >= 0 { d / 2 } else { -((-d) / 2) };
    h as i64
}

pub fn anchor_x(a: Align, pw: i64, w: i64) -> (r: i64)
    ensures
        r as int == spec_anchor_x(a, pw as int, w as int),
{
    match a {
        Align::TopLeft | Align::Left | Align::BottomLeft => 0,
        Align::Top | Align::Center | Align::Bottom => half_diff(pw, w),
        Align::TopRight | Align::Right | Align::BottomRight => sat_sub(pw, w),
    }
}

pub fn anchor_y(a: Align, ph: i64, h: i64) -> (r: i64)
    ensures
        r as int == spec_anchor_y(a, ph as int, h as int),
{
    match a {
        Align::TopLeft | Align::Top | Align::TopRight => 0,
        Align::Left | Align::Center | Align::Right => half_diff(ph, h),
        Align::BottomLeft | Align::Bottom | Align::BottomRight => sat_sub(ph, h),
    }
}

} // verus!
