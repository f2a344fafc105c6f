//! Pixel-space vectors, the box membership test, and saturating pixel
//! arithmetic.
//!
//! All coordinates are signed 64-bit pixel values.  Layout and drag
//! accumulation clamp into the representable range instead of wrapping, so
//! every operation is total; the spec functions state the clamped value
//! exactly.

use vstd::prelude::*;

verus! {

/// A two-dimensional pixel vector.
#[derive(Clone, Copy, Debug, PartialEq, Eq, Structural)]
pub struct Vec2 {
    pub x: i64,
    pub y: i64,
}

impl Vec2 {
    pub fn new(x: i64, y: i64) -> (r: Vec2)
        ensures
            r == (Vec2 { x, y }),
    {
        Vec2 { x, y }
    }

    pub fn zero() -> (r: Vec2)
        ensures
            r == (Vec2 { x: 0i64, y: 0i64 }),
    {
        Vec2 { x: 0, y: 0 }
    }
}

/// Box membership: `p` lies in the box at `pos` of extent `size` iff
/// `pos.x <= p.x < pos.x + size.x` and `pos.y <= p.y < pos.y + size.y`.
pub open spec fn inside(pos: Vec2, size: Vec2, p: Vec2) -> bool {
    &&& pos.x <= p.x < pos.x + size.x
    &&& pos.y <= p.y < pos.y + size.y
}

/// Executable box membership test; the far-edge comparison is done in
/// 128-bit arithmetic so that no sum can overflow.
pub fn contains_point(pos: Vec2, size: Vec2, p: Vec2) -> (r: bool)
    ensures
        r == inside(pos, size, p),
{
    p.x >= pos.x && p.y >= pos.y
        && (p.x as i128) < (pos.x as i128) + (size.x as i128)
        && (p.y as i128) < (pos.y as i128) + (size.y as i128)
}

/// Clamp an unbounded integer into the `i64` range.
pub open spec fn sat64(v: int) -> int {
    if v > i64::MAX as int {
        i64::MAX as int
    } else if v < i64::MIN as int {
        i64::MIN as int
    } else {
        v
    }
}

/// Saturating addition of two pixel values.
pub fn sat_add(a: i64, b: i64) -> (r: i64)
    ensures
        r as int == sat64(a + b),
{
    let s: i128 = a as i128 + b as i128;
    if s > i64::MAX as i128 {
        i64::MAX
    } else if s < i64::MIN as i128 {
        i64::MIN
    } else {
        s as i64
    }
}

/// Saturating subtraction of two pixel values.
pub fn sat_sub(a: i64, b: i64) -> (r: i64)
    ensures
        r as int == sat64(a - b),
{
    let s: i128 = a as i128 - b as i128;
    if s > i64::MAX as i128 {
        i64::MAX
    } else if s < i64::MIN as i128 {
        i64::MIN
    } else {
        s as i64
    }
}

/// Saturating three-term sum.
pub fn sat_add3(a: i64, b: i64, c: i64) -> (r: i64)
    ensures
        r as int == sat64(a + b + c),
{
    let s: i128 = a as i128 + b as i128 + c as i128;
    if s > i64::MAX as i128 {
        i64::MAX
    } else if s < i64::MIN as i128 {
        i64::MIN
    } else {
        s as i64
    }
}

/// Saturating four-term sum.
pub fn sat_add4(a: i64, b: i64, c: i64, d: i64) -> (r: i64)
    ensures
        r as int == sat64(a + b + c + d),
{
    let s: i128 = a as i128 + b as i128 + c as i128 + d as i128;
    if s > i64::MAX as i128 {
        i64::MAX
    } else if s < i64::MIN as i128 {
        i64::MIN
    } else {
        s as i64
    }
}

/// Saturating difference of three terms, `a - b - c`.
pub fn sat_sub3(a: i64, b: i64, c: i64) -> (r: i64)
    ensures
        r as int == sat64(a - b - c),
{
    let s: i128 = a as i128 - b as i128 - c as i128;
    if s > i64::MAX as i128 {
        i64::MAX
    } else if s < i64::MIN as i128 {
        i64::MIN
    } else {
        s as i64
    }
}

/// The larger of two integers.
pub open spec fn max_int(a: int, b: int) -> int {
    if a >= b {
        a
    } else {
        b
    }
}

pub fn max64(a: i64, b: i64) -> (r: i64)
    ensures
        r as int == max_int(a as int, b as int),
{
    if a >= b {
        a
    } else {
        b
    }
}

/// Truncating (toward zero) halving, used by centred alignment.
pub open spec fn half_toward_zero(d: int) -> int {
    if d >= 0 {
        d / 2
    } else {
        -((-d) / 2)
    }
}

/// Scale a non-negative context length by a per-mille factor; a negative or
/// zero context resolves to zero.  Relative style units use this.
pub open spec fn scale_permille(ctx: int, k: int) -> int {
    if ctx <= 0 {
        0
    } else {
        sat64(ctx * k / 1000)
    }
}

/// Executable per-mille scaling, matching `scale_permille`.
pub fn scale_by_permille(ctx: i64, k: u32) -> (r: i64)
    ensures
        r as int == scale_permille(ctx as int, k as int),
{
    if ctx <= 0 {
        0
    } else {
        assert(ctx as int * k as int <= i64::MAX as int * u32::MAX as int) by (nonlinear_arith)
            requires
                0 < ctx <= i64::MAX as int,
                0 <= k <= u32::MAX as int,
        ;
        let p: i128 = (ctx as i128) * (k as i128);
        let q: i128 = p / 1000;
        assert(q == ctx as int * k as int / 1000) by (nonlinear_arith)
            requires
                p == ctx as i128 * k as i128,
                q == p / 1000,
                ctx > 0,
                k >= 0,
        ;
        if q > i64::MAX as i128 {
            i64::MAX
        } else {
            assert(q >= 0) by (nonlinear_arith)
                requires
                    q == p / 1000,
                    p >= 0,
            ;
            q as i64
        }
    }
}

} // verus!
