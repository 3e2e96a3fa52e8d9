//! Fixed-point quantities.
//!
//! Every length, speed, acceleration, duration, factor and vector component
//! in this library is an integer count of thousandths: `1500` stands for
//! `1.5`. Products are formed in `i128` and scaled back with division that
//! truncates toward zero, as Rust's `/` does.

use vstd::prelude::*;

verus! {

/// The number of fixed-point steps in one unit.
pub const SCALE: i32 = 1000;

/// A 2D vector of fixed-point components.
#[derive(Clone, Copy, Debug, PartialEq, Eq, Structural)]
pub struct Vec2 {
    pub x: i32,
    pub y: i32,
}

impl Vec2 {
    pub fn new(x: i32, y: i32) -> (r: Vec2)
        ensures
            r.x == x,
            r.y == y,
    {
        Vec2 { x, y }
    }

    pub fn zero() -> (r: Vec2)
        ensures
            r.x == 0,
            r.y == 0,
    {
        Vec2 { x: 0, y: 0 }
    }
}

/// A direction, such as a surface normal, in fixed-point components. A unit
/// direction has components within `-SCALE..=SCALE`.
#[derive(Clone, Copy, Debug, PartialEq, Eq, Structural)]
pub struct Direction {
    pub x: i16,
    pub y: i16,
}

impl Direction {
    pub fn new(x: i16, y: i16) -> (r: Direction)
        ensures
            r.x == x,
            r.y == y,
    {
        Direction { x, y }
    }
}

/// Integer division that rounds toward zero.
pub open spec fn div_trunc(a: int, d: int) -> int
    recommends
        d > 0,
{
    if a >= 0 {
        a / d
    } else {
        -((-a) / d)
    }
}

/// The value nearest to `a` that an `i32` can hold.
pub open spec fn saturate(a: int) -> int {
    if a > i32::MAX {
        i32::MAX as int
    } else if a < i32::MIN {
        i32::MIN as int
    } else {
        a
    }
}

/// The absolute value.
pub open spec fn abs(a: int) -> int {
    if a < 0 {
        -a
    } else {
        a
    }
}

/// Dot product of two vectors given by their components.
pub open spec fn dot(ax: int, ay: int, bx: int, by: int) -> int {
    ax * bx + ay * by
}

/// Bounds a product by the bounds of its factors.
pub(crate) proof fn lemma_mul_within(a: int, b: int, ma: int, mb: int)
    requires
        -ma <= a <= ma,
        -mb <= b <= mb,
    ensures
        -(ma * mb) <= a * b <= ma * mb,
{
    assert(-(ma * mb) <= a * b <= ma * mb) by (nonlinear_arith)
        requires
            -ma <= a <= ma,
            -mb <= b <= mb,
    ;
}

/// Truncating division of an `i128` by a positive divisor.
pub fn div_trunc_i128(a: i128, d: i128) -> (r: i128)
    requires
        d > 0,
        a > i128::MIN,
    ensures
        r == div_trunc(a as int, d as int),
        abs(r as int) <= abs(a as int),
{
    if a >= 0 {
        a / d
    } else {
        let q = (-a) / d;
        -q
    }
}

/// Clamps an `i128` into the range of `i32`.
pub fn saturate_i128(a: i128) -> (r: i32)
    ensures
        r == saturate(a as int),
{
    if a > i32::MAX as i128 {
        i32::MAX
    } else if a < i32::MIN as i128 {
        i32::MIN
    } else {
        a as i32
    }
}

} // verus!
