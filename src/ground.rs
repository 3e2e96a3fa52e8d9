//! Ground detection: whether a body stands on walkable ground, from the
//! hits of a shape cast downward from it.

use vstd::prelude::*;

use crate::fixed::{lemma_mul_within, Direction, SCALE};

verus! {

/// A body's rotation, given by the cosine and sine of its angle in
/// thousandths.
#[derive(Clone, Copy, Debug, PartialEq, Eq, Structural)]
pub struct Rotation {
    pub cos: i16,
    pub sin: i16,
}

impl Rotation {
    /// The rotation by no angle.
    pub fn identity() -> (r: Rotation)
        ensures
            r.cos == SCALE,
            r.sin == 0,
    {
        Rotation { cos: SCALE as i16, sin: 0 }
    }
}

/// The steepest slope a body can stand on, held as the cosine of its angle
/// from straight up, in thousandths: `SCALE` admits only level ground,
/// `-SCALE` admits any surface, and a value above `SCALE` admits none.
#[derive(Clone, Copy, Debug, PartialEq, Eq, Structural)]
pub struct MaxSlopeAngle(pub i16);

/// The vector `(x, y)` rotated by `r`, scaled up by `SCALE`.
pub open spec fn rotated(r: Rotation, x: int, y: int) -> (int, int) {
    (r.cos * x - r.sin * y, r.sin * x + r.cos * y)
}

/// The vector `(x, y)` is not zero and its angle from straight up has a
/// cosine of at least `c / SCALE`, i.e. `y * SCALE >= c * |(x, y)|`. The
/// comparison is stated over squares, as the signs of the two sides allow.
pub open spec fn within_slope(x: int, y: int, c: int) -> bool {
    let lhs = y * SCALE;
    let rhs_sq = c * c * (x * x + y * y);
    &&& (x != 0 || y != 0)
    &&& if lhs >= 0 {
        c <= 0 || lhs * lhs >= rhs_sq
    } else {
        c < 0 && lhs * lhs <= rhs_sq
    }
}

/// A hit is walkable when the surface it found, seen from the body (the
/// reverse of the cast shape's normal, turned by the body's rotation), is
/// within the body's slope limit. Without a limit every hit is walkable.
pub open spec fn walkable(normal: Direction, rotation: Rotation, max_slope: Option<MaxSlopeAngle>) -> bool {
    match max_slope {
        None => true,
        Some(m) => {
            let v = rotated(rotation, -normal.x, -normal.y);
            within_slope(v.0, v.1, m.0 as int)
        },
    }
}

/// Whether a shape-cast hit, given by the cast shape's normal, is
/// walkable ground.
pub fn is_walkable(normal: Direction, rotation: Rotation, max_slope: Option<MaxSlopeAngle>) -> (r: bool)
    ensures
        r == walkable(normal, rotation, max_slope),
{
    match max_slope {
        None => true,
        Some(m) => {
            let nx = -(normal.x as i128);
            let ny = -(normal.y as i128);
            let c = rotation.cos as i128;
            let s = rotation.sin as i128;
            proof {
                lemma_mul_within(c as int, nx as int, 32768, 32768);
                lemma_mul_within(s as int, ny as int, 32768, 32768);
                lemma_mul_within(s as int, nx as int, 32768, 32768);
                lemma_mul_within(c as int, ny as int, 32768, 32768);
            }
            let x = c * nx - s * ny;
            let y = s * nx + c * ny;
            if x == 0 && y == 0 {
                return false;
            }
            let cm = m.0 as i128;
            let lhs = y * (SCALE as i128);
            proof {
                lemma_mul_within(x as int, x as int, 2147483648, 2147483648);
                lemma_mul_within(y as int, y as int, 2147483648, 2147483648);
                lemma_mul_within(cm as int, cm as int, 32768, 32768);
                lemma_mul_within(lhs as int, lhs as int, 2147483648000, 2147483648000);
            }
            let len_sq = x * x + y * y;
            let cm_sq = cm * cm;
            proof {
                lemma_mul_within(cm_sq as int, len_sq as int, 1073741824, 9223372036854775808);
            }
            let rhs_sq = cm_sq * len_sq;
            assert(rhs_sq == cm * cm * (x * x + y * y));
            if lhs >= 0 {
                cm <= 0 || lhs * lhs >= rhs_sq
            } else {
                cm < 0 && lhs * lhs <= rhs_sq
            }
        },
    }
}

/// Whether a body is grounded: some hit of its downward shape cast is
/// walkable.
pub fn update_grounded(hits: &Vec<Direction>, rotation: Rotation, max_slope: Option<MaxSlopeAngle>) -> (r: bool)
    ensures
        r == exists|i: int| 0 <= i < hits@.len() && #[trigger] walkable(hits@[i], rotation, max_slope),
        max_slope.is_none() && hits@.len() > 0 ==> r,
{
    let mut i: usize = 0;
    while i < hits.len()
        invariant
            0 <= i <= hits@.len(),
            forall|k: int| 0 <= k < i ==> !#[trigger] walkable(hits@[k], rotation, max_slope),
        decreases hits@.len() - i,
    {
        if is_walkable(hits[i], rotation, max_slope) {
            return true;
        }
        i += 1;
    }
    proof {
        if max_slope.is_none() && hits@.len() > 0 {
            assert(walkable(hits@[0], rotation, max_slope));
        }
    }
    false
}

} // verus!
