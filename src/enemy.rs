//! Patrolling enemies: they walk in one direction and turn at walls.

use vstd::prelude::*;

use crate::fixed::{abs, saturate, saturate_i128, Direction, Vec2};

verus! {

/// The direction an enemy walks in.
#[derive(Clone, Copy, Debug, PartialEq, Eq, Structural)]
pub struct MovementDirection(pub Direction);

/// Below this horizontal speed (20 units per second) an enemy keeps
/// accelerating.
pub const ENEMY_TOP_SPEED: i32 = 20000;

/// A component negated, saturating at the top of `i16`.
pub open spec fn negated(x: i16) -> i16 {
    if x == i16::MIN {
        i16::MAX
    } else {
        (-x) as i16
    }
}

fn negate(x: i16) -> (r: i16)
    ensures
        r == negated(x),
{
    if x == i16::MIN {
        i16::MAX
    } else {
        -x
    }
}

/// Turns an enemy around when its forward ray cast hits something other
/// than the enemy itself. Each hit is given by the body owning the collider
/// that was hit, if any. Returns whether the enemy turned.
pub fn enemy_wall_detection_system(direction: &mut MovementDirection, hit_owners: &Vec<Option<u64>>, enemy: u64) -> (turned: bool)
    ensures
        turned == exists|i: int| 0 <= i < hit_owners@.len() && #[trigger] hit_owners@[i] != Some(enemy),
        turned ==> final(direction).0 == (Direction {
            x: negated(old(direction).0.x),
            y: negated(old(direction).0.y),
        }),
        !turned ==> *final(direction) == *old(direction),
{
    let mut i: usize = 0;
    while i < hit_owners.len()
        invariant
            0 <= i <= hit_owners@.len(),
            *direction == *old(direction),
            forall|k: int| 0 <= k < i ==> #[trigger] hit_owners@[k] == Some(enemy),
        decreases hit_owners@.len() - i,
    {
        let is_self = match hit_owners[i] {
            Some(owner) => owner == enemy,
            None => false,
        };
        if !is_self {
            let d = direction.0;
            direction.0 = Direction { x: negate(d.x), y: negate(d.y) };
            return true;
        }
        i += 1;
    }
    false
}

/// An enemy slower than its top speed is pushed one unit per second along
/// its walking direction.
pub fn enemy_movement_system(velocity: &mut Vec2, direction: MovementDirection)
    ensures
        abs(old(velocity).x as int) < ENEMY_TOP_SPEED ==> {
            &&& final(velocity).x == saturate(old(velocity).x + direction.0.x)
            &&& final(velocity).y == saturate(old(velocity).y + direction.0.y)
        },
        abs(old(velocity).x as int) >= ENEMY_TOP_SPEED ==> *final(velocity) == *old(velocity),
{
    let vx = velocity.x as i64;
    if -(ENEMY_TOP_SPEED as i64) < vx && vx < ENEMY_TOP_SPEED as i64 {
        velocity.x = saturate_i128(velocity.x as i128 + direction.0.x as i128);
        velocity.y = saturate_i128(velocity.y as i128 + direction.0.y as i128);
    }
}

} // verus!
