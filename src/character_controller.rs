//! The kinematic character controller: tuning, movement from input, jump,
//! damping, and the drop-down request for one-way platforms.

use vstd::prelude::*;

use crate::fixed::{abs, lemma_mul_within, div_trunc, div_trunc_i128, saturate, saturate_i128, Vec2, SCALE};
use crate::ground::MaxSlopeAngle;
use crate::one_way::PassThroughOneWayPlatform;

verus! {

/// A movement input for one step.
#[derive(Clone, Copy, Debug, PartialEq, Eq, Structural)]
pub enum MovementAction {
    /// Move along the horizontal axis; the value is the axis in
    /// thousandths, `-SCALE..=SCALE` from a stick or keys.
    Move(i32),
    /// Jump (the press of the jump button, not its holding).
    Jump,
}

/// Horizontal acceleration on the ground, in thousandths per second squared.
#[derive(Clone, Copy, Debug, PartialEq, Eq, Structural)]
pub struct MovementAcceleration(pub i32);

/// Horizontal acceleration in the air.
#[derive(Clone, Copy, Debug, PartialEq, Eq, Structural)]
pub struct AirAcceleration(pub i32);

/// The factor, in thousandths, that horizontal velocity is multiplied by
/// each step on the ground.
#[derive(Clone, Copy, Debug, PartialEq, Eq, Structural)]
pub struct MovementDampingFactor(pub i32);

/// The factor that horizontal velocity is multiplied by each step in the air.
#[derive(Clone, Copy, Debug, PartialEq, Eq, Structural)]
pub struct AirDampingFactor(pub i32);

/// The vertical velocity a jump sets.
#[derive(Clone, Copy, Debug, PartialEq, Eq, Structural)]
pub struct JumpImpulse(pub i32);

/// The movement tuning of one body, fixed when it is spawned.
#[derive(Clone, Copy, Debug, PartialEq, Eq, Structural)]
pub struct MovementBundle {
    pub acceleration: MovementAcceleration,
    pub air_acceleration: AirAcceleration,
    pub damping: MovementDampingFactor,
    pub air_damping: AirDampingFactor,
    pub jump_impulse: JumpImpulse,
    pub max_slope_angle: MaxSlopeAngle,
}

impl MovementBundle {
    pub fn new(
        acceleration: i32,
        air_acceleration: i32,
        damping: i32,
        air_damping: i32,
        jump_impulse: i32,
        max_slope_angle: i16,
    ) -> (r: MovementBundle)
        ensures
            r.acceleration.0 == acceleration,
            r.air_acceleration.0 == air_acceleration,
            r.damping.0 == damping,
            r.air_damping.0 == air_damping,
            r.jump_impulse.0 == jump_impulse,
            r.max_slope_angle.0 == max_slope_angle,
    {
        MovementBundle {
            acceleration: MovementAcceleration(acceleration),
            air_acceleration: AirAcceleration(air_acceleration),
            damping: MovementDampingFactor(damping),
            air_damping: AirDampingFactor(air_damping),
            jump_impulse: JumpImpulse(jump_impulse),
            max_slope_angle: MaxSlopeAngle(max_slope_angle),
        }
    }
}

impl Default for MovementBundle {
    /// Accelerations 30 and 10, damping 0.9 and 0.2, jump 7, and slopes up
    /// to 81 degrees (cosine 0.156).
    fn default() -> (r: MovementBundle)
        ensures
            r.acceleration.0 == 30000,
            r.air_acceleration.0 == 10000,
            r.damping.0 == 900,
            r.air_damping.0 == 200,
            r.jump_impulse.0 == 7000,
            r.max_slope_angle.0 == 156,
    {
        MovementBundle::new(30000, 10000, 900, 200, 7000, 156)
    }
}

/// The horizontal velocity after accelerating along `axis` by `accel` for
/// `dt` seconds: `vx + axis * accel * dt`, all in thousandths.
pub open spec fn accelerated(vx: int, axis: int, accel: int, dt: int) -> int {
    saturate(vx + div_trunc(axis * accel * dt, SCALE * SCALE))
}

/// The velocity after one movement action.
pub open spec fn after_action(v: Vec2, a: MovementAction, grounded: bool, t: MovementBundle, dt: int) -> Vec2 {
    match a {
        MovementAction::Move(axis) => {
            let accel = if grounded {
                t.acceleration.0
            } else {
                t.air_acceleration.0
            };
            Vec2 { x: accelerated(v.x as int, axis as int, accel as int, dt) as i32, y: v.y }
        },
        MovementAction::Jump => {
            if grounded {
                Vec2 { x: v.x, y: t.jump_impulse.0 }
            } else {
                v
            }
        },
    }
}

/// The velocity after a step's movement actions, applied in order.
pub open spec fn after_actions(
    v: Vec2,
    actions: Seq<MovementAction>,
    grounded: bool,
    t: MovementBundle,
    dt: int,
) -> Vec2
    decreases actions.len(),
{
    if actions.len() == 0 {
        v
    } else {
        after_action(after_actions(v, actions.drop_last(), grounded, t, dt), actions.last(), grounded, t, dt)
    }
}

/// Accelerates a horizontal velocity along `axis`.
pub fn accelerate(vx: i32, axis: i32, accel: i32, dt: i32) -> (r: i32)
    ensures
        r == accelerated(vx as int, axis as int, accel as int, dt as int),
{
    proof {
        lemma_mul_within(axis as int, accel as int, 2147483648, 2147483648);
    }
    let p = (axis as i128) * (accel as i128);
    proof {
        lemma_mul_within(p as int, dt as int, 4611686018427387904, 2147483648);
    }
    let q = p * (dt as i128);
    let scale_sq: i128 = 1000000;
    assert(scale_sq == SCALE * SCALE);
    let delta = div_trunc_i128(q, scale_sq);
    saturate_i128(vx as i128 + delta)
}

/// Applies a step's movement actions to a body's velocity: a move adds its
/// axis times the ground or air acceleration times `dt` (in seconds, as
/// thousandths) to the horizontal velocity; a jump sets the vertical
/// velocity to the jump impulse, and does so only on the ground.
pub fn movement(
    velocity: &mut Vec2,
    actions: &Vec<MovementAction>,
    grounded: bool,
    tuning: &MovementBundle,
    dt: i32,
)
    ensures
        *final(velocity) == after_actions(*old(velocity), actions@, grounded, *tuning, dt as int),
        !grounded ==> final(velocity).y == old(velocity).y,
{
    let mut i: usize = 0;
    while i < actions.len()
        invariant
            0 <= i <= actions@.len(),
            *velocity == after_actions(*old(velocity), actions@.take(i as int), grounded, *tuning, dt as int),
            !grounded ==> velocity.y == old(velocity).y,
        decreases actions@.len() - i,
    {
        assert(actions@.take(i + 1).drop_last() =~= actions@.take(i as int));
        match actions[i] {
            MovementAction::Move(axis) => {
                let accel = if grounded {
                    tuning.acceleration.0
                } else {
                    tuning.air_acceleration.0
                };
                velocity.x = accelerate(velocity.x, axis, accel, dt);
            },
            MovementAction::Jump => {
                if grounded {
                    velocity.y = tuning.jump_impulse.0;
                }
            },
        }
        i += 1;
    }
    assert(actions@.take(actions@.len() as int) =~= actions@);
}

/// The horizontal velocity after damping by `factor` (in thousandths).
pub open spec fn damped(vx: int, factor: int) -> int {
    saturate(div_trunc(vx * factor, SCALE as int))
}

/// Damping by a factor between zero and one never makes the horizontal
/// speed grow.
pub proof fn lemma_damping_never_grows(vx: int, factor: int)
    requires
        i32::MIN <= vx <= i32::MAX,
        0 <= factor <= SCALE,
    ensures
        abs(damped(vx, factor)) <= abs(vx),
{
    assert(abs(vx * factor) <= abs(vx) * SCALE) by (nonlinear_arith)
        requires
            0 <= factor <= SCALE,
    ;
    let p = vx * factor;
    if p >= 0 {
        assert(p / (SCALE as int) <= abs(vx)) by (nonlinear_arith)
            requires
                0 <= p <= abs(vx) * 1000,
        ;
    } else {
        assert((-p) / (SCALE as int) <= abs(vx)) by (nonlinear_arith)
            requires
                0 < -p <= abs(vx) * 1000,
        ;
    }
}

/// Slows a body's horizontal velocity by the ground or air damping factor;
/// vertical velocity is left to gravity.
pub fn apply_movement_damping(velocity: &mut Vec2, grounded: bool, tuning: &MovementBundle)
    ensures
        final(velocity).x == damped(
            old(velocity).x as int,
            if grounded {
                tuning.damping.0 as int
            } else {
                tuning.air_damping.0 as int
            },
        ),
        final(velocity).y == old(velocity).y,
        0 <= (if grounded {
            tuning.damping.0
        } else {
            tuning.air_damping.0
        }) <= SCALE ==> abs(final(velocity).x as int) <= abs(old(velocity).x as int),
{
    let factor = if grounded {
        tuning.damping.0
    } else {
        tuning.air_damping.0
    };
    proof {
        lemma_mul_within(velocity.x as int, factor as int, 2147483648, 2147483648);
    }
    let p = (velocity.x as i128) * (factor as i128);
    velocity.x = saturate_i128(div_trunc_i128(p, SCALE as i128));
    proof {
        if 0 <= factor <= SCALE {
            lemma_damping_never_grows(old(velocity).x as int, factor as int);
        }
    }
}

/// The pass-through mode of a body for this step, and whether it must be
/// woken: a drop-down request lets it through one-way platforms this step
/// and wakes it so that it falls; otherwise it passes by normal.
pub fn activate_pass_through_one_way_platform_system(drop_down: bool) -> (r: (PassThroughOneWayPlatform, bool))
    ensures
        r == if drop_down {
            (PassThroughOneWayPlatform::Always, true)
        } else {
            (PassThroughOneWayPlatform::ByNormal, false)
        },
{
    if drop_down {
        (PassThroughOneWayPlatform::Always, true)
    } else {
        (PassThroughOneWayPlatform::ByNormal, false)
    }
}

} // verus!
