//! Kinematic platforms that patrol a path of waypoints at constant speed,
//! turning around at either end.

use vstd::prelude::*;

use crate::fixed::{div_trunc, div_trunc_i128, lemma_mul_within, Vec2};

verus! {

/// A patrol path: the waypoints, the waypoint currently headed for, the
/// direction of travel along the list, and the speed (in thousandths per
/// second).
#[derive(Debug)]
pub struct Path {
    pub points: Vec<Vec2>,
    pub index: usize,
    pub forward: bool,
    pub speed: i32,
}

impl Path {
    /// The speed is not negative, and on a path that moves (two points or
    /// more) the target is one of the waypoints.
    pub open spec fn wf(&self) -> bool {
        &&& self.speed >= 0
        &&& self.points@.len() >= 2 ==> self.index < self.points@.len()
    }

    /// A path that starts on its first waypoint, heading for the second.
    pub fn new(points: Vec<Vec2>, speed: i32) -> (r: Path)
        requires
            speed >= 0,
        ensures
            r.wf(),
            r.points@ == points@,
            r.index == 1,
            r.forward,
            r.speed == speed,
    {
        Path { points, index: 1, forward: true, speed }
    }
}

/// `r` is the least natural number whose square reaches `x`.
pub open spec fn is_ceil_sqrt(r: int, x: int) -> bool {
    &&& r >= 0
    &&& r * r >= x
    &&& r == 0 || (r - 1) * (r - 1) < x
}

/// The least natural number whose square reaches `x`.
pub open spec fn ceil_sqrt(x: int) -> int {
    choose|r: int| is_ceil_sqrt(r, x)
}

proof fn lemma_ceil_sqrt_unique(a: int, b: int, x: int)
    requires
        is_ceil_sqrt(a, x),
        is_ceil_sqrt(b, x),
    ensures
        a == b,
{
    if a < b {
        assert(a * a <= (b - 1) * (b - 1)) by (nonlinear_arith)
            requires
                0 <= a <= b - 1,
        ;
    } else if b < a {
        assert(b * b <= (a - 1) * (a - 1)) by (nonlinear_arith)
            requires
                0 <= b <= a - 1,
        ;
    }
}

/// The least natural number whose square reaches `x`.
pub fn ceil_sqrt_u128(x: u128) -> (r: u128)
    requires
        x <= 73786976294838206464,
    ensures
        r == ceil_sqrt(x as int),
        is_ceil_sqrt(r as int, x as int),
        r <= 8589934592,
{
    if x == 0 {
        proof {
            assert(is_ceil_sqrt(0, 0));
            lemma_ceil_sqrt_unique(0, ceil_sqrt(0), 0);
        }
        return 0;
    }
    let mut lo: u128 = 0;
    let mut hi: u128 = 8589934592;
    while hi - lo > 1
        invariant
            lo < hi <= 8589934592,
            lo * lo < x,
            hi * hi >= x,
        decreases hi - lo,
    {
        let mid = lo + (hi - lo) / 2;
        assert(mid * mid <= 73786976294838206464) by (nonlinear_arith)
            requires
                mid <= 8589934592,
        ;
        if mid * mid >= x {
            hi = mid;
        } else {
            lo = mid;
        }
    }
    proof {
        assert(is_ceil_sqrt(hi as int, x as int));
        lemma_ceil_sqrt_unique(hi as int, ceil_sqrt(x as int), x as int);
    }
    hi
}

/// The velocity that heads from `from` to `to` at `speed`: the offset,
/// scaled to the speed by the offset's length rounded up. Zero when the
/// two points are the same.
pub open spec fn toward(from: Vec2, to: Vec2, speed: int) -> (int, int) {
    let dx = to.x - from.x;
    let dy = to.y - from.y;
    let len = ceil_sqrt(dx * dx + dy * dy);
    if len == 0 {
        (0, 0)
    } else {
        (div_trunc(dx * speed, len), div_trunc(dy * speed, len))
    }
}

/// The platform has reached or passed its target: it stands on it, or the
/// velocity toward it opposes the current velocity.
pub open spec fn reached(position: Vec2, velocity: Vec2, target: Vec2, speed: int) -> bool {
    let d = toward(position, target, speed);
    position == target || d.0 * velocity.x + d.1 * velocity.y < 0
}

/// The next target index and direction once the target at `index` is
/// reached: the direction turns at either end of the list.
pub open spec fn next_leg(index: int, forward: bool, len: int) -> (int, bool) {
    let fwd = if index == 0 {
        true
    } else if index == len - 1 {
        false
    } else {
        forward
    };
    (if fwd {
        index + 1
    } else {
        index - 1
    }, fwd)
}

proof fn lemma_div_trunc_within(a: int, len: int, speed: int)
    requires
        len > 0,
        speed >= 0,
        a * a <= len * len,
    ensures
        -speed <= div_trunc(a * speed, len) <= speed,
{
    assert(-len <= a <= len) by (nonlinear_arith)
        requires
            a * a <= len * len,
            len > 0,
    ;
    assert(-(len * speed) <= a * speed <= len * speed) by (nonlinear_arith)
        requires
            -len <= a <= len,
            speed >= 0,
    ;
    let p = a * speed;
    if p >= 0 {
        assert(p / len <= speed) by (nonlinear_arith)
            requires
                0 <= p <= len * speed,
                len > 0,
        ;
    } else {
        assert((-p) / len <= speed) by (nonlinear_arith)
            requires
                0 < -p <= len * speed,
                len > 0,
        ;
    }
}

/// The velocity toward `to` from `from` at `speed`.
pub fn velocity_toward(from: Vec2, to: Vec2, speed: i32) -> (r: Vec2)
    requires
        speed >= 0,
    ensures
        (r.x as int, r.y as int) == toward(from, to, speed as int),
{
    let dx = to.x as i128 - from.x as i128;
    let dy = to.y as i128 - from.y as i128;
    proof {
        lemma_mul_within(dx as int, dx as int, 4294967296, 4294967296);
        lemma_mul_within(dy as int, dy as int, 4294967296, 4294967296);
        assert(dx * dx >= 0 && dy * dy >= 0) by (nonlinear_arith);
    }
    let len_sq = (dx * dx + dy * dy) as u128;
    let len = ceil_sqrt_u128(len_sq);
    if len == 0 {
        return Vec2 { x: 0, y: 0 };
    }
    let l = len as i128;
    proof {
        lemma_mul_within(dx as int, speed as int, 4294967296, 2147483648);
        lemma_mul_within(dy as int, speed as int, 4294967296, 2147483648);
        assert(dx * dx <= l * l && dy * dy <= l * l) by (nonlinear_arith)
            requires
                l * l >= dx * dx + dy * dy,
                dx * dx >= 0,
                dy * dy >= 0,
        ;
        lemma_div_trunc_within(dx as int, l as int, speed as int);
        lemma_div_trunc_within(dy as int, l as int, speed as int);
    }
    let vx = div_trunc_i128(dx * (speed as i128), l);
    let vy = div_trunc_i128(dy * (speed as i128), l);
    Vec2 { x: vx as i32, y: vy as i32 }
}

/// The position, velocity, target index and direction of a platform on a
/// path of two waypoints or more, one step later.
pub open spec fn patrol_step(
    position: Vec2,
    velocity: Vec2,
    points: Seq<Vec2>,
    index: int,
    forward: bool,
    speed: int,
) -> (Vec2, (int, int), int, bool) {
    let target = points[index];
    if reached(position, velocity, target, speed) {
        let leg = next_leg(index, forward, points.len() as int);
        (target, toward(target, points[leg.0], speed), leg.0, leg.1)
    } else {
        (position, toward(position, target, speed), index, forward)
    }
}

/// Moves a platform along its path for one step: it heads for its target
/// at the path's speed; once it has reached or passed the target it is
/// placed exactly on it, turns around if the target ends the path, and
/// heads for the next waypoint. A path of fewer than two points is inert.
pub fn move_platforms_system(position: &mut Vec2, velocity: &mut Vec2, path: &mut Path)
    requires
        old(path).wf(),
    ensures
        final(path).wf(),
        final(path).points@ == old(path).points@,
        final(path).speed == old(path).speed,
        old(path).points@.len() <= 1 ==> {
            &&& *final(position) == *old(position)
            &&& *final(velocity) == *old(velocity)
            &&& final(path).index == old(path).index
            &&& final(path).forward == old(path).forward
        },
        old(path).points@.len() >= 2 ==> (
            *final(position),
            (final(velocity).x as int, final(velocity).y as int),
            final(path).index as int,
            final(path).forward,
        ) == patrol_step(
            *old(position),
            *old(velocity),
            old(path).points@,
            old(path).index as int,
            old(path).forward,
            old(path).speed as int,
        ),
{
    let n = path.points.len();
    if n <= 1 {
        return;
    }
    let target = path.points[path.index];
    let mut v = velocity_toward(*position, target, path.speed);
    proof {
        lemma_toward_within_speed(*position, target, path.speed as int);
        lemma_mul_within(v.x as int, velocity.x as int, 2147483648, 2147483648);
        lemma_mul_within(v.y as int, velocity.y as int, 2147483648, 2147483648);
    }
    let along = (v.x as i128) * (velocity.x as i128) + (v.y as i128) * (velocity.y as i128);
    if *position == target || along < 0 {
        if path.index == 0 {
            path.forward = true;
        } else if path.index == n - 1 {
            path.forward = false;
        }
        *position = target;
        if path.forward {
            path.index = path.index + 1;
        } else {
            path.index = path.index - 1;
        }
        v = velocity_toward(*position, path.points[path.index], path.speed);
    }
    *velocity = v;
}

proof fn lemma_ceil_sqrt_exists(x: int)
    requires
        x >= 0,
    ensures
        is_ceil_sqrt(ceil_sqrt(x), x),
    decreases x,
{
    if x == 0 {
        assert(is_ceil_sqrt(0, 0));
    } else {
        lemma_ceil_sqrt_exists(x - 1);
        let r = ceil_sqrt(x - 1);
        if r * r >= x {
            assert(is_ceil_sqrt(r, x));
        } else {
            assert(r * r == x - 1);
            assert((r + 1) * (r + 1) >= x) by (nonlinear_arith)
                requires
                    r * r == x - 1,
                    r >= 0,
            ;
            assert(is_ceil_sqrt(r + 1, x));
        }
    }
}

proof fn lemma_div_trunc_scaled(p: int, len: int)
    requires
        len > 0,
    ensures
        div_trunc(p, len) * div_trunc(p, len) * (len * len) <= p * p,
{
    let q = div_trunc(p, len);
    let ap = if p >= 0 { p } else { -p };
    let aq = ap / len;
    assert(aq * len <= ap) by (nonlinear_arith)
        requires
            aq == ap / len,
            len > 0,
            ap >= 0,
    ;
    assert(aq >= 0) by (nonlinear_arith)
        requires
            aq == ap / len,
            len > 0,
            ap >= 0,
    ;
    if p < 0 {
        assert(q == -aq);
        assert(q * q == aq * aq) by (nonlinear_arith)
            requires
                q == -aq,
        ;
        assert(ap * ap == p * p) by (nonlinear_arith)
            requires
                ap == -p,
        ;
    }
    assert(aq * aq * (len * len) <= ap * ap) by (nonlinear_arith)
        requires
            0 <= aq * len <= ap,
            aq >= 0,
            len > 0,
    ;
}

/// The velocity toward a point never exceeds the speed, so a platform
/// travels at most `speed * dt` in a step of `dt`.
pub proof fn lemma_toward_within_speed(from: Vec2, to: Vec2, speed: int)
    requires
        speed >= 0,
    ensures
        ({
            let d = toward(from, to, speed);
            d.0 * d.0 + d.1 * d.1 <= speed * speed
        }),
        -speed <= toward(from, to, speed).0 <= speed,
        -speed <= toward(from, to, speed).1 <= speed,
{
    let dx = to.x - from.x;
    let dy = to.y - from.y;
    let sq = dx * dx + dy * dy;
    assert(sq >= 0) by (nonlinear_arith)
        requires
            sq == dx * dx + dy * dy,
    ;
    lemma_ceil_sqrt_exists(sq);
    let len = ceil_sqrt(sq);
    if len > 0 {
        let a = div_trunc(dx * speed, len);
        let b = div_trunc(dy * speed, len);
        lemma_div_trunc_scaled(dx * speed, len);
        lemma_div_trunc_scaled(dy * speed, len);
        assert(dx * dx <= len * len && dy * dy <= len * len) by (nonlinear_arith)
            requires
                len * len >= dx * dx + dy * dy,
        ;
        lemma_div_trunc_within(dx, len, speed);
        lemma_div_trunc_within(dy, len, speed);
        let l2 = len * len;
        let s2 = speed * speed;
        assert((dx * speed) * (dx * speed) == (dx * dx) * s2) by (nonlinear_arith)
            requires
                s2 == speed * speed,
        ;
        assert((dy * speed) * (dy * speed) == (dy * dy) * s2) by (nonlinear_arith)
            requires
                s2 == speed * speed,
        ;
        assert((dx * dx + dy * dy) * s2 <= l2 * s2) by (nonlinear_arith)
            requires
                l2 >= dx * dx + dy * dy,
                s2 == speed * speed,
        ;
        assert((a * a + b * b) * l2 == a * a * l2 + b * b * l2) by (nonlinear_arith);
        assert((dx * dx + dy * dy) * s2 == (dx * dx) * s2 + (dy * dy) * s2) by (nonlinear_arith);
        assert((a * a + b * b) * l2 <= l2 * s2);
        assert(a * a + b * b <= speed * speed) by (nonlinear_arith)
            requires
                (a * a + b * b) * l2 <= l2 * s2,
                l2 == len * len,
                s2 == speed * speed,
                len > 0,
        ;
        assert(toward(from, to, speed) == (a, b));
        assert(a * a + b * b <= speed * speed);
    } else {
        assert(speed * speed >= 0) by (nonlinear_arith);
        assert(toward(from, to, speed) == (0int, 0int));
    }
}

/// On a path of two waypoints the platform turns around at each end: once
/// it reaches its target it stands exactly on it and heads back for the
/// other waypoint.
pub proof fn lemma_two_point_path_turns_at_ends(
    position: Vec2,
    velocity: Vec2,
    points: Seq<Vec2>,
    index: int,
    forward: bool,
    speed: int,
)
    requires
        points.len() == 2,
        0 <= index < 2,
        reached(position, velocity, points[index], speed),
    ensures
        patrol_step(position, velocity, points, index, forward, speed) == (
            points[index],
            toward(points[index], points[1 - index], speed),
            1 - index,
            index == 0,
        ),
{
}

} // verus!
