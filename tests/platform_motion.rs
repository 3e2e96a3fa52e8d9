use platformer_physics::fixed::Vec2;
use platformer_physics::platform_motion::{ceil_sqrt_u128, move_platforms_system, velocity_toward, Path};

#[test]
fn ceil_sqrt_values() {
    assert_eq!(ceil_sqrt_u128(0), 0);
    assert_eq!(ceil_sqrt_u128(1), 1);
    assert_eq!(ceil_sqrt_u128(2), 2);
    assert_eq!(ceil_sqrt_u128(4), 2);
    assert_eq!(ceil_sqrt_u128(5), 3);
    assert_eq!(ceil_sqrt_u128(1_000_000), 1000);
    assert_eq!(ceil_sqrt_u128(36893488147419103232), 6074001000);
}

#[test]
fn velocity_toward_scales_to_speed() {
    assert_eq!(velocity_toward(Vec2::new(0, 0), Vec2::new(3000, 4000), 5000), Vec2::new(3000, 4000));
    assert_eq!(velocity_toward(Vec2::new(1000, 1000), Vec2::new(1000, -9000), 2500), Vec2::new(0, -2500));
    assert_eq!(velocity_toward(Vec2::new(7, 7), Vec2::new(7, 7), 2500), Vec2::new(0, 0));
    let v = velocity_toward(Vec2::new(0, 0), Vec2::new(1, 1), 1000);
    assert_eq!(v, Vec2::new(500, 500));
}

fn two_point_path() -> Path {
    Path::new(vec![Vec2::new(0, 0), Vec2::new(10000, 0)], 2000)
}

#[test]
fn platform_heads_for_its_target() {
    let mut path = two_point_path();
    let mut pos = Vec2::new(5000, 0);
    let mut vel = Vec2::new(2000, 0);
    move_platforms_system(&mut pos, &mut vel, &mut path);
    assert_eq!(pos, Vec2::new(5000, 0));
    assert_eq!(vel, Vec2::new(2000, 0));
    assert_eq!(path.index, 1);
    assert!(path.forward);
}

#[test]
fn platform_reverses_exactly_at_each_end() {
    let mut path = two_point_path();
    // Overshot the far end.
    let mut pos = Vec2::new(10500, 0);
    let mut vel = Vec2::new(2000, 0);
    move_platforms_system(&mut pos, &mut vel, &mut path);
    assert_eq!(pos, Vec2::new(10000, 0));
    assert_eq!(vel, Vec2::new(-2000, 0));
    assert_eq!(path.index, 0);
    assert!(!path.forward);
    // Overshot the near end.
    let mut pos = Vec2::new(-300, 0);
    let mut vel = Vec2::new(-2000, 0);
    move_platforms_system(&mut pos, &mut vel, &mut path);
    assert_eq!(pos, Vec2::new(0, 0));
    assert_eq!(vel, Vec2::new(2000, 0));
    assert_eq!(path.index, 1);
    assert!(path.forward);
}

#[test]
fn standing_on_the_target_counts_as_reached() {
    let mut path = two_point_path();
    let mut pos = Vec2::new(10000, 0);
    let mut vel = Vec2::new(0, 0);
    move_platforms_system(&mut pos, &mut vel, &mut path);
    assert_eq!(vel, Vec2::new(-2000, 0));
    assert_eq!(path.index, 0);
}

#[test]
fn middle_waypoint_keeps_direction() {
    let mut path = Path::new(vec![Vec2::new(0, 0), Vec2::new(0, 5000), Vec2::new(5000, 5000)], 1000);
    let mut pos = Vec2::new(0, 5100);
    let mut vel = Vec2::new(0, 1000);
    move_platforms_system(&mut pos, &mut vel, &mut path);
    assert_eq!(pos, Vec2::new(0, 5000));
    assert_eq!(path.index, 2);
    assert!(path.forward);
    assert_eq!(vel, Vec2::new(1000, 0));
}

#[test]
fn short_paths_are_inert() {
    let mut path = Path::new(vec![Vec2::new(0, 0)], 1000);
    let mut pos = Vec2::new(3, 4);
    let mut vel = Vec2::new(5, 6);
    move_platforms_system(&mut pos, &mut vel, &mut path);
    assert_eq!(pos, Vec2::new(3, 4));
    assert_eq!(vel, Vec2::new(5, 6));
    let mut empty = Path::new(vec![], 1000);
    move_platforms_system(&mut pos, &mut vel, &mut empty);
    assert_eq!(vel, Vec2::new(5, 6));
}

#[test]
fn speed_bounds_travel_per_step() {
    for target in [Vec2::new(1, 0), Vec2::new(3, 3), Vec2::new(-70001, 12345), Vec2::new(i32::MAX, i32::MIN)] {
        let v = velocity_toward(Vec2::new(0, 0), target, 1500);
        let sq = (v.x as i64) * (v.x as i64) + (v.y as i64) * (v.y as i64);
        assert!(sq <= 1500 * 1500);
    }
}
