use std::collections::HashMap;

use platformer_physics::character_controller::activate_pass_through_one_way_platform_system;
use platformer_physics::fixed::Direction;
use platformer_physics::ground::{update_grounded, MaxSlopeAngle, Rotation};
use platformer_physics::one_way::{
    decide_pass_through, filter_contact, governing_entity, manifolds_penetrating, manifolds_upright,
    one_way_platform_system, pass_through_mode, ContactManifold, Contacts, OneWayPlatform, OneWayWorld,
    PassThroughOneWayPlatform,
};

const PLATFORM: u64 = 1;
const PLAYER: u64 = 2;

fn manifold(normal1: (i16, i16), normal2: (i16, i16), penetrations: Vec<i32>) -> ContactManifold {
    ContactManifold {
        normal1: Direction::new(normal1.0, normal1.1),
        normal2: Direction::new(normal2.0, normal2.1),
        penetrations,
    }
}

fn world() -> OneWayWorld {
    let mut platforms = HashMap::new();
    platforms.insert(PLATFORM, OneWayPlatform::default());
    OneWayWorld { parents: HashMap::new(), modes: HashMap::new(), platforms }
}

fn passing(world: &OneWayWorld, platform: u64) -> Vec<u64> {
    let mut v: Vec<u64> = world.platforms[&platform].0.iter().copied().collect();
    v.sort();
    v
}

/// A pair with the platform first, so that `normal1` is the platform's side.
fn on_platform(manifolds: Vec<ContactManifold>) -> Contacts {
    Contacts { entity1: PLATFORM, entity2: PLAYER, manifolds }
}

#[test]
fn falling_onto_platform_is_kept_then_grounded() {
    let mut w = world();
    let mut collisions = vec![on_platform(vec![manifold((0, 1000), (0, -1000), vec![0])])];
    one_way_platform_system(&mut collisions, &mut w, 500);
    assert_eq!(collisions.len(), 1);
    assert!(passing(&w, PLATFORM).is_empty());
    // The next step's ground probe hits the platform below the player.
    let hits = vec![Direction::new(0, -1000)];
    assert!(update_grounded(&hits, Rotation::identity(), Some(MaxSlopeAngle(866))));
}

#[test]
fn drop_down_passes_through_and_is_pruned_after_leaving() {
    let mut w = world();
    // The player stands on the platform and asks to drop down.
    let (mode, wake) = activate_pass_through_one_way_platform_system(true);
    assert_eq!(mode, PassThroughOneWayPlatform::Always);
    assert!(wake);
    w.modes.insert(PLAYER, mode);
    let mut collisions = vec![Contacts {
        entity1: PLAYER,
        entity2: PLATFORM,
        manifolds: vec![manifold((0, -1000), (0, 1000), vec![30])],
    }];
    one_way_platform_system(&mut collisions, &mut w, 500);
    assert!(collisions.is_empty());
    assert_eq!(passing(&w, PLATFORM), vec![PLAYER]);

    // The request is over, but the player is still inside the platform.
    let (mode, wake) = activate_pass_through_one_way_platform_system(false);
    assert_eq!(mode, PassThroughOneWayPlatform::ByNormal);
    assert!(!wake);
    w.modes.insert(PLAYER, mode);
    let mut collisions = vec![Contacts {
        entity1: PLAYER,
        entity2: PLATFORM,
        manifolds: vec![manifold((0, -1000), (0, 1000), vec![200])],
    }];
    one_way_platform_system(&mut collisions, &mut w, 500);
    assert!(collisions.is_empty());
    assert_eq!(passing(&w, PLATFORM), vec![PLAYER]);

    // Fully below: the pair reports no manifold any more.
    let mut collisions = vec![Contacts { entity1: PLAYER, entity2: PLATFORM, manifolds: vec![] }];
    one_way_platform_system(&mut collisions, &mut w, 500);
    assert_eq!(collisions.len(), 1);
    assert!(passing(&w, PLATFORM).is_empty());
}

#[test]
fn upright_contact_is_solid_despite_stale_history() {
    let mut platform = OneWayPlatform::default();
    platform.0.insert(PLAYER);
    let ms = vec![manifold((0, 1000), (0, -1000), vec![0, -5])];
    let keep = decide_pass_through(&mut platform, PLAYER, PassThroughOneWayPlatform::ByNormal, &ms, true, 500);
    assert!(keep);
    assert!(platform.0.is_empty());
}

#[test]
fn passing_body_keeps_passing_while_penetrating_whatever_its_mode() {
    for mode in [PassThroughOneWayPlatform::Never, PassThroughOneWayPlatform::ByNormal, PassThroughOneWayPlatform::Always] {
        let mut platform = OneWayPlatform::default();
        platform.0.insert(PLAYER);
        let ms = vec![manifold((0, 1000), (0, -1000), vec![0, 4])];
        let keep = decide_pass_through(&mut platform, PLAYER, mode, &ms, true, 500);
        assert!(!keep);
        assert!(platform.0.contains(&PLAYER));
    }
}

#[test]
fn never_mode_is_solid_even_from_below() {
    let mut platform = OneWayPlatform::default();
    let ms = vec![manifold((0, -1000), (0, 1000), vec![40])];
    let keep = decide_pass_through(&mut platform, PLAYER, PassThroughOneWayPlatform::Never, &ms, true, 500);
    assert!(keep);
    assert!(platform.0.is_empty());
}

#[test]
fn always_mode_passes_even_from_above() {
    let mut platform = OneWayPlatform::default();
    let ms = vec![manifold((0, 1000), (0, -1000), vec![0])];
    let keep = decide_pass_through(&mut platform, PLAYER, PassThroughOneWayPlatform::Always, &ms, true, 500);
    assert!(!keep);
    assert!(platform.0.contains(&PLAYER));
}

#[test]
fn side_approach_without_overlap_is_solid() {
    let mut platform = OneWayPlatform::default();
    let ms = vec![manifold((1000, 0), (-1000, 0), vec![0, -2])];
    let keep = decide_pass_through(&mut platform, PLAYER, PassThroughOneWayPlatform::ByNormal, &ms, true, 500);
    assert!(keep);
    assert!(platform.0.is_empty());
}

#[test]
fn side_approach_with_overlap_passes_and_is_remembered() {
    let mut platform = OneWayPlatform::default();
    let ms = vec![manifold((1000, 0), (-1000, 0), vec![1])];
    let keep = decide_pass_through(&mut platform, PLAYER, PassThroughOneWayPlatform::ByNormal, &ms, true, 500);
    assert!(!keep);
    assert!(platform.0.contains(&PLAYER));
}

#[test]
fn normal_just_below_threshold_is_not_upright() {
    // 61 degrees from vertical: cos = 0.485.
    let steep = vec![manifold((875, 485), (-875, -485), vec![3])];
    assert!(!manifolds_upright(&steep, true, 500));
    // 59 degrees: cos = 0.515.
    let gentle = vec![manifold((857, 515), (-857, -515), vec![3])];
    assert!(manifolds_upright(&gentle, true, 500));
    assert!(!manifolds_upright(&gentle, false, 0));
}

#[test]
fn zero_normal_is_not_upright() {
    let ms = vec![manifold((0, 0), (0, 0), vec![0])];
    assert!(!manifolds_upright(&ms, true, 0));
    let mut platform = OneWayPlatform::default();
    // Not upright and not penetrating: kept.
    assert!(decide_pass_through(&mut platform, PLAYER, PassThroughOneWayPlatform::ByNormal, &ms, true, 0));
}

#[test]
fn every_manifold_must_be_upright() {
    let ms = vec![manifold((0, 1000), (0, -1000), vec![0]), manifold((1000, 0), (-1000, 0), vec![2])];
    assert!(!manifolds_upright(&ms, true, 500));
    assert!(manifolds_penetrating(&ms));
    let mut platform = OneWayPlatform::default();
    assert!(!decide_pass_through(&mut platform, PLAYER, PassThroughOneWayPlatform::ByNormal, &ms, true, 500));
}

#[test]
fn empty_manifolds_neither_penetrate_nor_fail_the_upright_check() {
    let ms: Vec<ContactManifold> = vec![];
    assert!(!manifolds_penetrating(&ms));
    assert!(manifolds_upright(&ms, true, 500));
}

#[test]
fn child_collider_resolves_to_its_platform() {
    let mut w = world();
    w.parents.insert(10, PLATFORM);
    assert_eq!(governing_entity(&w.parents, 10), PLATFORM);
    assert_eq!(governing_entity(&w.parents, 11), 11);
    let c = Contacts { entity1: PLAYER, entity2: 10, manifolds: vec![manifold((0, -1000), (0, 1000), vec![0])] };
    // The platform's normal is normal2 here, and it points up.
    assert!(filter_contact(&mut w, &c, 500));
    let c = Contacts { entity1: 10, entity2: PLAYER, manifolds: vec![manifold((0, -1000), (0, 1000), vec![7])] };
    assert!(!filter_contact(&mut w, &c, 500));
    assert_eq!(passing(&w, PLATFORM), vec![PLAYER]);
}

#[test]
fn untagged_body_behaves_by_normal() {
    let mut modes = HashMap::new();
    modes.insert(5, PassThroughOneWayPlatform::Never);
    assert_eq!(pass_through_mode(&modes, 5), PassThroughOneWayPlatform::Never);
    assert_eq!(pass_through_mode(&modes, 6), PassThroughOneWayPlatform::ByNormal);
    assert_eq!(PassThroughOneWayPlatform::default(), PassThroughOneWayPlatform::ByNormal);
}

#[test]
fn pairs_without_exactly_one_platform_are_untouched() {
    let mut w = world();
    w.platforms.insert(3, OneWayPlatform::default());
    let mut collisions = vec![
        Contacts { entity1: 7, entity2: 8, manifolds: vec![manifold((0, -1000), (0, 1000), vec![9])] },
        Contacts { entity1: PLATFORM, entity2: 3, manifolds: vec![manifold((0, -1000), (0, 1000), vec![9])] },
    ];
    one_way_platform_system(&mut collisions, &mut w, 500);
    assert_eq!(collisions.len(), 2);
    assert_eq!(collisions[0].entity1, 7);
    assert_eq!(collisions[1].entity1, PLATFORM);
    assert!(passing(&w, PLATFORM).is_empty());
    assert!(passing(&w, 3).is_empty());
}

#[test]
fn kept_pairs_keep_their_order_and_state_carries_between_pairs() {
    let mut w = world();
    let mut collisions = vec![
        Contacts { entity1: 20, entity2: 21, manifolds: vec![] },
        // From below and overlapping: passes, and the player is remembered.
        on_platform(vec![manifold((0, -1000), (0, 1000), vec![5])]),
        Contacts { entity1: 22, entity2: 23, manifolds: vec![] },
        // A second shape of the same pair, upright now, but still overlapping:
        // the history keeps it passing.
        on_platform(vec![manifold((0, 1000), (0, -1000), vec![5])]),
    ];
    one_way_platform_system(&mut collisions, &mut w, 500);
    let kept: Vec<u64> = collisions.iter().map(|c| c.entity1).collect();
    assert_eq!(kept, vec![20, 22]);
    assert_eq!(passing(&w, PLATFORM), vec![PLAYER]);
}
