//! One-way ("semi-solid") platforms.
//!
//! A platform blocks bodies that land on it from above and lets bodies pass
//! through from below, from the side, or on request. Each step the contact
//! pairs reported by the physics engine are filtered: a pair that is
//! discarded is never solved. A platform remembers which bodies it is
//! currently letting through, so that a body midway through the platform's
//! thickness keeps passing until the two shapes separate.

use std::collections::{HashMap, HashSet};
use vstd::prelude::*;

use crate::fixed::{Direction, SCALE};

verus! {

broadcast use vstd::std_specs::hash::group_hash_axioms;

/// How a body interacts with one-way platforms.
#[derive(Clone, Copy, Debug, PartialEq, Eq, Structural)]
pub enum PassThroughOneWayPlatform {
    /// Passes through unless every contact normal points up out of the
    /// platform, i.e. unless the body is resting on top.
    ByNormal,
    /// Always passes through; used for a single step to drop down.
    Always,
    /// Never passes through.
    Never,
}

impl Default for PassThroughOneWayPlatform {
    fn default() -> (r: PassThroughOneWayPlatform)
        ensures
            r == PassThroughOneWayPlatform::ByNormal,
    {
        PassThroughOneWayPlatform::ByNormal
    }
}

/// The state of a one-way platform: the bodies it currently lets through
/// because they were already overlapping it when passing was decided.
#[derive(Debug)]
pub struct OneWayPlatform(pub HashSet<u64>);

impl View for OneWayPlatform {
    type V = Set<u64>;

    open spec fn view(&self) -> Set<u64> {
        self.0@
    }
}

impl Default for OneWayPlatform {
    fn default() -> (r: OneWayPlatform)
        ensures
            r@ == Set::<u64>::empty(),
    {
        OneWayPlatform(HashSet::new())
    }
}

/// One cluster of contact points between two shapes, sharing one normal
/// per side.
#[derive(Debug)]
pub struct ContactManifold {
    /// The contact normal in the local frame of the first shape.
    pub normal1: Direction,
    /// The contact normal in the local frame of the second shape.
    pub normal2: Direction,
    /// The penetration depth of each contact point; positive means the
    /// shapes overlap there.
    pub penetrations: Vec<i32>,
}

/// All contacts between two shapes in one physics step.
#[derive(Debug)]
pub struct Contacts {
    pub entity1: u64,
    pub entity2: u64,
    pub manifolds: Vec<ContactManifold>,
}

/// The normal of a manifold as seen from the platform's side.
pub open spec fn platform_normal(m: ContactManifold, platform_first: bool) -> Direction {
    if platform_first {
        m.normal1
    } else {
        m.normal2
    }
}

/// A normal is upright when it is not zero and its component along the
/// platform's local up axis reaches `threshold` (in thousandths; for a unit
/// normal, `500` accepts directions within 60 degrees of straight up).
pub open spec fn upright(n: Direction, threshold: int) -> bool {
    (n.x != 0 || n.y != 0) && n.y >= threshold
}

/// Every manifold's normal, seen from the platform, is upright.
pub open spec fn all_upright(ms: Seq<ContactManifold>, platform_first: bool, threshold: int) -> bool {
    forall|i: int| 0 <= i < ms.len() ==> #[trigger] upright(platform_normal(ms[i], platform_first), threshold)
}

/// Some contact point of the manifold has positive penetration.
pub open spec fn manifold_penetrating(m: ContactManifold) -> bool {
    exists|j: int| 0 <= j < m.penetrations@.len() && #[trigger] m.penetrations@[j] > 0
}

/// Some contact point of some manifold has positive penetration.
pub open spec fn any_penetrating(ms: Seq<ContactManifold>) -> bool {
    exists|i: int| 0 <= i < ms.len() && #[trigger] manifold_penetrating(ms[i])
}

/// The decision of the body's pass-through mode alone, for a pair whose
/// history has already been consulted: whether the contact is kept, and
/// the platform's set of passing bodies afterwards.
pub open spec fn policy_decision(
    passing: Set<u64>,
    other: u64,
    mode: PassThroughOneWayPlatform,
    ms: Seq<ContactManifold>,
    platform_first: bool,
    threshold: int,
) -> (bool, Set<u64>) {
    match mode {
        PassThroughOneWayPlatform::Never => (true, passing),
        PassThroughOneWayPlatform::Always => (false, passing.insert(other)),
        PassThroughOneWayPlatform::ByNormal => {
            if all_upright(ms, platform_first, threshold) {
                (true, passing)
            } else if any_penetrating(ms) {
                (false, passing.insert(other))
            } else {
                (true, passing)
            }
        },
    }
}

/// Whether a contact between a platform and `other` is kept, and the
/// platform's set of passing bodies afterwards. A body that is already
/// passing keeps passing while it still penetrates; once it does not, it
/// is forgotten and the pair is decided afresh.
pub open spec fn pass_through_decision(
    passing: Set<u64>,
    other: u64,
    mode: PassThroughOneWayPlatform,
    ms: Seq<ContactManifold>,
    platform_first: bool,
    threshold: int,
) -> (bool, Set<u64>) {
    if passing.contains(other) && any_penetrating(ms) {
        (false, passing)
    } else {
        policy_decision(passing.remove(other), other, mode, ms, platform_first, threshold)
    }
}

/// Whether some contact point of some manifold penetrates.
pub fn manifolds_penetrating(ms: &Vec<ContactManifold>) -> (r: bool)
    ensures
        r == any_penetrating(ms@),
{
    let mut i: usize = 0;
    while i < ms.len()
        invariant
            0 <= i <= ms@.len(),
            forall|k: int| 0 <= k < i ==> !manifold_penetrating(#[trigger] ms@[k]),
        decreases ms@.len() - i,
    {
        let m = &ms[i];
        let mut j: usize = 0;
        while j < m.penetrations.len()
            invariant
                0 <= i < ms@.len(),
                *m == ms@[i as int],
                0 <= j <= m.penetrations@.len(),
                forall|k: int| 0 <= k < j ==> !(#[trigger] m.penetrations@[k] > 0),
            decreases m.penetrations@.len() - j,
        {
            if m.penetrations[j] > 0 {
                assert(manifold_penetrating(ms@[i as int]));
                return true;
            }
            j += 1;
        }
        i += 1;
    }
    false
}

/// Whether every manifold's normal, seen from the platform, is upright.
pub fn manifolds_upright(ms: &Vec<ContactManifold>, platform_first: bool, threshold: i32) -> (r: bool)
    ensures
        r == all_upright(ms@, platform_first, threshold as int),
{
    let mut i: usize = 0;
    while i < ms.len()
        invariant
            0 <= i <= ms@.len(),
            forall|k: int| 0 <= k < i ==> #[trigger] upright(platform_normal(ms@[k], platform_first), threshold as int),
        decreases ms@.len() - i,
    {
        let n = if platform_first {
            ms[i].normal1
        } else {
            ms[i].normal2
        };
        if !((n.x != 0 || n.y != 0) && n.y as i32 >= threshold) {
            assert(!upright(platform_normal(ms@[i as int], platform_first), threshold as int));
            return false;
        }
        i += 1;
    }
    true
}

/// Decides one contact pair between a platform and `other`, updating the
/// platform's set of passing bodies. Returns whether the contact is kept.
pub fn decide_pass_through(
    platform: &mut OneWayPlatform,
    other: u64,
    mode: PassThroughOneWayPlatform,
    ms: &Vec<ContactManifold>,
    platform_first: bool,
    threshold: i32,
) -> (keep: bool)
    ensures
        (keep, final(platform)@) == pass_through_decision(old(platform)@, other, mode, ms@, platform_first, threshold as int),
{
    let penetrating = manifolds_penetrating(ms);
    if platform.0.contains(&other) {
        if penetrating {
            return false;
        }
        platform.0.remove(&other);
    }
    assert(platform@ == old(platform)@.remove(other));
    match mode {
        PassThroughOneWayPlatform::Never => true,
        PassThroughOneWayPlatform::Always => {
            platform.0.insert(other);
            false
        },
        PassThroughOneWayPlatform::ByNormal => {
            if manifolds_upright(ms, platform_first, threshold) {
                true
            } else if penetrating {
                platform.0.insert(other);
                false
            } else {
                true
            }
        },
    }
}

/// What the filter reads of the scene, keyed by entity id.
pub struct OneWayWorld {
    /// For a collider that belongs to a compound body, the body's id.
    pub parents: HashMap<u64, u64>,
    /// The pass-through mode of each body that has one; a body without an
    /// entry behaves as `ByNormal`.
    pub modes: HashMap<u64, PassThroughOneWayPlatform>,
    /// Each one-way platform's state.
    pub platforms: HashMap<u64, OneWayPlatform>,
}

/// The entity that governs a collider: its parent body if it has one,
/// else the collider itself.
pub open spec fn governing(parents: Map<u64, u64>, e: u64) -> u64 {
    if parents.contains_key(e) {
        parents[e]
    } else {
        e
    }
}

/// A body's pass-through mode, `ByNormal` when it has none.
pub open spec fn mode_of(modes: Map<u64, PassThroughOneWayPlatform>, e: u64) -> PassThroughOneWayPlatform {
    if modes.contains_key(e) {
        modes[e]
    } else {
        PassThroughOneWayPlatform::ByNormal
    }
}

/// The set of passing bodies of each platform.
pub open spec fn passing_sets(platforms: Map<u64, OneWayPlatform>) -> Map<u64, Set<u64>> {
    Map::new(|k: u64| platforms.contains_key(k), |k: u64| platforms[k]@)
}

/// Whether one contact pair is kept, and every platform's set of passing
/// bodies afterwards. A pair that touches no platform, or two platforms,
/// is kept untouched.
pub open spec fn contact_step(
    parents: Map<u64, u64>,
    modes: Map<u64, PassThroughOneWayPlatform>,
    sets: Map<u64, Set<u64>>,
    c: Contacts,
    threshold: int,
) -> (bool, Map<u64, Set<u64>>) {
    let e1 = governing(parents, c.entity1);
    let e2 = governing(parents, c.entity2);
    if sets.contains_key(e1) && sets.contains_key(e2) {
        (true, sets)
    } else if sets.contains_key(e1) {
        let d = pass_through_decision(sets[e1], e2, mode_of(modes, e2), c.manifolds@, true, threshold);
        (d.0, sets.insert(e1, d.1))
    } else if sets.contains_key(e2) {
        let d = pass_through_decision(sets[e2], e1, mode_of(modes, e1), c.manifolds@, false, threshold);
        (d.0, sets.insert(e2, d.1))
    } else {
        (true, sets)
    }
}

/// The contact pairs kept from `cs`, decided in order, and every platform's
/// set of passing bodies afterwards.
pub open spec fn filter_contacts(
    parents: Map<u64, u64>,
    modes: Map<u64, PassThroughOneWayPlatform>,
    sets: Map<u64, Set<u64>>,
    cs: Seq<Contacts>,
    threshold: int,
) -> (Seq<Contacts>, Map<u64, Set<u64>>)
    decreases cs.len(),
{
    if cs.len() == 0 {
        (Seq::empty(), sets)
    } else {
        let prev = filter_contacts(parents, modes, sets, cs.drop_last(), threshold);
        let step = contact_step(parents, modes, prev.1, cs.last(), threshold);
        (
            if step.0 {
                prev.0.push(cs.last())
            } else {
                prev.0
            },
            step.1,
        )
    }
}

/// Resolves a collider to the entity that governs it.
pub fn governing_entity(parents: &HashMap<u64, u64>, e: u64) -> (r: u64)
    ensures
        r == governing(parents@, e),
{
    match parents.get(&e) {
        Some(p) => *p,
        None => e,
    }
}

/// Looks up a body's pass-through mode.
pub fn pass_through_mode(modes: &HashMap<u64, PassThroughOneWayPlatform>, e: u64) -> (r: PassThroughOneWayPlatform)
    ensures
        r == mode_of(modes@, e),
{
    match modes.get(&e) {
        Some(m) => *m,
        None => PassThroughOneWayPlatform::ByNormal,
    }
}

/// Decides one contact pair against whichever of its two bodies is a
/// one-way platform. Returns whether the contact is kept.
pub fn filter_contact(world: &mut OneWayWorld, c: &Contacts, threshold: i32) -> (keep: bool)
    ensures
        final(world).parents@ == old(world).parents@,
        final(world).modes@ == old(world).modes@,
        (keep, passing_sets(final(world).platforms@)) == contact_step(
            old(world).parents@,
            old(world).modes@,
            passing_sets(old(world).platforms@),
            *c,
            threshold as int,
        ),
{
    let ghost sets = passing_sets(world.platforms@);
    let e1 = governing_entity(&world.parents, c.entity1);
    let e2 = governing_entity(&world.parents, c.entity2);
    let first_is_platform = world.platforms.contains_key(&e1);
    let second_is_platform = world.platforms.contains_key(&e2);
    assert(sets.contains_key(e1) == first_is_platform);
    assert(sets.contains_key(e2) == second_is_platform);
    if first_is_platform == second_is_platform {
        return true;
    }
    let (id, other) = if first_is_platform {
        (e1, e2)
    } else {
        (e2, e1)
    };
    let mode = pass_through_mode(&world.modes, other);
    match world.platforms.remove(&id) {
        Some(mut platform) => {
            let keep = decide_pass_through(&mut platform, other, mode, &c.manifolds, first_is_platform, threshold);
            let ghost passing = platform@;
            world.platforms.insert(id, platform);
            assert(passing_sets(world.platforms@) =~= sets.insert(id, passing));
            keep
        },
        None => true,
    }
}

/// Filters the contact pairs of one physics step in place: the pairs that
/// pass through a one-way platform are removed, the others keep their
/// order, and each platform's set of passing bodies is brought up to date.
pub fn one_way_platform_system(collisions: &mut Vec<Contacts>, world: &mut OneWayWorld, threshold: i32)
    ensures
        final(world).parents@ == old(world).parents@,
        final(world).modes@ == old(world).modes@,
        (final(collisions)@, passing_sets(final(world).platforms@)) == filter_contacts(
            old(world).parents@,
            old(world).modes@,
            passing_sets(old(world).platforms@),
            old(collisions)@,
            threshold as int,
        ),
{
    let ghost cs = collisions@;
    let ghost parents = world.parents@;
    let ghost modes = world.modes@;
    let ghost sets0 = passing_sets(world.platforms@);
    let n = collisions.len();
    // Move the pairs onto a stack, last pair first, so that popping the
    // stack hands them back in the order they came in.
    let mut pending: Vec<Contacts> = Vec::new();
    while collisions.len() > 0
        invariant
            collisions@.len() + pending@.len() == n,
            n == cs.len(),
            collisions@ == cs.take(collisions@.len() as int),
            forall|k: int| 0 <= k < pending@.len() ==> pending@[k] == cs[n - 1 - k],
        decreases collisions@.len(),
    {
        let c = collisions.pop().unwrap();
        pending.push(c);
    }
    assert(cs.take(0) =~= Seq::<Contacts>::empty());
    while pending.len() > 0
        invariant
            pending@.len() <= n,
            n == cs.len(),
            forall|k: int| 0 <= k < pending@.len() ==> pending@[k] == cs[n - 1 - k],
            world.parents@ == parents,
            world.modes@ == modes,
            (collisions@, passing_sets(world.platforms@)) == filter_contacts(
                parents,
                modes,
                sets0,
                cs.take(n - pending@.len()),
                threshold as int,
            ),
        decreases pending@.len(),
    {
        let ghost done = (n - pending@.len()) as int;
        let c = pending.pop().unwrap();
        assert(c == cs[done]);
        assert(cs.take(done + 1).drop_last() =~= cs.take(done));
        assert(cs.take(done + 1).last() == cs[done]);
        let keep = filter_contact(world, &c, threshold);
        if keep {
            collisions.push(c);
        }
    }
    assert(cs.take(n as int) =~= cs);
}

/// The decisions, step after step, on a pair between a platform and
/// `other`, each step given by the body's mode and the pair's manifolds;
/// with the platform's set of passing bodies at the end.
pub open spec fn run_steps(
    passing: Set<u64>,
    other: u64,
    steps: Seq<(PassThroughOneWayPlatform, Seq<ContactManifold>)>,
    platform_first: bool,
    threshold: int,
) -> (Seq<bool>, Set<u64>)
    decreases steps.len(),
{
    if steps.len() == 0 {
        (Seq::empty(), passing)
    } else {
        let prev = run_steps(passing, other, steps.drop_last(), platform_first, threshold);
        let d = pass_through_decision(prev.1, other, steps.last().0, steps.last().1, platform_first, threshold);
        (prev.0.push(d.0), d.1)
    }
}

/// A body in `ByNormal` mode whose only manifold with the platform has a
/// normal pointing straight up out of the platform is kept solid, whatever
/// the platform remembers of it, save when it is already passing through
/// and still penetrates.
pub proof fn lemma_upright_contact_is_solid(
    passing: Set<u64>,
    other: u64,
    m: ContactManifold,
    platform_first: bool,
    threshold: int,
)
    requires
        platform_normal(m, platform_first) == (Direction { x: 0, y: SCALE as i16 }),
        threshold <= SCALE,
        !(passing.contains(other) && manifold_penetrating(m)),
    ensures
        pass_through_decision(passing, other, PassThroughOneWayPlatform::ByNormal, seq![m], platform_first, threshold).0,
{
    let ms = seq![m];
    assert(all_upright(ms, platform_first, threshold)) by {
        assert forall|i: int| 0 <= i < ms.len() implies #[trigger] upright(platform_normal(ms[i], platform_first), threshold) by {
            assert(ms[i] == m);
        }
    }
    if any_penetrating(ms) {
        let i = choose|i: int| 0 <= i < ms.len() && #[trigger] manifold_penetrating(ms[i]);
        assert(ms[i] == m);
    }
}

/// A body that is passing through a platform goes on passing, whatever its
/// mode, for as long as it penetrates: every such step discards the contact
/// and leaves the platform's set as it was. The first step on which it does
/// not penetrate forgets it and decides the pair afresh.
pub proof fn lemma_passing_persists_until_separation(
    passing: Set<u64>,
    other: u64,
    mode: PassThroughOneWayPlatform,
    ms: Seq<ContactManifold>,
    platform_first: bool,
    threshold: int,
)
    requires
        passing.contains(other),
    ensures
        any_penetrating(ms) ==> pass_through_decision(passing, other, mode, ms, platform_first, threshold)
            == (false, passing),
        !any_penetrating(ms) ==> pass_through_decision(passing, other, mode, ms, platform_first, threshold)
            == policy_decision(passing.remove(other), other, mode, ms, platform_first, threshold),
{
}

/// A body that is not passing through a platform starts to pass exactly
/// when its mode is `Always`, or when it is `ByNormal`, some normal is not
/// upright and it penetrates; the contact is discarded exactly when it
/// starts to pass, and the platform's other entries are left alone.
pub proof fn lemma_starts_passing_only_by_policy(
    passing: Set<u64>,
    other: u64,
    mode: PassThroughOneWayPlatform,
    ms: Seq<ContactManifold>,
    platform_first: bool,
    threshold: int,
)
    requires
        !passing.contains(other),
    ensures
        ({
            let d = pass_through_decision(passing, other, mode, ms, platform_first, threshold);
            &&& d.1.contains(other) <==> (mode == PassThroughOneWayPlatform::Always || (mode
                == PassThroughOneWayPlatform::ByNormal && !all_upright(ms, platform_first, threshold)
                && any_penetrating(ms)))
            &&& d.0 == !d.1.contains(other)
            &&& d.1.remove(other) == passing
        }),
{
    let d = pass_through_decision(passing, other, mode, ms, platform_first, threshold);
    assert(passing.remove(other) =~= passing);
    assert(d.1.remove(other) =~= passing);
}

/// Over any run of steps on which the pair penetrates, a body that was
/// passing through the platform at the start is discarded at every step and
/// is still passing at the end.
pub proof fn lemma_passing_persists_over_steps(
    passing: Set<u64>,
    other: u64,
    steps: Seq<(PassThroughOneWayPlatform, Seq<ContactManifold>)>,
    platform_first: bool,
    threshold: int,
)
    requires
        passing.contains(other),
        forall|k: int| 0 <= k < steps.len() ==> any_penetrating(#[trigger] steps[k].1),
    ensures
        run_steps(passing, other, steps, platform_first, threshold).1 == passing,
        forall|k: int| 0 <= k < steps.len() ==> !#[trigger] run_steps(passing, other, steps, platform_first, threshold).0[k],
        run_steps(passing, other, steps, platform_first, threshold).0.len() == steps.len(),
    decreases steps.len(),
{
    if steps.len() > 0 {
        let prev = steps.drop_last();
        assert forall|k: int| 0 <= k < prev.len() implies any_penetrating(#[trigger] prev[k].1) by {
            assert(prev[k] == steps[k]);
        }
        lemma_passing_persists_over_steps(passing, other, prev, platform_first, threshold);
        assert(any_penetrating(steps[steps.len() - 1].1));
        let r = run_steps(passing, other, steps, platform_first, threshold);
        let p = run_steps(passing, other, prev, platform_first, threshold);
        assert forall|k: int| 0 <= k < steps.len() implies !#[trigger] r.0[k] by {
            if k < prev.len() {
                assert(r.0[k] == p.0[k]);
            }
        }
    }
}

} // verus!
