//! Collision resolution: turns the overlaps reported for each damageable
//! entity into damage and into projectiles to destroy.
//!
//! Targets are worked through in the order in which they are given, and the
//! overlaps of each target in the order in which they were reported. A
//! projectile is spent by the first hit that counts: where it overlaps
//! several targets it may damage, the earliest of them is damaged and no
//! other. Callers that want a fixed winner hand the targets over in a fixed
//! order, such as the order in which the entities were created.

use crate::health::Health;
use crate::projectile::{
    find_entity, lemma_position_is_in_range, position_of, ProjectileEntity, ProjectileTargetingType,
};
use vstd::prelude::*;

verus! {

/// An entity that projectiles can damage, with the ids of the entities that
/// the overlap query reported for its shape.
pub struct Damageable {
    pub id: u64,
    /// Whether the entity belongs to the player's side.
    pub is_player: bool,
    pub health: Health,
    pub overlaps: Vec<u64>,
}

/// What resolution has done so far, seen from one target: the target's
/// health, and for each projectile whether it is to be destroyed.
pub struct Tally {
    pub health: Health,
    pub destroyed: Seq<bool>,
}

/// Whether a projectile of this targeting type damages a target of the
/// given side.
pub open spec fn damages(targeting_type: ProjectileTargetingType, target_is_player: bool) -> bool {
    match targeting_type {
        ProjectileTargetingType::PLAYER => !target_is_player,
        ProjectileTargetingType::ENEMY => target_is_player,
        ProjectileTargetingType::ENVIRONMENT => true,
    }
}

/// Whether the entity `id` is a projectile of `world` that is still in play
/// and damages a target of the given side.
pub open spec fn counts(
    world: Seq<ProjectileEntity>,
    target_is_player: bool,
    destroyed: Seq<bool>,
    id: u64,
) -> bool {
    match position_of(world, id) {
        Some(j) => !destroyed[j] && damages(world[j].projectile.targeting_type, target_is_player),
        None => false,
    }
}

/// The tally after one reported overlap. A hit that counts takes the
/// projectile's damage off the target's health and marks the projectile;
/// any other overlap changes nothing.
pub open spec fn struck(
    world: Seq<ProjectileEntity>,
    target_is_player: bool,
    tally: Tally,
    id: u64,
) -> Tally {
    if counts(world, target_is_player, tally.destroyed, id) {
        let j = position_of(world, id)->0;
        Tally {
            health: tally.health.damaged(world[j].projectile.damage),
            destroyed: tally.destroyed.update(j, true),
        }
    } else {
        tally
    }
}

/// The tally after the first `upto` of `overlaps`, in order.
pub open spec fn struck_all(
    world: Seq<ProjectileEntity>,
    target_is_player: bool,
    tally: Tally,
    overlaps: Seq<u64>,
    upto: int,
) -> Tally
    decreases upto,
{
    if upto <= 0 {
        tally
    } else {
        struck(
            world,
            target_is_player,
            struck_all(world, target_is_player, tally, overlaps, upto - 1),
            overlaps[upto - 1],
        )
    }
}

/// The projectiles marked for destruction once the first `upto` of
/// `targets` have been resolved, in order.
pub open spec fn resolved_destroyed(
    world: Seq<ProjectileEntity>,
    targets: Seq<Damageable>,
    upto: int,
) -> Seq<bool>
    decreases upto,
{
    if upto <= 0 {
        Seq::new(world.len(), |j: int| false)
    } else {
        struck_all(
            world,
            targets[upto - 1].is_player,
            Tally {
                health: targets[upto - 1].health,
                destroyed: resolved_destroyed(world, targets, upto - 1),
            },
            targets[upto - 1].overlaps@,
            targets[upto - 1].overlaps@.len() as int,
        ).destroyed
    }
}

/// The tally that resolving target `t` ends with, the targets before it
/// having been resolved.
pub open spec fn resolved_tally(world: Seq<ProjectileEntity>, targets: Seq<Damageable>, t: int) -> Tally {
    struck_all(
        world,
        targets[t].is_player,
        Tally { health: targets[t].health, destroyed: resolved_destroyed(world, targets, t) },
        targets[t].overlaps@,
        targets[t].overlaps@.len() as int,
    )
}

impl ProjectileTargetingType {
    /// Whether a projectile of this targeting type damages a target of the
    /// given side.
    pub fn damages(&self, target_is_player: bool) -> (b: bool)
        ensures
            b == damages(*self, target_is_player),
    {
        match self {
            ProjectileTargetingType::PLAYER => !target_is_player,
            ProjectileTargetingType::ENEMY => target_is_player,
            ProjectileTargetingType::ENVIRONMENT => true,
        }
    }
}

/// Resolves the overlaps reported for one target.
///
/// `destroyed` says for each projectile of `world` whether an earlier hit
/// has spent it; hits that count here are added to it.
pub fn resolve_target(
    world: &Vec<ProjectileEntity>,
    target_is_player: bool,
    health: &mut Health,
    overlaps: &Vec<u64>,
    destroyed: &mut Vec<bool>,
)
    requires
        old(destroyed)@.len() == world@.len(),
    ensures
        final(destroyed)@.len() == world@.len(),
        (Tally { health: *final(health), destroyed: final(destroyed)@ }) == struck_all(
            world@,
            target_is_player,
            Tally { health: *old(health), destroyed: old(destroyed)@ },
            overlaps@,
            overlaps@.len() as int,
        ),
{
    let ghost start = Tally { health: *health, destroyed: destroyed@ };
    let mut k: usize = 0;
    while k < overlaps.len()
        invariant
            k <= overlaps.len(),
            destroyed@.len() == world@.len(),
            (Tally { health: *health, destroyed: destroyed@ }) == struck_all(
                world@,
                target_is_player,
                start,
                overlaps@,
                k as int,
            ),
        decreases overlaps.len() - k,
    {
        let ghost before = Tally { health: *health, destroyed: destroyed@ };
        match find_entity(world, overlaps[k]) {
            Some(j) => {
                if !destroyed[j] && world[j].projectile.targeting_type.damages(target_is_player) {
                    health.take_damage(world[j].projectile.damage);
                    destroyed.set(j, true);
                }
            },
            None => {},
        }
        assert((Tally { health: *health, destroyed: destroyed@ }) == struck(
            world@,
            target_is_player,
            before,
            overlaps@[k as int],
        ));
        k = k + 1;
    }
}

/// Resolves one tick's collisions.
///
/// Every target's health ends as its hits leave it, and the result says for
/// each projectile of `world`, by position, whether it is to be destroyed.
/// Nothing is removed here: `world` stays as it is until the caller applies
/// the result.
pub fn resolve_collisions(targets: &mut Vec<Damageable>, world: &Vec<ProjectileEntity>) -> (destroyed:
    Vec<bool>)
    ensures
        final(targets)@.len() == old(targets)@.len(),
        forall|t: int|
            0 <= t < old(targets)@.len() ==> {
                &&& (#[trigger] final(targets)@[t]).id == old(targets)@[t].id
                &&& final(targets)@[t].is_player == old(targets)@[t].is_player
                &&& final(targets)@[t].overlaps == old(targets)@[t].overlaps
                &&& final(targets)@[t].health == resolved_tally(world@, old(targets)@, t).health
            },
        destroyed@ == resolved_destroyed(world@, old(targets)@, old(targets)@.len() as int),
{
    let mut destroyed: Vec<bool> = Vec::new();
    let mut j: usize = 0;
    while j < world.len()
        invariant
            j <= world.len(),
            destroyed@.len() == j,
            forall|i: int| 0 <= i < j ==> !destroyed@[i],
        decreases world.len() - j,
    {
        destroyed.push(false);
        j = j + 1;
    }
    assert(destroyed@ =~= resolved_destroyed(world@, old(targets)@, 0));
    let n = targets.len();
    let mut t: usize = 0;
    while t < n
        invariant
            t <= n,
            n == old(targets)@.len(),
            targets@.len() == n,
            destroyed@.len() == world@.len(),
            forall|i: int|
                0 <= i < t ==> {
                    &&& (#[trigger] targets@[i]).id == old(targets)@[i].id
                    &&& targets@[i].is_player == old(targets)@[i].is_player
                    &&& targets@[i].overlaps == old(targets)@[i].overlaps
                    &&& targets@[i].health == resolved_tally(world@, old(targets)@, i).health
                },
            forall|i: int| t <= i < n ==> targets@[i] == old(targets)@[i],
            destroyed@ == resolved_destroyed(world@, old(targets)@, t as int),
        decreases n - t,
    {
        let is_player = targets[t].is_player;
        let mut health = targets[t].health;
        resolve_target(world, is_player, &mut health, &targets[t].overlaps, &mut destroyed);
        targets[t].health = health;
        t = t + 1;
    }
    destroyed
}


/// A projectile that an earlier hit has spent is ignored: reported again,
/// for the same target or another, it does no damage and nothing changes.
pub proof fn lemma_spent_projectile_is_ignored(
    world: Seq<ProjectileEntity>,
    target_is_player: bool,
    tally: Tally,
    id: u64,
)
    requires
        position_of(world, id) matches Some(j) && tally.destroyed[j],
    ensures
        struck(world, target_is_player, tally, id) == tally,
{
}

/// Resolving a target never takes a mark back, and it changes the target's
/// health only by spending a projectile that was in play: where no new mark
/// is set, the health is what it was.
pub proof fn lemma_damage_spends_projectile(
    world: Seq<ProjectileEntity>,
    target_is_player: bool,
    tally: Tally,
    overlaps: Seq<u64>,
    upto: int,
)
    requires
        tally.destroyed.len() == world.len(),
        upto <= overlaps.len(),
    ensures
        ({
            let after = struck_all(world, target_is_player, tally, overlaps, upto);
            &&& after.destroyed.len() == world.len()
            &&& forall|j: int| 0 <= j < world.len() && tally.destroyed[j] ==> after.destroyed[j]
            &&& after.destroyed == tally.destroyed ==> after.health == tally.health
        }),
    decreases upto,
{
    if upto > 0 {
        lemma_damage_spends_projectile(world, target_is_player, tally, overlaps, upto - 1);
        let mid = struck_all(world, target_is_player, tally, overlaps, upto - 1);
        let after = struck(world, target_is_player, mid, overlaps[upto - 1]);
        if counts(world, target_is_player, mid.destroyed, overlaps[upto - 1]) {
            let j = position_of(world, overlaps[upto - 1])->0;
            lemma_position_is_in_range(world, overlaps[upto - 1]);
            assert(!mid.destroyed[j]);
            assert(after.destroyed[j]);
            assert(!tally.destroyed[j]);
        }
    }
}

/// A target that overlaps nothing but projectiles that are spent already, or
/// that do not damage its side, or entities that are no projectiles, keeps
/// its health, and no mark changes.
pub proof fn lemma_spent_projectiles_do_no_damage(
    world: Seq<ProjectileEntity>,
    target_is_player: bool,
    tally: Tally,
    overlaps: Seq<u64>,
    upto: int,
)
    requires
        upto <= overlaps.len(),
        forall|k: int|
            0 <= k < upto ==> !counts(world, target_is_player, tally.destroyed, #[trigger] overlaps[k]),
    ensures
        struck_all(world, target_is_player, tally, overlaps, upto) == tally,
    decreases upto,
{
    if upto > 0 {
        lemma_spent_projectiles_do_no_damage(world, target_is_player, tally, overlaps, upto - 1);
    }
}

/// Marks only ever accumulate from target to target: a projectile marked
/// once the first `upto` targets are resolved is still marked after any
/// further targets.
pub proof fn lemma_marks_are_kept(
    world: Seq<ProjectileEntity>,
    targets: Seq<Damageable>,
    upto: int,
    later: int,
)
    requires
        0 <= upto <= later <= targets.len(),
    ensures
        resolved_destroyed(world, targets, upto).len() == world.len(),
        resolved_destroyed(world, targets, later).len() == world.len(),
        forall|j: int|
            0 <= j < world.len() && resolved_destroyed(world, targets, upto)[j]
                ==> resolved_destroyed(world, targets, later)[j],
    decreases later,
{
    if upto == later {
        lemma_marks_have_length(world, targets, upto);
    } else {
        lemma_marks_are_kept(world, targets, upto, later - 1);
        lemma_damage_spends_projectile(
            world,
            targets[later - 1].is_player,
            Tally {
                health: targets[later - 1].health,
                destroyed: resolved_destroyed(world, targets, later - 1),
            },
            targets[later - 1].overlaps@,
            targets[later - 1].overlaps@.len() as int,
        );
    }
}

/// There is one mark per projectile, however many targets are resolved.
pub proof fn lemma_marks_have_length(world: Seq<ProjectileEntity>, targets: Seq<Damageable>, upto: int)
    requires
        upto <= targets.len(),
    ensures
        resolved_destroyed(world, targets, upto).len() == world.len(),
    decreases upto,
{
    if upto > 0 {
        lemma_marks_have_length(world, targets, upto - 1);
        lemma_damage_spends_projectile(
            world,
            targets[upto - 1].is_player,
            Tally {
                health: targets[upto - 1].health,
                destroyed: resolved_destroyed(world, targets, upto - 1),
            },
            targets[upto - 1].overlaps@,
            targets[upto - 1].overlaps@.len() as int,
        );
    }
}

} // verus!
