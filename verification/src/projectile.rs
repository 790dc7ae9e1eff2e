//! Projectiles: their kinematic state, the sparse overrides that a
//! sequencer feeds them, and the per-tick stages that work on all of them.

use crate::motion::{forward_step, motion_step, turn_step, MotionStep};
use crate::stateful::{
    config_error, Sequencer, SequencerError, State, StateDuration, StateRepeat, Stateful,
    StatefulEvent,
};
use vstd::prelude::*;

verus! {

/// One entry of a projectile's sequence: overrides for the speed and the
/// angular velocity, and how long they last. A field left unset keeps
/// whatever value the projectile has.
#[derive(Clone, Copy, Debug)]
pub struct PState {
    pub angular_velocity: Option<i64>,
    pub speed: Option<i64>,
    pub duration: StateDuration,
}

impl State for PState {
    open spec fn duration(&self) -> StateDuration {
        self.duration
    }

    fn get_duration(&self) -> (d: StateDuration) {
        self.duration
    }
}

/// Which side a projectile is allowed to damage.
#[derive(Clone, Copy, PartialEq, Eq, Structural, Debug)]
pub enum ProjectileTargetingType {
    /// Fired by the player's side: damages everything but the player.
    PLAYER,
    /// Fired by the enemy's side: damages the player only.
    ENEMY,
    /// A neutral hazard: damages both sides.
    ENVIRONMENT,
}

/// The kinematic and combat state of a projectile.
#[derive(Clone, Copy, Debug)]
pub struct Projectile {
    pub damage: i32,
    pub targeting_type: ProjectileTargetingType,
    pub angular_velocity: i64,
    pub speed: i64,
}

/// Speed of a projectile that no state has set the speed of.
pub const DEFAULT_SPEED: i64 = 15_000_000;

/// A projectile as the per-tick stages see it: its entity id, its state and
/// the sequencer that drives it.
pub struct ProjectileEntity {
    pub id: u64,
    pub projectile: Projectile,
    pub stateful: Stateful<PState>,
}

impl Default for Projectile {
    fn default() -> (p: Projectile)
        ensures
            p.damage == 1,
            p.angular_velocity == 0,
            p.speed == DEFAULT_SPEED,
            p.targeting_type == ProjectileTargetingType::ENVIRONMENT,
    {
        Projectile {
            damage: 1,
            angular_velocity: 0,
            speed: DEFAULT_SPEED,
            targeting_type: ProjectileTargetingType::ENVIRONMENT,
        }
    }
}

impl Projectile {
    /// The projectile with the overrides of `state` applied: a field that
    /// `state` sets takes that value, the others stay.
    pub open spec fn with_state(self, state: PState) -> Projectile {
        Projectile {
            damage: self.damage,
            targeting_type: self.targeting_type,
            angular_velocity: match state.angular_velocity {
                Some(w) => w,
                None => self.angular_velocity,
            },
            speed: match state.speed {
                Some(v) => v,
                None => self.speed,
            },
        }
    }

    /// Takes over the speed and the angular velocity that `state` sets.
    pub fn apply_state(&mut self, state: &PState)
        ensures
            *final(self) == old(self).with_state(*state),
    {
        if let Some(v) = state.speed {
            self.speed = v;
        }
        if let Some(w) = state.angular_velocity {
            self.angular_velocity = w;
        }
    }

    /// The projectile that a sequence starting with `first` starts out as:
    /// at rest in rotation and at the default speed, but for what `first` sets.
    pub open spec fn initial(damage: i32, targeting_type: ProjectileTargetingType, first: PState) -> Projectile {
        (Projectile { damage, targeting_type, angular_velocity: 0, speed: DEFAULT_SPEED }).with_state(
            first,
        )
    }

    /// Builds a projectile together with the sequencer that drives it. The
    /// sequencer starts at the first of `states`, and the projectile starts
    /// with that state applied. The list is rejected on the conditions on
    /// which `Stateful::from_states` rejects it.
    pub fn from_states(
        damage: i32,
        targeting_type: ProjectileTargetingType,
        states: Vec<PState>,
        state_repeat: StateRepeat,
    ) -> (r: Result<(Projectile, Stateful<PState>), SequencerError>)
        ensures
            match r {
                Ok((projectile, stateful)) => {
                    &&& config_error(states@.len(), 0, state_repeat) is None
                    &&& stateful.well_formed()
                    &&& stateful@ == (Sequencer {
                        states: states@,
                        current: 0,
                        remaining: states@[0].duration,
                        repeat: state_repeat,
                        changed: false,
                    })
                    &&& projectile == Projectile::initial(damage, targeting_type, states@[0])
                },
                Err(e) => config_error(states@.len(), 0, state_repeat) == Some(e),
            },
    {
        match Stateful::from_states(states, state_repeat) {
            Ok(stateful) => {
                let mut projectile = Projectile {
                    damage,
                    targeting_type,
                    angular_velocity: 0,
                    speed: DEFAULT_SPEED,
                };
                let first_state = stateful.get_current();
                projectile.apply_state(&first_state);
                Ok((projectile, stateful))
            },
            Err(e) => Err(e),
        }
    }
}

impl ProjectileEntity {
    /// The sequencer is well-formed.
    pub open spec fn well_formed(self) -> bool {
        self.stateful.well_formed()
    }

    /// What one tick of `dt` does to the projectile's position and heading.
    /// The turn is taken whole while the sequencer's current state is instant.
    pub open spec fn step(self, dt: u64) -> MotionStep {
        MotionStep {
            forward: forward_step(self.projectile.speed, dt),
            turn: turn_step(
                self.projectile.angular_velocity,
                dt,
                self.stateful.state_duration is Instant,
            ),
        }
    }

    /// The entity with `state` applied to its projectile.
    pub open spec fn with_state(self, state: PState) -> ProjectileEntity {
        ProjectileEntity {
            id: self.id,
            projectile: self.projectile.with_state(state),
            stateful: self.stateful,
        }
    }
}

/// The events that one tick raises over `world`, looking at its first `upto`
/// entities: for each sequencer that moves, in order, the state moved to,
/// stamped with the entity's id.
pub open spec fn raised_events(world: Seq<ProjectileEntity>, upto: int) -> Seq<StatefulEvent<PState>>
    decreases upto,
{
    if upto <= 0 {
        Seq::empty()
    } else {
        let earlier = raised_events(world, upto - 1);
        match world[upto - 1].stateful@.emitted() {
            Some(state) => earlier.push(StatefulEvent { entity_id: world[upto - 1].id, state }),
            None => earlier,
        }
    }
}

/// The first position in `world` of the entity with the given id.
pub open spec fn position_of(world: Seq<ProjectileEntity>, id: u64) -> Option<int> {
    if exists|i: int| is_first_with_id(world, id, i) {
        Some(choose|i: int| is_first_with_id(world, id, i))
    } else {
        None
    }
}

/// `i` is the first position in `world` that holds an entity with this id.
pub open spec fn is_first_with_id(world: Seq<ProjectileEntity>, id: u64, i: int) -> bool {
    &&& 0 <= i < world.len()
    &&& world[i].id == id
    &&& forall|j: int| 0 <= j < i ==> world[j].id != id
}

/// `world` after one event has reached the entity it names. An event that
/// names no entity of `world` is dropped.
pub open spec fn delivered(world: Seq<ProjectileEntity>, event: StatefulEvent<PState>) -> Seq<
    ProjectileEntity,
> {
    match position_of(world, event.entity_id) {
        Some(i) => world.update(i, world[i].with_state(event.state)),
        None => world,
    }
}

/// `world` after the first `upto` of `events` have been delivered in order.
pub open spec fn delivered_all(
    world: Seq<ProjectileEntity>,
    events: Seq<StatefulEvent<PState>>,
    upto: int,
) -> Seq<ProjectileEntity>
    decreases upto,
{
    if upto <= 0 {
        world
    } else {
        delivered(delivered_all(world, events, upto - 1), events[upto - 1])
    }
}

/// Finds the first entity with the given id.
pub fn find_entity(world: &Vec<ProjectileEntity>, id: u64) -> (found: Option<usize>)
    ensures
        match found {
            Some(i) => position_of(world@, id) == Some(i as int) && is_first_with_id(world@, id, i as int),
            None => position_of(world@, id) is None && forall|j: int|
                0 <= j < world@.len() ==> world@[j].id != id,
        },
{
    let mut i: usize = 0;
    while i < world.len()
        invariant
            i <= world.len(),
            forall|j: int| 0 <= j < i ==> world@[j].id != id,
        decreases world.len() - i,
    {
        if world[i].id == id {
            proof {
                lemma_first_is_unique(world@, id, i as int);
            }
            return Some(i);
        }
        i = i + 1;
    }
    None
}

/// At most one position is the first with a given id.
pub proof fn lemma_first_is_unique(world: Seq<ProjectileEntity>, id: u64, i: int)
    requires
        is_first_with_id(world, id, i),
    ensures
        position_of(world, id) == Some(i),
{
    let c = choose|c: int| is_first_with_id(world, id, c);
    assert(is_first_with_id(world, id, c));
    assert(c == i) by {
        if c < i {
            assert(world[c].id != id);
        } else if i < c {
            assert(world[i].id != id);
        }
    }
}

/// A position that `position_of` gives lies in `world` and holds the id.
pub proof fn lemma_position_is_in_range(world: Seq<ProjectileEntity>, id: u64)
    ensures
        position_of(world, id) matches Some(j) ==> is_first_with_id(world, id, j),
{
    if position_of(world, id) is Some {
        let j = choose|i: int| is_first_with_id(world, id, i);
        assert(is_first_with_id(world, id, j));
    }
}

/// Ticks the sequencer of every projectile once and collects what they
/// announce, each event stamped with the id of the entity it belongs to.
pub fn increment_states(time_delta: u64, world: &mut Vec<ProjectileEntity>) -> (events: Vec<
    StatefulEvent<PState>,
>)
    requires
        forall|i: int| 0 <= i < old(world)@.len() ==> old(world)@[i].well_formed(),
    ensures
        final(world)@.len() == old(world)@.len(),
        forall|i: int|
            0 <= i < old(world)@.len() ==> {
                &&& (#[trigger] final(world)@[i]).well_formed()
                &&& final(world)@[i].id == old(world)@[i].id
                &&& final(world)@[i].projectile == old(world)@[i].projectile
                &&& final(world)@[i].stateful@ == old(world)@[i].stateful@.advance(time_delta)
            },
        events@ == raised_events(old(world)@, old(world)@.len() as int),
{
    let n = world.len();
    let mut events: Vec<StatefulEvent<PState>> = Vec::new();
    let mut i: usize = 0;
    while i < n
        invariant
            i <= n,
            n == old(world)@.len(),
            world@.len() == n,
            forall|j: int| 0 <= j < n ==> old(world)@[j].well_formed(),
            forall|j: int|
                0 <= j < i ==> {
                    &&& (#[trigger] world@[j]).well_formed()
                    &&& world@[j].id == old(world)@[j].id
                    &&& world@[j].projectile == old(world)@[j].projectile
                    &&& world@[j].stateful@ == old(world)@[j].stateful@.advance(time_delta)
                },
            forall|j: int| i <= j < n ==> world@[j] == old(world)@[j],
            events@ == raised_events(old(world)@, i as int),
        decreases n - i,
    {
        let id = world[i].id;
        let event = world[i].stateful.update_state(time_delta);
        match event {
            Some(e) => {
                events.push(StatefulEvent { entity_id: id, state: e.state });
            },
            None => {},
        }
        i = i + 1;
    }
    events
}

/// Delivers every event, in order, to the projectile it names, which takes
/// over what the new state sets. An event whose entity is gone is dropped.
pub fn update_states(events: &Vec<StatefulEvent<PState>>, world: &mut Vec<ProjectileEntity>)
    ensures
        final(world)@ == delivered_all(old(world)@, events@, events@.len() as int),
{
    let mut k: usize = 0;
    while k < events.len()
        invariant
            k <= events.len(),
            world@ == delivered_all(old(world)@, events@, k as int),
        decreases events.len() - k,
    {
        let ghost before = world@;
        match find_entity(world, events[k].entity_id) {
            Some(i) => {
                let state = events[k].state;
                world[i].projectile.apply_state(&state);
                assert(world@ =~= before.update(i as int, before[i as int].with_state(state)));
            },
            None => {},
        }
        k = k + 1;
    }
}

/// Computes what this tick does to the position and the heading of every
/// projectile, in the order of `world`.
pub fn update_projectile_position(time_delta: u64, world: &Vec<ProjectileEntity>) -> (steps: Vec<
    MotionStep,
>)
    ensures
        steps@.len() == world@.len(),
        forall|i: int| 0 <= i < world@.len() ==> steps@[i] == world@[i].step(time_delta),
{
    let mut steps: Vec<MotionStep> = Vec::new();
    let mut i: usize = 0;
    while i < world.len()
        invariant
            i <= world.len(),
            steps@.len() == i,
            forall|j: int| 0 <= j < i ==> steps@[j] == world@[j].step(time_delta),
        decreases world.len() - i,
    {
        let instant = world[i].stateful.state_duration == StateDuration::Instant;
        let step = motion_step(
            world[i].projectile.speed,
            world[i].projectile.angular_velocity,
            instant,
            time_delta,
        );
        steps.push(step);
        i = i + 1;
    }
    steps
}

/// No two entities of `world` share an id.
pub open spec fn distinct_ids(world: Seq<ProjectileEntity>) -> bool {
    forall|i: int, j: int| 0 <= i < j < world.len() ==> world[i].id != world[j].id
}

/// The projectile of `entity` once this tick's change of state, if there is
/// one, has reached it.
pub open spec fn mirrored(entity: ProjectileEntity) -> Projectile {
    match entity.stateful@.emitted() {
        Some(state) => entity.projectile.with_state(state),
        None => entity.projectile,
    }
}

/// Delivery reads no event at or after `upto`.
proof fn lemma_delivery_reads_prefix(
    world: Seq<ProjectileEntity>,
    a: Seq<StatefulEvent<PState>>,
    b: Seq<StatefulEvent<PState>>,
    upto: int,
)
    requires
        upto <= a.len(),
        upto <= b.len(),
        forall|k: int| 0 <= k < upto ==> a[k] == b[k],
    ensures
        delivered_all(world, a, upto) == delivered_all(world, b, upto),
    decreases upto,
{
    if upto > 0 {
        lemma_delivery_reads_prefix(world, a, b, upto - 1);
    }
}

/// Delivery changes projectiles only: every entity keeps its place, its id
/// and its sequencer.
pub proof fn lemma_delivery_keeps_entities(
    world: Seq<ProjectileEntity>,
    events: Seq<StatefulEvent<PState>>,
    upto: int,
)
    requires
        upto <= events.len(),
    ensures
        delivered_all(world, events, upto).len() == world.len(),
        forall|i: int|
            0 <= i < world.len() ==> {
                &&& (#[trigger] delivered_all(world, events, upto)[i]).id == world[i].id
                &&& delivered_all(world, events, upto)[i].stateful == world[i].stateful
            },
    decreases upto,
{
    if upto > 0 {
        lemma_delivery_keeps_entities(world, events, upto - 1);
        lemma_position_is_in_range(delivered_all(world, events, upto - 1), events[upto - 1].entity_id);
    }
}

/// What `lemma_events_mirror_sequencers` says, for the events of the first
/// `upto` entities.
proof fn lemma_events_mirror_first(before: Seq<ProjectileEntity>, ticked: Seq<ProjectileEntity>, upto: int)
    requires
        distinct_ids(before),
        ticked.len() == before.len(),
        forall|i: int|
            0 <= i < before.len() ==> (#[trigger] ticked[i]).id == before[i].id && ticked[i].projectile
                == before[i].projectile,
        0 <= upto <= before.len(),
    ensures
        ({
            let events = raised_events(before, upto);
            let after = delivered_all(ticked, events, events.len() as int);
            &&& after.len() == before.len()
            &&& forall|i: int|
                0 <= i < before.len() ==> {
                    &&& (#[trigger] after[i]).id == ticked[i].id
                    &&& after[i].stateful == ticked[i].stateful
                    &&& after[i].projectile == if i < upto {
                        mirrored(before[i])
                    } else {
                        before[i].projectile
                    }
                }
        }),
    decreases upto,
{
    let events = raised_events(before, upto);
    lemma_delivery_keeps_entities(ticked, events, events.len() as int);
    if upto > 0 {
        lemma_events_mirror_first(before, ticked, upto - 1);
        let earlier = raised_events(before, upto - 1);
        let mid = delivered_all(ticked, earlier, earlier.len() as int);
        match before[upto - 1].stateful@.emitted() {
            Some(state) => {
                let event = StatefulEvent { entity_id: before[upto - 1].id, state };
                assert(events == earlier.push(event));
                lemma_delivery_reads_prefix(ticked, events, earlier, earlier.len() as int);
                assert(delivered_all(ticked, events, events.len() as int) == delivered(mid, event));
                assert(is_first_with_id(mid, event.entity_id, upto - 1));
                lemma_first_is_unique(mid, event.entity_id, upto - 1);
            },
            None => {},
        }
    }
}

/// Ticking the sequencers and then delivering the events they raised leaves
/// every projectile mirroring its sequencer: a projectile whose sequencer
/// moved has the new state applied, the others are as they were. This holds
/// of a world in which no two entities share an id; `ticked` is the world
/// after the tick, in which ids and projectiles are still those of `before`.
pub proof fn lemma_events_mirror_sequencers(
    before: Seq<ProjectileEntity>,
    ticked: Seq<ProjectileEntity>,
)
    requires
        distinct_ids(before),
        ticked.len() == before.len(),
        forall|i: int|
            0 <= i < before.len() ==> (#[trigger] ticked[i]).id == before[i].id && ticked[i].projectile
                == before[i].projectile,
    ensures
        ({
            let events = raised_events(before, before.len() as int);
            let after = delivered_all(ticked, events, events.len() as int);
            &&& after.len() == before.len()
            &&& forall|i: int|
                0 <= i < before.len() ==> {
                    &&& (#[trigger] after[i]).id == before[i].id
                    &&& after[i].stateful == ticked[i].stateful
                    &&& after[i].projectile == mirrored(before[i])
                }
        }),
{
    lemma_events_mirror_first(before, ticked, before.len() as int);
}

} // verus!
