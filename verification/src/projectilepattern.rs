//! Spawn formations: a batch of projectiles laid out by a geometric rule.

use crate::projectile::{PState, Projectile, ProjectileTargetingType};
use crate::stateful::{
    config_error, copy_states, Sequencer, SequencerError, StateRepeat, Stateful,
};
use crate::units::{
    div_toward_zero, lemma_exact_division, lemma_normalize_absorbs, normalize, normalize_angle,
    FULL_TURN,
};
use vstd::prelude::*;

verus! {

/// Damage of every projectile that a pattern spawns.
pub const PATTERN_DAMAGE: i32 = 1;

/// A radial formation: `amount` projectiles fanned out evenly over the
/// angle `max_deg`, centred on the direction `dir`.
///
/// `dir` is the heading of the aim direction and `max_deg` the spread, both
/// in angle units; headings grow counter-clockwise.
#[derive(Clone, Copy, Debug)]
pub struct CirclePattern {
    pub amount: i32,
    pub dir: i64,
    pub max_deg: i64,
    pub targeting: ProjectileTargetingType,
}

/// One projectile of a spawned batch.
pub struct Spawned {
    /// Heading in `0..FULL_TURN`.
    pub heading: i64,
    pub projectile: Projectile,
    pub stateful: Stateful<PState>,
}

/// Why a pattern spawned nothing.
#[derive(Clone, Copy, PartialEq, Eq, Structural, Debug)]
pub enum PatternError {
    /// The pattern asks for no projectile, or for a negative number of them.
    NoSlots,
    /// The template cannot seed a sequencer.
    Template(SequencerError),
}

impl Default for CirclePattern {
    fn default() -> (p: CirclePattern)
        ensures
            p.amount == 0,
            p.max_deg == FULL_TURN,
            p.dir == 0,
            p.targeting == ProjectileTargetingType::ENVIRONMENT,
    {
        CirclePattern {
            amount: 0,
            max_deg: FULL_TURN,
            dir: 0,
            targeting: ProjectileTargetingType::ENVIRONMENT,
        }
    }
}

impl CirclePattern {
    /// The angle between two neighbouring slots: the spread divided by the
    /// number of slots, rounded toward zero.
    pub open spec fn step_angle(self) -> int {
        div_toward_zero(self.max_deg as int, self.amount as int)
    }

    /// The angle from the aim direction to the first slot: half the spread
    /// to the left, less half a step, so that the formation is centred.
    pub open spec fn first_offset(self) -> int {
        div_toward_zero(self.max_deg as int, 2) - div_toward_zero(self.step_angle(), 2)
    }

    /// The angle from the aim direction to slot `slot`, counted from 0: each
    /// slot lies one step to the right of the one before.
    pub open spec fn slot_offset(self, slot: int) -> int {
        self.first_offset() - slot * self.step_angle()
    }

    /// The heading of slot `slot`, in `0..FULL_TURN`.
    pub open spec fn slot_heading(self, slot: int) -> int {
        normalize_angle(self.dir + self.slot_offset(slot))
    }

    /// The error, if any, that keeps the pattern from spawning with the
    /// given template.
    pub open spec fn spawn_error(self, states: Seq<PState>, state_repeat: StateRepeat) -> Option<
        PatternError,
    > {
        if self.amount <= 0 {
            Some(PatternError::NoSlots)
        } else {
            match config_error(states.len(), 0, state_repeat) {
                Some(e) => Some(PatternError::Template(e)),
                None => None,
            }
        }
    }

    /// Whether `spawned` is what slot `slot` of this pattern holds when
    /// seeded with the given template.
    pub open spec fn fills_slot(
        self,
        states: Seq<PState>,
        state_repeat: StateRepeat,
        slot: int,
        spawned: Spawned,
    ) -> bool {
        &&& spawned.heading == self.slot_heading(slot)
        &&& spawned.projectile == Projectile::initial(PATTERN_DAMAGE, self.targeting, states[0])
        &&& spawned.stateful.well_formed()
        &&& spawned.stateful@ == (Sequencer {
            states,
            current: 0,
            remaining: states[0].duration,
            repeat: state_repeat,
            changed: false,
        })
    }

    /// Lays out the formation and builds its projectiles, one per slot and
    /// in the order of the slots, each with a sequencer of its own that is
    /// seeded from `states` and `state_repeat`.
    ///
    /// The batch comes whole or not at all: a pattern without slots and a
    /// template that cannot seed a sequencer are rejected before anything is
    /// built.
    pub fn spawn(&self, states: &Vec<PState>, state_repeat: StateRepeat) -> (r: Result<
        Vec<Spawned>,
        PatternError,
    >)
        ensures
            match r {
                Ok(batch) => {
                    &&& self.spawn_error(states@, state_repeat) is None
                    &&& batch@.len() == self.amount
                    &&& forall|i: int|
                        0 <= i < batch@.len() ==> self.fills_slot(
                            states@,
                            state_repeat,
                            i,
                            #[trigger] batch@[i],
                        )
                },
                Err(e) => self.spawn_error(states@, state_repeat) == Some(e),
            },
    {
        if self.amount <= 0 {
            return Err(PatternError::NoSlots);
        }
        if states.len() == 0 {
            return Err(PatternError::Template(SequencerError::NoStates));
        }
        if let StateRepeat::FromIndex(k) = state_repeat {
            if k >= states.len() {
                return Err(PatternError::Template(SequencerError::RepeatOutOfRange));
            }
        }
        let step: i64 = self.max_deg / (self.amount as i64);
        let half_spread: i64 = self.max_deg / 2;
        let half_step: i64 = step / 2;
        let mut heading: i64 = normalize(
            self.dir as i128 + half_spread as i128 - half_step as i128,
        );
        let mut batch: Vec<Spawned> = Vec::new();
        let mut i: i32 = 0;
        while i < self.amount
            invariant
                0 <= i <= self.amount,
                step == self.step_angle(),
                states@.len() > 0,
                config_error(states@.len(), 0, state_repeat) is None,
                heading == self.slot_heading(i as int),
                batch@.len() == i,
                forall|j: int|
                    0 <= j < batch@.len() ==> self.fills_slot(
                        states@,
                        state_repeat,
                        j,
                        #[trigger] batch@[j],
                    ),
            decreases self.amount - i,
        {
            let template = copy_states(states);
            match Projectile::from_states(PATTERN_DAMAGE, self.targeting, template, state_repeat) {
                Ok((projectile, stateful)) => {
                    batch.push(Spawned { heading, projectile, stateful });
                },
                Err(e) => {
                    return Err(PatternError::Template(e));
                },
            }
            proof {
                lemma_normalize_absorbs(self.dir + self.slot_offset(i as int), -(step as int));
                assert(self.slot_offset(i + 1) == self.slot_offset(i as int) - step) by (nonlinear_arith)
                    requires
                        self.slot_offset(i + 1) == self.first_offset() - (i + 1) * step,
                        self.slot_offset(i as int) == self.first_offset() - i * step,
                ;
            }
            heading = normalize(heading as i128 - step as i128);
            i = i + 1;
        }
        Ok(batch)
    }
}

/// Neighbouring slots lie one step apart, each to the right of the one
/// before.
pub proof fn lemma_slots_one_step_apart(pattern: CirclePattern, slot: int)
    ensures
        pattern.slot_offset(slot) - pattern.slot_offset(slot + 1) == pattern.step_angle(),
{
    let step = pattern.step_angle();
    assert((slot + 1) * step == slot * step + step) by (nonlinear_arith);
}

/// Where the spread divides evenly into `amount` steps of `2 * half` angle
/// units, the formation is centred on the aim direction: slot `slot` lies
/// `(amount - 1 - 2 * slot) * half` to the left of it, so the slots counted
/// from the two ends mirror each other.
pub proof fn lemma_formation_is_centred(pattern: CirclePattern, half: int, slot: int)
    requires
        pattern.amount > 0,
        pattern.max_deg == 2 * pattern.amount * half,
    ensures
        pattern.step_angle() == 2 * half,
        pattern.slot_offset(slot) == (pattern.amount - 1 - 2 * slot) * half,
        pattern.slot_offset(slot) + pattern.slot_offset(pattern.amount - 1 - slot) == 0,
{
    let n = pattern.amount as int;
    assert(2 * n * half == (2 * half) * n) by (nonlinear_arith);
    lemma_exact_division(pattern.max_deg as int, n, 2 * half);
    assert(2 * n * half == (n * half) * 2) by (nonlinear_arith);
    lemma_exact_division(pattern.max_deg as int, 2, n * half);
    lemma_exact_division(2 * half, 2, half);
    assert(n * half - half - slot * (2 * half) == (n - 1 - 2 * slot) * half) by (nonlinear_arith);
    let mirror = n - 1 - slot;
    assert(n * half - half - mirror * (2 * half) == (n - 1 - 2 * mirror) * half)
        by (nonlinear_arith);
    assert((n - 1 - 2 * slot) * half + (n - 1 - 2 * mirror) * half == 0) by (nonlinear_arith)
        requires
            mirror == n - 1 - slot,
    ;
}

/// A formation with an even number of slots, spread evenly over at most a
/// full turn, has no projectile heading straight along the aim direction.
pub proof fn lemma_even_formation_misses_aim(pattern: CirclePattern, half: int, slot: int)
    requires
        pattern.amount > 0,
        pattern.amount % 2 == 0,
        half > 0,
        pattern.max_deg == 2 * pattern.amount * half,
        pattern.max_deg <= FULL_TURN,
        0 <= slot < pattern.amount,
    ensures
        pattern.slot_heading(slot) != normalize_angle(pattern.dir as int),
{
    lemma_formation_is_centred(pattern, half, slot);
    let n = pattern.amount as int;
    let k = n - 1 - 2 * slot;
    let offset = pattern.slot_offset(slot);
    assert(k != 0);
    assert(-n < k < n);
    assert(offset != 0 && -(n * half) < offset < n * half) by (nonlinear_arith)
        requires
            offset == k * half,
            k != 0,
            -n < k < n,
            half > 0,
    ;
    assert(2 * n * half == 2 * (n * half)) by (nonlinear_arith);
    let m = FULL_TURN as int;
    if pattern.slot_heading(slot) == normalize_angle(pattern.dir as int) {
        vstd::arithmetic::div_mod::lemma_mod_equivalence(pattern.dir + offset, pattern.dir as int, m);
        assert(offset % m == 0);
        assert(false);
    }
}

} // verus!
