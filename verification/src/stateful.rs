//! A generic timed state sequencer.
//!
//! A sequencer owns an ordered, non-empty list of states, each with a
//! duration, and walks through them one transition per tick at most.

use vstd::prelude::*;

verus! {

/// What a sequencer does once its last state has run out.
#[derive(Clone, Copy, PartialEq, Eq, Structural, Debug)]
pub enum StateRepeat {
    /// The sequencer stays at its last state for good.
    Never,
    /// The sequencer starts over at the first state.
    All,
    /// The sequencer jumps back to the state at the given index.
    FromIndex(usize),
}

/// How long a state lasts, in time units.
#[derive(Clone, Copy, PartialEq, Eq, Structural, Debug)]
pub enum StateDuration {
    /// The state is left on the very next tick, whatever time has passed.
    Instant,
    /// The state is left on the first tick that finds the given time used up.
    Fixed(u64),
    /// Counted down exactly as `Fixed`.
    Stretch(u64),
}

/// Entity id carried by an event that no entity has been attached to yet.
pub const PLACEHOLDER_ENTITY: u64 = 0xffff_ffff_ffff_ffff;

/// Notification that a sequencer has entered `state`.
pub struct StatefulEvent<T: State> {
    pub entity_id: u64,
    pub state: T,
}

/// A state that a sequencer can hold: all the sequencer asks of it is how
/// long it lasts.
pub trait State: Copy {
    /// The duration the state is entered with.
    spec fn duration(&self) -> StateDuration;

    fn get_duration(&self) -> (d: StateDuration)
        ensures
            d == self.duration(),
    ;
}

/// Why a sequencer could not be built.
#[derive(Clone, Copy, PartialEq, Eq, Structural, Debug)]
pub enum SequencerError {
    /// The list of states is empty.
    NoStates,
    /// The current index does not refer to a state of the list.
    CurrentOutOfRange,
    /// `StateRepeat::FromIndex` does not refer to a state of the list.
    RepeatOutOfRange,
}

/// The timed state sequencer.
pub struct Stateful<T: State> {
    /// Index of the active state.
    pub state_current: usize,
    /// Time budget left to the active state.
    pub state_duration: StateDuration,
    pub states: Vec<T>,
    pub state_repeat: StateRepeat,
    /// Whether the most recent `update_state` moved to another state.
    pub state_changed: bool,
}

/// The resumable part of a sequencer: everything but its list of states.
#[derive(Clone, Copy, PartialEq, Eq, Structural, Debug)]
pub struct Snapshot {
    pub state_current: usize,
    pub state_duration: StateDuration,
    pub state_repeat: StateRepeat,
}

/// Mathematical model of a sequencer.
pub struct Sequencer<T> {
    pub states: Seq<T>,
    pub current: int,
    pub remaining: StateDuration,
    pub repeat: StateRepeat,
    pub changed: bool,
}

/// The time budget `remaining` after `dt` more time units, never below zero.
pub open spec fn count_down(remaining: StateDuration, dt: u64) -> StateDuration {
    match remaining {
        StateDuration::Instant => StateDuration::Instant,
        StateDuration::Fixed(t) => StateDuration::Fixed(if dt >= t { 0 } else { (t - dt) as u64 }),
        StateDuration::Stretch(t) => StateDuration::Stretch(if dt >= t { 0 } else { (t - dt) as u64 }),
    }
}

/// Whether a state with this budget left is over: it is instant, or its time is used up.
pub open spec fn is_due(remaining: StateDuration) -> bool {
    match remaining {
        StateDuration::Instant => true,
        StateDuration::Fixed(t) => t == 0,
        StateDuration::Stretch(t) => t == 0,
    }
}

impl<T: State> Sequencer<T> {
    /// The list is not empty and both the current index and the repeat index lie in it.
    pub open spec fn well_formed(self) -> bool {
        &&& self.states.len() > 0
        &&& 0 <= self.current < self.states.len()
        &&& (self.repeat matches StateRepeat::FromIndex(k) ==> k < self.states.len())
    }

    /// The index that follows the current one, or `None` where the sequencer
    /// has come to rest: at the last state of a sequencer that does not repeat.
    pub open spec fn successor(self) -> Option<int> {
        if self.current + 1 == self.states.len() {
            match self.repeat {
                StateRepeat::Never => None,
                StateRepeat::All => Some(0int),
                StateRepeat::FromIndex(k) => Some(k as int),
            }
        } else {
            Some(self.current + 1)
        }
    }

    /// The index a tick moves to, if it moves at all: the successor, once the
    /// active state is due.
    pub open spec fn target(self) -> Option<int> {
        if is_due(self.remaining) {
            self.successor()
        } else {
            None
        }
    }

    /// The sequencer after one tick of `dt` time units.
    pub open spec fn advance(self, dt: u64) -> Self {
        match self.target() {
            Some(next) => Sequencer {
                states: self.states,
                current: next,
                remaining: self.states[next].duration(),
                repeat: self.repeat,
                changed: true,
            },
            None => Sequencer {
                states: self.states,
                current: self.current,
                remaining: if is_due(self.remaining) {
                    self.remaining
                } else {
                    count_down(self.remaining, dt)
                },
                repeat: self.repeat,
                changed: false,
            },
        }
    }

    /// The state that one tick announces: the state moved to, if any.
    pub open spec fn emitted(self) -> Option<T> {
        match self.target() {
            Some(next) => Some(self.states[next]),
            None => None,
        }
    }

    /// The resumable part of the sequencer.
    pub open spec fn snapshot(self) -> Snapshot {
        Snapshot {
            state_current: self.current as usize,
            state_duration: self.remaining,
            state_repeat: self.repeat,
        }
    }

    /// The sequencer over `states` that picks up where `snapshot` was taken.
    /// No tick has happened to it yet, so it reports no change.
    pub open spec fn resume(states: Seq<T>, snapshot: Snapshot) -> Self {
        Sequencer {
            states,
            current: snapshot.state_current as int,
            remaining: snapshot.state_duration,
            repeat: snapshot.state_repeat,
            changed: false,
        }
    }

    /// The sequencer after the ticks `dts`, in order.
    pub open spec fn run(self, dts: Seq<u64>) -> Self
        decreases dts.len(),
    {
        if dts.len() == 0 {
            self
        } else {
            self.run(dts.drop_last()).advance(dts.last())
        }
    }

    /// What the ticks `dts` announce, one entry per tick.
    pub open spec fn events(self, dts: Seq<u64>) -> Seq<Option<T>>
        decreases dts.len(),
    {
        if dts.len() == 0 {
            Seq::empty()
        } else {
            self.events(dts.drop_last()).push(self.run(dts.drop_last()).emitted())
        }
    }
}

impl<T: State> View for Stateful<T> {
    type V = Sequencer<T>;

    open spec fn view(&self) -> Sequencer<T> {
        Sequencer {
            states: self.states@,
            current: self.state_current as int,
            remaining: self.state_duration,
            repeat: self.state_repeat,
            changed: self.state_changed,
        }
    }
}

/// The error, if any, that keeps `(states, current, repeat)` from being a sequencer.
pub open spec fn config_error(len: nat, current: int, repeat: StateRepeat) -> Option<SequencerError> {
    if len == 0 {
        Some(SequencerError::NoStates)
    } else if !(0 <= current < len) {
        Some(SequencerError::CurrentOutOfRange)
    } else if repeat matches StateRepeat::FromIndex(k) && k >= len {
        Some(SequencerError::RepeatOutOfRange)
    } else {
        None
    }
}

/// A copy of a list of states.
pub fn copy_states<T: Copy>(states: &Vec<T>) -> (copy: Vec<T>)
    ensures
        copy@ == states@,
{
    let mut copy: Vec<T> = Vec::new();
    let mut i: usize = 0;
    while i < states.len()
        invariant
            i <= states.len(),
            copy@ == states@.take(i as int),
        decreases states.len() - i,
    {
        copy.push(states[i]);
        assert(states@.take(i as int).push(states@[i as int]) =~= states@.take(i + 1));
        i = i + 1;
    }
    assert(states@.take(states@.len() as int) =~= states@);
    copy
}

impl<T: State> Clone for Stateful<T> {
    /// A sequencer with a list of its own that is in the same state.
    fn clone(&self) -> (copy: Self)
        ensures
            copy@ == self@,
    {
        Stateful {
            state_current: self.state_current,
            state_duration: self.state_duration,
            states: copy_states(&self.states),
            state_repeat: self.state_repeat,
            state_changed: self.state_changed,
        }
    }
}

impl<T: State> Stateful<T> {
    /// The list of states is not empty and both the current index and the
    /// repeat index lie in it.
    pub open spec fn well_formed(&self) -> bool {
        self@.well_formed()
    }

    /// Builds a sequencer that starts at the first of `states`, with that
    /// state's duration. An empty list is rejected, and so is a repeat index
    /// outside the list.
    pub fn from_states(states: Vec<T>, state_repeat: StateRepeat) -> (r: Result<Stateful<T>, SequencerError>)
        ensures
            match r {
                Ok(s) => {
                    &&& config_error(states@.len(), 0, state_repeat) is None
                    &&& s.well_formed()
                    &&& s@ == (Sequencer {
                        states: states@,
                        current: 0,
                        remaining: states@[0].duration(),
                        repeat: state_repeat,
                        changed: false,
                    })
                },
                Err(e) => config_error(states@.len(), 0, state_repeat) == Some(e),
            },
    {
        if states.len() == 0 {
            return Err(SequencerError::NoStates);
        }
        if let StateRepeat::FromIndex(k) = state_repeat {
            if k >= states.len() {
                return Err(SequencerError::RepeatOutOfRange);
            }
        }
        let state_duration = states[0].get_duration();
        Ok(Stateful { state_current: 0, state_duration, state_repeat, states, state_changed: false })
    }

    /// The index, the time left and the repeat policy, for storing away.
    pub fn snapshot(&self) -> (snapshot: Snapshot)
        ensures
            snapshot == self@.snapshot(),
    {
        Snapshot {
            state_current: self.state_current,
            state_duration: self.state_duration,
            state_repeat: self.state_repeat,
        }
    }

    /// Rebuilds a sequencer over `states` from a stored snapshot. The snapshot
    /// is rejected if the list is empty or one of its indices lies outside it.
    pub fn restore(states: Vec<T>, snapshot: Snapshot) -> (r: Result<Stateful<T>, SequencerError>)
        ensures
            match r {
                Ok(s) => {
                    &&& config_error(
                        states@.len(),
                        snapshot.state_current as int,
                        snapshot.state_repeat,
                    ) is None
                    &&& s.well_formed()
                    &&& s@ == Sequencer::resume(states@, snapshot)
                },
                Err(e) => config_error(
                    states@.len(),
                    snapshot.state_current as int,
                    snapshot.state_repeat,
                ) == Some(e),
            },
    {
        if states.len() == 0 {
            return Err(SequencerError::NoStates);
        }
        if snapshot.state_current >= states.len() {
            return Err(SequencerError::CurrentOutOfRange);
        }
        if let StateRepeat::FromIndex(k) = snapshot.state_repeat {
            if k >= states.len() {
                return Err(SequencerError::RepeatOutOfRange);
            }
        }
        Ok(
            Stateful {
                state_current: snapshot.state_current,
                state_duration: snapshot.state_duration,
                state_repeat: snapshot.state_repeat,
                states,
                state_changed: false,
            },
        )
    }

    /// Moves to the successor state if there is one, and announces it.
    fn increment_state(&mut self) -> (event: Option<StatefulEvent<T>>)
        requires
            old(self).well_formed(),
        ensures
            final(self).well_formed(),
            final(self).states@ == old(self).states@,
            final(self).state_repeat == old(self).state_repeat,
            match old(self)@.successor() {
                Some(next) => {
                    &&& final(self).state_current == next
                    &&& final(self).state_duration == old(self).states@[next].duration()
                    &&& final(self).state_changed
                    &&& event == Some(
                        StatefulEvent { entity_id: PLACEHOLDER_ENTITY, state: old(self).states@[next] },
                    )
                },
                None => {
                    &&& final(self).state_current == old(self).state_current
                    &&& final(self).state_duration == old(self).state_duration
                    &&& !final(self).state_changed
                    &&& event is None
                },
            },
    {
        assert(self.state_current < self.states.len());
        if self.state_current + 1 == self.states.len() {
            match self.state_repeat {
                StateRepeat::All => {
                    self.state_current = 0;
                },
                StateRepeat::FromIndex(index) => {
                    self.state_current = index;
                },
                StateRepeat::Never => {
                    self.state_changed = false;
                    return None;
                },
            }
        } else {
            self.state_current = self.state_current + 1;
        }
        let state = self.states[self.state_current];
        self.state_duration = state.get_duration();
        self.state_changed = true;
        Some(StatefulEvent { entity_id: PLACEHOLDER_ENTITY, state })
    }

    /// One tick of `time_delta` time units.
    ///
    /// An instant state, or one whose time is used up, is left for its
    /// successor, and the new state is announced; at most one such move
    /// happens per tick. Otherwise the time left is counted down by
    /// `time_delta`, stopping at zero, and nothing is announced.
    pub fn update_state(&mut self, time_delta: u64) -> (event: Option<StatefulEvent<T>>)
        requires
            old(self).well_formed(),
        ensures
            final(self).well_formed(),
            final(self)@ == old(self)@.advance(time_delta),
            match old(self)@.emitted() {
                Some(state) => event == Some(StatefulEvent { entity_id: PLACEHOLDER_ENTITY, state }),
                None => event is None,
            },
    {
        match self.state_duration {
            StateDuration::Instant => self.increment_state(),
            StateDuration::Fixed(time_left) => {
                if time_left == 0 {
                    self.increment_state()
                } else {
                    let rest: u64 = if time_delta >= time_left { 0 } else { time_left - time_delta };
                    self.state_duration = StateDuration::Fixed(rest);
                    self.state_changed = false;
                    None
                }
            },
            StateDuration::Stretch(time_left) => {
                if time_left == 0 {
                    self.increment_state()
                } else {
                    let rest: u64 = if time_delta >= time_left { 0 } else { time_left - time_delta };
                    self.state_duration = StateDuration::Stretch(rest);
                    self.state_changed = false;
                    None
                }
            },
        }
    }

    /// Tests whether the sequencer is well-formed: its list is not empty and
    /// its current index and its repeat index lie in the list.
    pub fn is_well_formed(&self) -> (ok: bool)
        ensures
            ok == self.well_formed(),
    {
        if self.states.len() == 0 || self.state_current >= self.states.len() {
            return false;
        }
        match self.state_repeat {
            StateRepeat::FromIndex(k) => k < self.states.len(),
            _ => true,
        }
    }

    /// The active state.
    pub fn get_current(&self) -> (state: T)
        requires
            self.well_formed(),
        ensures
            state == self@.states[self@.current],
    {
        self.states[self.state_current]
    }

    /// Whether the most recent `update_state` moved to another state.
    pub fn changed_this_tick(&self) -> (changed: bool)
        ensures
            changed == self@.changed,
    {
        self.state_changed
    }
}

} // verus!
