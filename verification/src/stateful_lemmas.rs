//! What holds of a sequencer over any number of ticks.

use crate::stateful::{Sequencer, State, StateDuration, StateRepeat};
use vstd::arithmetic::div_mod::{lemma_fundamental_div_mod, lemma_fundamental_div_mod_converse, lemma_small_mod};
use vstd::prelude::*;

verus! {

/// The time that the ticks `dts` add up to.
pub open spec fn total(dts: Seq<u64>) -> int
    decreases dts.len(),
{
    if dts.len() == 0 {
        0
    } else {
        total(dts.drop_last()) + dts.last()
    }
}

/// How many of the ticks `dts` move `s` to another state.
pub open spec fn moves<T: State>(s: Sequencer<T>, dts: Seq<u64>) -> int
    decreases dts.len(),
{
    if dts.len() == 0 {
        0
    } else {
        moves(s, dts.drop_last()) + if s.run(dts.drop_last()).target() is Some {
            1int
        } else {
            0int
        }
    }
}

/// The index reached from `start` by `n` moves in a list of `len` states
/// that repeats from index `k`: straight up to the end of the list, then
/// round and round through `k..len`.
pub open spec fn index_after(len: int, k: int, start: int, n: int) -> int {
    if start + n < len {
        start + n
    } else {
        k + (start + n - len) % (len - k)
    }
}

/// The time left of a budget `d` once `spent` has passed.
pub open spec fn left_of(d: u64, spent: int) -> u64 {
    if spent >= d {
        0
    } else {
        (d - spent) as u64
    }
}

/// Ticks never change the list of states or the repeat policy, keep a
/// well-formed sequencer well-formed, and announce one entry per tick.
pub proof fn lemma_run_keeps_shape<T: State>(s: Sequencer<T>, dts: Seq<u64>)
    requires
        s.well_formed(),
    ensures
        s.run(dts).well_formed(),
        s.run(dts).states == s.states,
        s.run(dts).repeat == s.repeat,
        s.events(dts).len() == dts.len(),
        0 <= moves(s, dts) <= dts.len(),
    decreases dts.len(),
{
    if dts.len() > 0 {
        lemma_run_keeps_shape(s, dts.drop_last());
    }
}

/// A tick announces a state exactly when it moves, and then it announces the
/// state moved to.
pub proof fn lemma_event_is_new_state<T: State>(s: Sequencer<T>, dt: u64)
    requires
        s.well_formed(),
    ensures
        s.emitted() is Some <==> s.advance(dt).changed,
        s.emitted() is Some ==> s.emitted() == Some(s.advance(dt).states[s.advance(dt).current]),
        s.emitted() is None ==> s.advance(dt).current == s.current,
{
}

/// A sequencer that does not repeat and has reached its last state stays
/// there: however many ticks follow, the index and the active state are the
/// same and no tick announces anything.
pub proof fn lemma_last_state_is_final<T: State>(s: Sequencer<T>, dts: Seq<u64>)
    requires
        s.well_formed(),
        s.repeat == StateRepeat::Never,
        s.current + 1 == s.states.len(),
    ensures
        s.run(dts).current == s.current,
        s.run(dts).states[s.run(dts).current] == s.states[s.current],
        !s.run(dts).changed || dts.len() == 0,
        s.events(dts).len() == dts.len(),
        forall|i: int| 0 <= i < dts.len() ==> s.events(dts)[i] is None,
    decreases dts.len(),
{
    lemma_run_keeps_shape(s, dts);
    if dts.len() > 0 {
        lemma_last_state_is_final(s, dts.drop_last());
        lemma_run_keeps_shape(s, dts.drop_last());
    }
}

/// With `FromIndex(k)`, a sequencer that is at or past index `k` never goes
/// back below it.
pub proof fn lemma_cycle_is_closed<T: State>(s: Sequencer<T>, k: usize, dts: Seq<u64>)
    requires
        s.well_formed(),
        s.repeat == StateRepeat::FromIndex(k),
        k <= s.current,
    ensures
        k <= s.run(dts).current < s.states.len(),
    decreases dts.len(),
{
    lemma_run_keeps_shape(s, dts);
    if dts.len() > 0 {
        lemma_cycle_is_closed(s, k, dts.drop_last());
        lemma_run_keeps_shape(s, dts.drop_last());
    }
}

/// One more move leads from `index_after(.., n)` to its successor: the next
/// index, or `k` from the last one.
proof fn lemma_index_after_step(len: int, k: int, start: int, n: int)
    requires
        0 <= k < len,
        0 <= start < len,
        0 <= n,
    ensures
        0 <= index_after(len, k, start, n) < len,
        index_after(len, k, start, n + 1) == if index_after(len, k, start, n) + 1 == len {
            k
        } else {
            index_after(len, k, start, n) + 1
        },
{
    let p = len - k;
    if start + n + 1 < len {
    } else if start + n + 1 == len {
        lemma_small_mod(0, p as nat);
    } else {
        let m = start + n - len;
        lemma_fundamental_div_mod(m, p);
        assert(0 <= m % p < p);
        if m % p + 1 == p {
            assert(m + 1 == (m / p + 1) * p + 0) by (nonlinear_arith)
                requires
                    m == p * (m / p) + m % p,
                    m % p + 1 == p,
            ;
            lemma_fundamental_div_mod_converse(m + 1, p, m / p + 1, 0);
        } else {
            assert(m + 1 == (m / p) * p + (m % p + 1)) by (nonlinear_arith)
                requires
                    m == p * (m / p) + m % p,
            ;
            lemma_fundamental_div_mod_converse(m + 1, p, m / p, m % p + 1);
        }
    }
}

/// With `FromIndex(k)` the index depends only on where the sequencer
/// started and on how many ticks moved it: it climbs to the last state and
/// from then on goes round through `k, k + 1, .., len - 1, k, ..` for ever.
pub proof fn lemma_cycle_position<T: State>(s: Sequencer<T>, k: usize, dts: Seq<u64>)
    requires
        s.well_formed(),
        s.repeat == StateRepeat::FromIndex(k),
    ensures
        s.run(dts).current == index_after(s.states.len() as int, k as int, s.current, moves(s, dts)),
    decreases dts.len(),
{
    let len = s.states.len() as int;
    if dts.len() == 0 {
    } else {
        let before = dts.drop_last();
        lemma_cycle_position(s, k, before);
        lemma_run_keeps_shape(s, before);
        lemma_index_after_step(len, k as int, s.current, moves(s, before));
    }
}

/// A state left with the time budget `d` (fixed or stretched) holds as long
/// as the ticks before the one at hand add up to less than `d`: none of the
/// ticks `dts` moves or announces anything, and the time left is `d` less
/// what has passed. The tick after `dts` leaves the state exactly if by then
/// `d` or more has passed.
pub proof fn lemma_timed_state_holds_until_due<T: State>(s: Sequencer<T>, d: u64, dts: Seq<u64>)
    requires
        s.well_formed(),
        s.remaining == StateDuration::Fixed(d) || s.remaining == StateDuration::Stretch(d),
        dts.len() > 0 ==> total(dts.drop_last()) < d,
    ensures
        0 <= total(dts),
        s.run(dts).current == s.current,
        s.remaining is Fixed ==> s.run(dts).remaining == StateDuration::Fixed(left_of(d, total(dts))),
        s.remaining is Stretch ==> s.run(dts).remaining == StateDuration::Stretch(
            left_of(d, total(dts)),
        ),
        forall|i: int| 0 <= i < dts.len() ==> s.events(dts)[i] is None,
        moves(s, dts) == 0,
        total(dts) < d ==> s.run(dts).target() is None,
        total(dts) >= d ==> s.run(dts).target() == s.successor(),
    decreases dts.len(),
{
    lemma_run_keeps_shape(s, dts);
    if dts.len() > 0 {
        let before = dts.drop_last();
        if before.len() > 0 {
            lemma_total_grows(before);
        }
        lemma_timed_state_holds_until_due(s, d, before);
        lemma_run_keeps_shape(s, before);
    }
}

/// Time only adds up: a run of ticks takes at least as long as the same run
/// without its last tick, and no run takes less than no time.
pub proof fn lemma_total_grows(dts: Seq<u64>)
    ensures
        0 <= total(dts),
        dts.len() > 0 ==> total(dts.drop_last()) <= total(dts),
    decreases dts.len(),
{
    if dts.len() > 0 {
        lemma_total_grows(dts.drop_last());
    }
}

/// An instant state is left by the very next tick, whatever its length, for
/// its successor, which the tick announces. The one instant state that is
/// not left is the last state of a sequencer that does not repeat.
pub proof fn lemma_instant_state_leaves_at_once<T: State>(s: Sequencer<T>, dt: u64)
    requires
        s.well_formed(),
        s.remaining is Instant,
        !(s.repeat == StateRepeat::Never && s.current + 1 == s.states.len()),
    ensures
        s.successor() is Some,
        s.advance(dt).current == s.successor()->0,
        s.advance(dt).changed,
        s.advance(dt).remaining == s.states[s.successor()->0].duration(),
        s.emitted() == Some(s.states[s.successor()->0]),
{
}

/// A sequencer rebuilt from its snapshot goes on exactly as the one the
/// snapshot was taken of: the same ticks announce the same states and lead to
/// the same index, time left and repeat policy.
pub proof fn lemma_resume_continues_run<T: State>(s: Sequencer<T>, dts: Seq<u64>)
    requires
        s.well_formed(),
        s.current <= usize::MAX,
    ensures
        Sequencer::resume(s.states, s.snapshot()).well_formed(),
        Sequencer::resume(s.states, s.snapshot()).events(dts) == s.events(dts),
        Sequencer::resume(s.states, s.snapshot()).run(dts).snapshot() == s.run(dts).snapshot(),
        Sequencer::resume(s.states, s.snapshot()).run(dts).states == s.run(dts).states,
        dts.len() > 0 ==> Sequencer::resume(s.states, s.snapshot()).run(dts) == s.run(dts),
    decreases dts.len(),
{
    let r = Sequencer::resume(s.states, s.snapshot());
    if dts.len() > 0 {
        let before = dts.drop_last();
        lemma_resume_continues_run(s, before);
        lemma_run_keeps_shape(s, before);
        lemma_run_keeps_shape(r, before);
        let a = s.run(before);
        let b = r.run(before);
        assert(a.current == b.current) by {
            assert(a.snapshot().state_current == b.snapshot().state_current);
        }
        assert(a.remaining == b.remaining);
        assert(a.repeat == b.repeat);
        assert(a.target() == b.target());
        assert(a.advance(dts.last()) == b.advance(dts.last()));
    }
}

} // verus!
