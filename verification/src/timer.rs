//! Repeating timers measured in whole nanoseconds.
//!
//! The game drives its animations and spawners with repeating timers. The
//! state of such a timer is kept here as plain numbers (its period and the time
//! that has elapsed in the current period); advancing it is done by bevy's own
//! `Timer`, rebuilt from those numbers for each tick.
use vstd::prelude::*;

use bevy::time::{Timer, TimerMode};
use std::time::Duration;

verus! {

/// The modulus of bevy's `u32` count of periods completed in one tick.
pub open spec fn count_modulus() -> nat {
    0x1_0000_0000
}

/// Elapsed time in the current period after `delta` more nanoseconds.
pub open spec fn ticked_elapsed(duration: nat, elapsed: nat, delta: nat) -> nat {
    if duration == 0 {
        0
    } else {
        (((elapsed + delta) as int) % (duration as int)) as nat
    }
}

/// Number of periods that a tick of `delta` nanoseconds completes, as bevy
/// reports it (a `u32`, so taken modulo 2^32; `u32::MAX` for a zero period).
pub open spec fn ticked_count(duration: nat, elapsed: nat, delta: nat) -> nat {
    if duration == 0 {
        0xffff_ffff
    } else {
        ((((elapsed + delta) as int) / (duration as int)) % (count_modulus() as int)) as nat
    }
}

/// Whether the period was reached during the tick.
pub open spec fn ticked_finished(duration: nat, elapsed: nat, delta: nat) -> bool {
    elapsed + delta >= duration
}

/// Ticks a repeating bevy `Timer` of period `duration_nanos`, whose elapsed time
/// is `elapsed_nanos`, by `delta_nanos`, and reads back its elapsed time, the
/// number of periods it completed in the tick and whether it finished.
///
/// Trusted: `bevy_time::Timer::new`, `set_elapsed`, `tick`, `elapsed`,
/// `times_finished_this_tick` and `finished`. The contract restates what the
/// source of `Timer::tick` (bevy_time 0.13) does for an unpaused repeating timer:
/// the stopwatch adds `delta`; `finished` is `elapsed >= duration`; when finished,
/// the count is `elapsed / duration` cast to `u32` (or `u32::MAX` for a zero
/// duration) and the elapsed time becomes `elapsed % duration` (zero for a zero
/// duration); otherwise the count is zero and the elapsed time stays.
#[verifier::external_body]
fn bevy_repeating_tick(duration_nanos: u64, elapsed_nanos: u64, delta_nanos: u64) -> (r: (
    u64,
    u32,
    bool,
))
    ensures
        r.0 == ticked_elapsed(duration_nanos as nat, elapsed_nanos as nat, delta_nanos as nat),
        r.1 == ticked_count(duration_nanos as nat, elapsed_nanos as nat, delta_nanos as nat),
        r.2 == ticked_finished(duration_nanos as nat, elapsed_nanos as nat, delta_nanos as nat),
{
    let mut timer = Timer::new(Duration::from_nanos(duration_nanos), TimerMode::Repeating);
    timer.set_elapsed(Duration::from_nanos(elapsed_nanos));
    timer.tick(Duration::from_nanos(delta_nanos));
    (timer.elapsed().as_nanos() as u64, timer.times_finished_this_tick(), timer.finished())
}

/// The abstract state of a repeating timer: its period and the time elapsed in
/// the current period, both in nanoseconds.
pub struct TimerState {
    pub duration: nat,
    pub elapsed: nat,
}

/// What one tick of a repeating timer reports.
#[derive(Clone, Copy, Debug, PartialEq, Eq, Structural)]
pub struct TimerTick {
    /// The period was reached during the tick.
    pub finished: bool,
    /// How many periods the tick completed (bevy's `u32` count).
    pub times_finished: u32,
}

impl TimerTick {
    /// True when the tick completed at least one period.
    pub fn just_finished(&self) -> (r: bool)
        ensures
            r == (self.times_finished > 0),
    {
        self.times_finished > 0
    }
}

/// A repeating timer.
#[derive(Clone, Copy, Debug)]
pub struct RepeatingTimer {
    duration_nanos: u64,
    elapsed_nanos: u64,
}

impl View for RepeatingTimer {
    type V = TimerState;

    closed spec fn view(&self) -> TimerState {
        TimerState { duration: self.duration_nanos as nat, elapsed: self.elapsed_nanos as nat }
    }
}

impl RepeatingTimer {
    /// The state after a tick of `delta` nanoseconds.
    pub open spec fn ticked(self, delta: nat) -> TimerState {
        TimerState {
            duration: self@.duration,
            elapsed: ticked_elapsed(self@.duration, self@.elapsed, delta),
        }
    }

    /// What a tick of `delta` nanoseconds reports.
    pub open spec fn tick_report(self, delta: nat) -> TimerTick {
        TimerTick {
            finished: ticked_finished(self@.duration, self@.elapsed, delta),
            times_finished: ticked_count(self@.duration, self@.elapsed, delta) as u32,
        }
    }

    /// A fresh timer with a period of `duration_nanos` and nothing elapsed.
    pub fn new(duration_nanos: u64) -> (t: Self)
        ensures
            t@.duration == duration_nanos,
            t@.elapsed == 0,
    {
        RepeatingTimer { duration_nanos, elapsed_nanos: 0 }
    }

    /// The period in nanoseconds.
    pub fn duration_nanos(&self) -> (d: u64)
        ensures
            d == self@.duration,
    {
        self.duration_nanos
    }

    /// The time elapsed in the current period, in nanoseconds.
    pub fn elapsed_nanos(&self) -> (e: u64)
        ensures
            e == self@.elapsed,
    {
        self.elapsed_nanos
    }

    /// Advances the timer by `delta_nanos`, wrapping around at the end of each
    /// period, and reports what happened.
    pub fn tick(&mut self, delta_nanos: u64) -> (r: TimerTick)
        ensures
            final(self)@ == old(self).ticked(delta_nanos as nat),
            r == old(self).tick_report(delta_nanos as nat),
    {
        let (elapsed, times, finished) = bevy_repeating_tick(
            self.duration_nanos,
            self.elapsed_nanos,
            delta_nanos,
        );
        self.elapsed_nanos = elapsed;
        TimerTick { finished, times_finished: times }
    }
}

/// Repeating timers lose no time: a tick of `delta` turns the elapsed time plus
/// `delta` into whole periods and a remainder shorter than one period, so with a
/// nonzero period the new elapsed time is below the period, and when the number
/// of completed periods fits bevy's `u32` count, periods times count plus the
/// new elapsed time is the old elapsed time plus `delta`.
pub proof fn lemma_tick_conserves_time(duration: nat, elapsed: nat, delta: nat)
    requires
        duration > 0,
    ensures
        ticked_elapsed(duration, elapsed, delta) < duration,
        ((elapsed + delta) as int) / (duration as int) < count_modulus() ==> duration * ticked_count(
            duration,
            elapsed,
            delta,
        ) + ticked_elapsed(duration, elapsed, delta) == elapsed + delta,
        ticked_count(duration, elapsed, delta) > 0 ==> ticked_finished(duration, elapsed, delta),
{
    let x: int = (elapsed + delta) as int;
    let d: int = duration as int;
    vstd::arithmetic::div_mod::lemma_fundamental_div_mod(x, d);
    vstd::arithmetic::div_mod::lemma_mod_pos_bound(x, d);
    vstd::arithmetic::div_mod::lemma_div_pos_is_pos(x, d);
    if x / d < count_modulus() {
        vstd::arithmetic::div_mod::lemma_small_mod((x / d) as nat, count_modulus());
    }
    if x < d {
        vstd::arithmetic::div_mod::lemma_basic_div(x, d);
    }
}

/// Ticking is additive: with a nonzero period, a tick of `d1` followed by a tick
/// of `d2` leaves the same elapsed time as one tick of `d1 + d2`, and the counts
/// of the two ticks add up (modulo bevy's `u32` count) to the count of the one.
pub proof fn lemma_ticks_compose(duration: nat, elapsed: nat, d1: nat, d2: nat)
    requires
        duration > 0,
    ensures
        ticked_elapsed(duration, ticked_elapsed(duration, elapsed, d1), d2) == ticked_elapsed(
            duration,
            elapsed,
            d1 + d2,
        ),
        ((ticked_count(duration, elapsed, d1) + ticked_count(
            duration,
            ticked_elapsed(duration, elapsed, d1),
            d2,
        )) as int) % (count_modulus() as int) == ticked_count(duration, elapsed, d1 + d2),
{
    let d: int = duration as int;
    let m: int = count_modulus() as int;
    let x1: int = (elapsed + d1) as int;
    let q1: int = x1 / d;
    let r1: int = x1 % d;
    let x2: int = r1 + d2;
    let q2: int = x2 / d;
    let r2: int = x2 % d;
    vstd::arithmetic::div_mod::lemma_fundamental_div_mod(x1, d);
    vstd::arithmetic::div_mod::lemma_mod_pos_bound(x1, d);
    vstd::arithmetic::div_mod::lemma_fundamental_div_mod(x2, d);
    vstd::arithmetic::div_mod::lemma_mod_pos_bound(x2, d);
    vstd::arithmetic::div_mod::lemma_div_pos_is_pos(x1, d);
    vstd::arithmetic::div_mod::lemma_div_pos_is_pos(x2, d);
    let x: int = (elapsed + d1 + d2) as int;
    assert(x == d * (q1 + q2) + r2) by {
        vstd::arithmetic::mul::lemma_mul_is_distributive_add(d, q1, q2);
    }
    assert(x == (q1 + q2) * d + r2) by {
        vstd::arithmetic::mul::lemma_mul_is_commutative(d, q1 + q2);
    }
    vstd::arithmetic::div_mod::lemma_fundamental_div_mod_converse(x, d, q1 + q2, r2);
    assert(r1 >= 0);
    assert(ticked_elapsed(duration, elapsed, d1) == r1);
    assert(ticked_elapsed(duration, r1 as nat, d2) == r2);
    assert(ticked_elapsed(duration, elapsed, d1 + d2) == r2);
    vstd::arithmetic::div_mod::lemma_add_mod_noop(q1, q2, m);
    assert(ticked_count(duration, elapsed, d1) == q1 % m);
    assert(ticked_count(duration, r1 as nat, d2) == q2 % m);
    assert(ticked_count(duration, elapsed, d1 + d2) == (q1 + q2) % m);
}

/// What a tick of a repeating timer does, stated over the timer's own period
/// and elapsed time: the period stays; the tick finishes exactly when the
/// elapsed time plus `delta` reaches the period; short of that nothing is
/// counted and the elapsed time simply grows by `delta`; otherwise the new
/// elapsed time is what is left after taking out the completed periods, which
/// is less than one period, and (while the count fits bevy's `u32`) period
/// times count plus the new elapsed time is the old elapsed time plus `delta`.
pub proof fn lemma_tick_follows_period(t: RepeatingTimer, delta: nat)
    requires
        t@.duration > 0,
    ensures
        t.ticked(delta).duration == t@.duration,
        t.tick_report(delta).finished == (t@.elapsed + delta >= t@.duration),
        t@.elapsed + delta < t@.duration ==> t.ticked(delta).elapsed == t@.elapsed + delta
            && t.tick_report(delta).times_finished == 0 && !t.tick_report(delta).finished,
        t.ticked(delta).elapsed < t@.duration,
        t.tick_report(delta).times_finished > 0 ==> t.tick_report(delta).finished,
        ((t@.elapsed + delta) as int) / (t@.duration as int) < 0x1_0000_0000 ==> t@.duration
            * t.tick_report(delta).times_finished + t.ticked(delta).elapsed == t@.elapsed + delta,
{
    let dur: nat = t@.duration;
    let e: nat = t@.elapsed;
    let x: int = (e + delta) as int;
    lemma_tick_conserves_time(dur, e, delta);
    vstd::arithmetic::div_mod::lemma_mod_pos_bound(x / (dur as int), count_modulus() as int);
    let c: nat = ticked_count(dur, e, delta);
    assert(c < 0x1_0000_0000);
    assert(t.tick_report(delta).times_finished == c);
    if x < dur {
        vstd::arithmetic::div_mod::lemma_small_mod(x as nat, dur);
        vstd::arithmetic::div_mod::lemma_basic_div(x, dur as int);
        vstd::arithmetic::div_mod::lemma_small_mod(0, count_modulus());
    }
}

} // verus!
