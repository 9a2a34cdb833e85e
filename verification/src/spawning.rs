//! When new baddies and missiles enter the game.
use vstd::prelude::*;

use crate::timer::{RepeatingTimer, TimerTick};

verus! {

/// Half a second, in nanoseconds: the missile launcher's period.
pub const MISSLE_PERIOD_NANOS: u64 = 500_000_000;

/// The missile launcher's timer.
#[derive(Clone, Copy, Debug)]
pub struct MissleSpawnTimer(pub RepeatingTimer);

impl Default for MissleSpawnTimer {
    /// A launcher that fires every half second, starting now.
    fn default() -> (t: Self)
        ensures
            t.0@.duration == MISSLE_PERIOD_NANOS,
            t.0@.elapsed == 0,
    {
        MissleSpawnTimer(RepeatingTimer::new(MISSLE_PERIOD_NANOS))
    }
}

/// The baddie spawner's timer advances by `delta_nanos`; a baddie is due when the
/// tick completed a period.
pub fn baddie_spawn_due(timer: &mut RepeatingTimer, delta_nanos: u64) -> (due: bool)
    ensures
        final(timer)@ == old(timer).ticked(delta_nanos as nat),
        due == (old(timer).tick_report(delta_nanos as nat).times_finished > 0),
{
    let tick: TimerTick = timer.tick(delta_nanos);
    tick.just_finished()
}

/// The missile launcher only runs while there is a player: without one its timer
/// stands still and nothing is launched; with one the timer advances by
/// `delta_nanos` and a missile is due when the tick completed a period.
pub fn missle_spawn_due(
    timer: &mut MissleSpawnTimer,
    player_present: bool,
    delta_nanos: u64,
) -> (due: bool)
    ensures
        !player_present ==> final(timer).0@ == old(timer).0@ && !due,
        player_present ==> final(timer).0@ == old(timer).0.ticked(delta_nanos as nat),
        player_present ==> due == (old(timer).0.tick_report(delta_nanos as nat).times_finished
            > 0),
{
    if !player_present {
        return false;
    }
    let tick: TimerTick = timer.0.tick(delta_nanos);
    tick.just_finished()
}

} // verus!
