//! Sprite-sheet animation: a sprite shows one frame of a range of atlas
//! indices and moves to the next frame each time its animation timer finishes,
//! going back to the first frame after the last.
use vstd::prelude::*;

use crate::timer::{RepeatingTimer, TimerTick};

verus! {

/// The range of atlas indices, `first..=last`, that an animation cycles through.
#[derive(Clone, Copy, Debug, PartialEq, Eq, Structural)]
pub struct AnimationIndices {
    pub first: usize,
    pub last: usize,
}

impl Default for AnimationIndices {
    fn default() -> (r: Self)
        ensures
            r.first == 0,
            r.last == 0,
    {
        AnimationIndices { first: 0, last: 0 }
    }
}

impl AnimationIndices {
    /// The range is not empty.
    pub open spec fn wf(self) -> bool {
        self.first <= self.last
    }

    /// The index is one of the animation's frames.
    pub open spec fn holds(self, index: int) -> bool {
        self.first <= index <= self.last
    }
}

/// The frame shown after `index`: the next index, or `first` once past `last`.
pub open spec fn step_frame(index: int, first: int, last: int) -> int {
    if index + 1 > last {
        first
    } else {
        index + 1
    }
}

/// The frame shown `n` frame changes after `index`.
pub open spec fn frames_after(index: int, first: int, last: int, n: nat) -> int
    decreases n,
{
    if n == 0 {
        index
    } else {
        step_frame(frames_after(index, first, last, (n - 1) as nat), first, last)
    }
}

/// The atlas index that follows `index` in the animation `indices`.
pub fn next_frame(index: usize, indices: &AnimationIndices) -> (r: usize)
    requires
        index < usize::MAX,
    ensures
        r == step_frame(index as int, indices.first as int, indices.last as int),
        indices.holds(index as int) ==> indices.holds(r as int),
{
    let new_index = index + 1;
    if new_index > indices.last {
        indices.first
    } else {
        new_index
    }
}

proof fn lemma_frames_add(index: int, first: int, last: int, a: nat, b: nat)
    ensures
        frames_after(index, first, last, a + b) == frames_after(
            frames_after(index, first, last, a),
            first,
            last,
            b,
        ),
    decreases b,
{
    if b > 0 {
        lemma_frames_add(index, first, last, a, (b - 1) as nat);
        assert(frames_after(index, first, last, a + b) == step_frame(
            frames_after(index, first, last, (a + b - 1) as nat),
            first,
            last,
        ));
    }
}

proof fn lemma_frames_climb(index: int, first: int, last: int, k: nat)
    requires
        first <= index,
        index + k <= last,
    ensures
        frames_after(index, first, last, k) == index + k,
    decreases k,
{
    if k > 0 {
        lemma_frames_climb(index, first, last, (k - 1) as nat);
    }
}

/// An animation is periodic: from any of its frames, after as many frame
/// changes as it has frames, the sprite shows the same frame again.
pub proof fn lemma_animation_cycles(indices: AnimationIndices, index: int)
    requires
        indices.holds(index),
    ensures
        frames_after(
            index,
            indices.first as int,
            indices.last as int,
            (indices.last - indices.first + 1) as nat,
        ) == index,
{
    let first: int = indices.first as int;
    let last: int = indices.last as int;
    let up: nat = (last - index) as nat;
    let wrap: nat = (up + 1) as nat;
    let rest: nat = (index - first) as nat;
    lemma_frames_climb(index, first, last, up);
    assert(frames_after(index, first, last, wrap) == first);
    lemma_frames_climb(first, first, last, rest);
    lemma_frames_add(index, first, last, wrap, rest);
    assert(wrap + rest == last - first + 1);
}

/// The animation timer of a sprite.
#[derive(Clone, Copy, Debug)]
pub struct AnimationTimer {
    pub timer: RepeatingTimer,
}

impl AnimationTimer {
    /// A timer that changes frames every `frame_nanos` nanoseconds.
    pub fn new(frame_nanos: u64) -> (t: Self)
        ensures
            t.timer@.duration == frame_nanos,
            t.timer@.elapsed == 0,
    {
        AnimationTimer { timer: RepeatingTimer::new(frame_nanos) }
    }
}

/// One animation step of a sprite that shows atlas index `index`: its timer
/// advances by `delta_nanos`; if the timer finished, the sprite moves to the
/// next frame, else it keeps its frame. Returns the atlas index to show.
pub fn animate_sprite(
    timer: &mut AnimationTimer,
    indices: &AnimationIndices,
    index: usize,
    delta_nanos: u64,
) -> (r: usize)
    requires
        old(timer).timer.tick_report(delta_nanos as nat).finished ==> index < usize::MAX,
    ensures
        final(timer).timer@ == old(timer).timer.ticked(delta_nanos as nat),
        r == (if old(timer).timer.tick_report(delta_nanos as nat).finished {
            step_frame(index as int, indices.first as int, indices.last as int)
        } else {
            index as int
        }),
        indices.holds(index as int) ==> indices.holds(r as int),
{
    let tick: TimerTick = timer.timer.tick(delta_nanos);
    if tick.finished {
        next_frame(index, indices)
    } else {
        index
    }
}

/// The player's frames.
#[derive(Clone, Copy, Debug)]
pub struct PlayerAnimationTable {
    pub flying: AnimationIndices,
}

/// A baddie's frames.
#[derive(Clone, Copy, Debug)]
pub struct BaddieAnimationTable {
    pub idle: AnimationIndices,
}

/// A missile's frames.
#[derive(Clone, Copy, Debug)]
pub struct MissleAnimationTable {
    pub flying: AnimationIndices,
}

/// The animations of every kind of sprite in the game.
#[derive(Clone, Copy, Debug)]
pub struct AnimationTables {
    pub player: PlayerAnimationTable,
    pub baddie1: BaddieAnimationTable,
    pub missle: MissleAnimationTable,
}

impl AnimationTables {
    /// The game's animations: the player flies on frames 1 to 5, a baddie idles
    /// on frame 0, a missile flies on frames 1 and 2.
    pub fn new() -> (t: Self)
        ensures
            t.player.flying == (AnimationIndices { first: 1, last: 5 }),
            t.baddie1.idle == (AnimationIndices { first: 0, last: 0 }),
            t.missle.flying == (AnimationIndices { first: 1, last: 2 }),
            t.player.flying.wf(),
            t.baddie1.idle.wf(),
            t.missle.flying.wf(),
    {
        AnimationTables {
            player: PlayerAnimationTable { flying: AnimationIndices { first: 1, last: 5 } },
            baddie1: BaddieAnimationTable { idle: AnimationIndices { first: 0, last: 0 } },
            missle: MissleAnimationTable { flying: AnimationIndices { first: 1, last: 2 } },
        }
    }
}

} // verus!
