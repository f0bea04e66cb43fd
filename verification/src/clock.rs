//! The animation clock: a timer that steps a sprite sheet's frame index
//! round and round, once for every full interval of elapsed time.

use vstd::prelude::*;

verus! {

/// Why a clock could not be made.
#[derive(Clone, Copy, Debug, PartialEq, Eq, Structural)]
pub enum ClockError {
    /// The interval between two frames is zero.
    ZeroInterval,
    /// The sheet has no frame left once the reserved ones are set aside.
    NoFrames,
}

/// The mathematical model of a clock. Time is counted in whole units of
/// the caller's choosing.
pub struct ClockState {
    pub elapsed: nat,
    pub interval: nat,
    pub frame_count: nat,
    pub frame_index: nat,
}

impl ClockState {
    /// The frame index lies on the sheet and less than one interval has
    /// gone by since the last step.
    pub open spec fn wf(self) -> bool {
        &&& self.interval > 0
        &&& self.frame_count > 0
        &&& self.frame_index < self.frame_count
        &&& self.elapsed < self.interval
    }

    /// The clock after `delta` more units of time: once a full interval
    /// has gone by, the frame index steps on by one, back to zero after the
    /// last frame, and the time gone by starts again from zero; what went
    /// beyond the interval is dropped.
    pub open spec fn ticked(self, delta: nat) -> ClockState {
        if self.elapsed + delta >= self.interval {
            ClockState {
                elapsed: 0,
                frame_index: (self.frame_index + 1) % self.frame_count,
                ..self
            }
        } else {
            ClockState { elapsed: self.elapsed + delta, ..self }
        }
    }

    /// The clock after `count` ticks of `delta` units each.
    pub open spec fn ticked_evenly(self, delta: nat, count: nat) -> ClockState
        decreases count,
    {
        if count == 0 {
            self
        } else {
            self.ticked_evenly(delta, (count - 1) as nat).ticked(delta)
        }
    }
}

/// The number of frames that a sheet of `total_frames` offers once
/// `reserved_frames` trailing ones are set aside.
pub open spec fn usable_frames(total_frames: nat, reserved_frames: nat) -> int {
    total_frames - reserved_frames
}

/// What making a clock yields.
pub open spec fn clock_from(interval: nat, total_frames: nat, reserved_frames: nat) -> Result<
    ClockState,
    ClockError,
> {
    if interval == 0 {
        Err(ClockError::ZeroInterval)
    } else if usable_frames(total_frames, reserved_frames) <= 0 {
        Err(ClockError::NoFrames)
    } else {
        Ok(
            ClockState {
                elapsed: 0,
                interval,
                frame_count: usable_frames(total_frames, reserved_frames) as nat,
                frame_index: 0,
            },
        )
    }
}

/// The timer of one animated entity.
#[derive(Debug)]
pub struct AnimationClock {
    elapsed: u64,
    interval: u64,
    frame_count: u32,
    frame_index: u32,
}

impl View for AnimationClock {
    type V = ClockState;

    closed spec fn view(&self) -> ClockState {
        ClockState {
            elapsed: self.elapsed as nat,
            interval: self.interval as nat,
            frame_count: self.frame_count as nat,
            frame_index: self.frame_index as nat,
        }
    }
}

impl AnimationClock {
    /// The invariant of every clock that `new` hands out.
    pub open spec fn wf(&self) -> bool {
        self@.wf()
    }

    /// Makes a clock that steps every `interval` units of time through the
    /// frames of a sheet of `total_frames`, of which the last
    /// `reserved_frames` are never shown. It starts at frame zero.
    pub fn new(interval: u64, total_frames: u32, reserved_frames: u32) -> (r: Result<
        AnimationClock,
        ClockError,
    >)
        ensures
            match r {
                Ok(clock) => clock.wf() && clock_from(
                    interval as nat,
                    total_frames as nat,
                    reserved_frames as nat,
                ) == Ok::<ClockState, ClockError>(clock@),
                Err(e) => clock_from(interval as nat, total_frames as nat, reserved_frames as nat)
                    == Err::<ClockState, ClockError>(e),
            },
    {
        if interval == 0 {
            return Err(ClockError::ZeroInterval);
        }
        if total_frames <= reserved_frames {
            return Err(ClockError::NoFrames);
        }
        Ok(
            AnimationClock {
                elapsed: 0,
                interval,
                frame_count: total_frames - reserved_frames,
                frame_index: 0,
            },
        )
    }

    /// The frame to show now.
    pub fn frame_index(&self) -> (index: u32)
        ensures
            index == self@.frame_index,
    {
        self.frame_index
    }

    /// The number of frames that the clock steps through.
    pub fn frame_count(&self) -> (count: u32)
        ensures
            count == self@.frame_count,
    {
        self.frame_count
    }

    /// The time between two steps.
    pub fn interval(&self) -> (interval: u64)
        ensures
            interval == self@.interval,
    {
        self.interval
    }

    /// The time gone by since the last step.
    pub fn elapsed(&self) -> (elapsed: u64)
        ensures
            elapsed == self@.elapsed,
    {
        self.elapsed
    }

    /// Lets `delta` units of time go by. Returns whether the frame index
    /// stepped on.
    pub fn tick(&mut self, delta: u64) -> (stepped: bool)
        requires
            old(self).wf(),
        ensures
            final(self).wf(),
            final(self)@ == old(self)@.ticked(delta as nat),
            stepped == (old(self)@.elapsed + delta >= old(self)@.interval),
    {
        if delta >= self.interval - self.elapsed {
            let next = self.frame_index + 1;
            self.frame_index = if next == self.frame_count {
                0
            } else {
                next
            };
            self.elapsed = 0;
            assert(self.frame_index as int == (old(self).frame_index as int + 1) % (
            self.frame_count as int)) by {
                let index = old(self).frame_index as int;
                let count = self.frame_count as int;
                if index + 1 == count {
                    vstd::arithmetic::div_mod::lemma_mod_self_0(count);
                } else {
                    vstd::arithmetic::div_mod::lemma_small_mod((index + 1) as nat, count as nat);
                }
            }
            true
        } else {
            self.elapsed = self.elapsed + delta;
            false
        }
    }
}

/// Where `count` ticks of `delta` units lead when `delta` divides both the
/// interval and the time already gone by: the ticks taken so far, counted
/// in whole intervals, step the frame index; the rest is the time gone by.
pub open spec fn after_even_ticks(clock: ClockState, delta: nat, count: nat) -> ClockState {
    let per_step = clock.interval / delta;
    let taken = clock.elapsed / delta + count;
    ClockState {
        elapsed: (taken % per_step) * delta,
        frame_index: (clock.frame_index + taken / per_step) % clock.frame_count,
        ..clock
    }
}

/// Whether ticks of `delta` units fall evenly into the clock's intervals.
pub open spec fn ticks_evenly(clock: ClockState, delta: nat) -> bool {
    &&& clock.wf()
    &&& delta > 0
    &&& clock.interval % delta == 0
    &&& clock.elapsed % delta == 0
}

/// With a tick size that divides the interval, a clock steps exactly once
/// per interval: after any number of ticks it stands where the closed form
/// says.
pub proof fn lemma_even_ticks(clock: ClockState, delta: nat, count: nat)
    requires
        ticks_evenly(clock, delta),
    ensures
        clock.ticked_evenly(delta, count) == after_even_ticks(clock, delta, count),
        clock.ticked_evenly(delta, count).wf(),
    decreases count,
{
    let d = delta as int;
    let per_step = (clock.interval / delta) as int;
    let frames = clock.frame_count as int;
    let start = (clock.elapsed / delta) as int;
    vstd::arithmetic::div_mod::lemma_fundamental_div_mod(clock.interval as int, d);
    vstd::arithmetic::div_mod::lemma_fundamental_div_mod(clock.elapsed as int, d);
    assert(0 <= start < per_step) by (nonlinear_arith)
        requires
            d * start < d * per_step,
            0 <= d * start,
            d > 0,
    ;
    if count == 0 {
        vstd::arithmetic::div_mod::lemma_small_mod(start as nat, per_step as nat);
        vstd::arithmetic::div_mod::lemma_basic_div(start, per_step);
        vstd::arithmetic::div_mod::lemma_small_mod(clock.frame_index, clock.frame_count);
        assert(start * d == d * start) by (nonlinear_arith);
    } else {
        let before = (count - 1) as nat;
        lemma_even_ticks(clock, delta, before);
        let taken = start + before;
        let rest = taken % per_step;
        let steps = taken / per_step;
        vstd::arithmetic::div_mod::lemma_fundamental_div_mod(taken, per_step);
        vstd::arithmetic::div_mod::lemma_mod_bound(taken, per_step);
        assert(rest * d + d == (rest + 1) * d) by (nonlinear_arith);
        if rest + 1 >= per_step {
            assert((rest + 1) * d >= per_step * d) by (nonlinear_arith)
                requires
                    rest + 1 >= per_step,
                    d > 0,
            ;
            assert(per_step * d == d * per_step) by (nonlinear_arith);
            assert(taken + 1 == (steps + 1) * per_step + 0) by (nonlinear_arith)
                requires
                    taken == per_step * steps + rest,
                    rest + 1 == per_step,
            ;
            vstd::arithmetic::div_mod::lemma_fundamental_div_mod_converse(
                taken + 1,
                per_step,
                steps + 1,
                0,
            );
            vstd::arithmetic::div_mod::lemma_add_mod_noop_right(
                1,
                clock.frame_index + steps,
                frames,
            );
            assert(0 * d == 0) by (nonlinear_arith);
            assert((1 + (clock.frame_index + steps) % frames) % frames == (clock.frame_index
                + (steps + 1)) % frames);
            vstd::arithmetic::div_mod::lemma_mod_bound(clock.frame_index + (steps + 1), frames);
        } else {
            assert((rest + 1) * d < per_step * d) by (nonlinear_arith)
                requires
                    rest + 1 < per_step,
                    d > 0,
            ;
            assert(per_step * d == d * per_step) by (nonlinear_arith);
            assert(taken + 1 == steps * per_step + (rest + 1)) by (nonlinear_arith)
                requires
                    taken == per_step * steps + rest,
            ;
            vstd::arithmetic::div_mod::lemma_fundamental_div_mod_converse(
                taken + 1,
                per_step,
                steps,
                rest + 1,
            );
        }
    }
}

/// Stepping on by `shift` frames from `first` reaches `frame` exactly when
/// `shift` is the distance from `first` round to `frame`.
proof fn lemma_one_shift_reaches(first: int, frame: int, shift: int, frames: int)
    requires
        0 <= first < frames,
        0 <= frame < frames,
        0 <= shift < frames,
    ensures
        0 <= (frame - first) % frames < frames,
        (first + shift) % frames == frame <==> shift == (frame - first) % frames,
{
    if first + shift < frames {
        vstd::arithmetic::div_mod::lemma_fundamental_div_mod_converse(
            first + shift,
            frames,
            0,
            first + shift,
        );
    } else {
        vstd::arithmetic::div_mod::lemma_fundamental_div_mod_converse(
            first + shift,
            frames,
            1,
            first + shift - frames,
        );
    }
    if frame >= first {
        vstd::arithmetic::div_mod::lemma_fundamental_div_mod_converse(
            frame - first,
            frames,
            0,
            frame - first,
        );
    } else {
        vstd::arithmetic::div_mod::lemma_fundamental_div_mod_converse(
            frame - first,
            frames,
            -1,
            frame - first + frames,
        );
    }
}

/// With a tick size that divides the interval, a clock is back where it
/// was after every run of ticks that adds up to `frame_count` intervals.
pub proof fn lemma_cycle_repeats(clock: ClockState, delta: nat, count: nat)
    requires
        ticks_evenly(clock, delta),
    ensures
        clock.ticked_evenly(delta, count + clock.frame_count * (clock.interval / delta))
            == clock.ticked_evenly(delta, count),
{
    let per_step = (clock.interval / delta) as int;
    let frames = clock.frame_count as int;
    let cycle = clock.frame_count * (clock.interval / delta);
    let taken = (clock.elapsed / delta + count) as int;
    lemma_even_ticks(clock, delta, count);
    lemma_even_ticks(clock, delta, count + cycle);
    vstd::arithmetic::div_mod::lemma_fundamental_div_mod(clock.interval as int, delta as int);
    assert(per_step > 0) by (nonlinear_arith)
        requires
            clock.interval == delta * per_step,
            clock.interval > 0,
            delta > 0,
    ;
    vstd::arithmetic::div_mod::lemma_fundamental_div_mod(taken, per_step);
    vstd::arithmetic::div_mod::lemma_mod_bound(taken, per_step);
    assert(taken + frames * per_step == (taken / per_step + frames) * per_step + taken % per_step)
        by (nonlinear_arith)
        requires
            taken == per_step * (taken / per_step) + taken % per_step,
    ;
    vstd::arithmetic::div_mod::lemma_fundamental_div_mod_converse(
        taken + frames * per_step,
        per_step,
        taken / per_step + frames,
        taken % per_step,
    );
    vstd::arithmetic::div_mod::lemma_mod_self_0(frames);
    vstd::arithmetic::div_mod::lemma_add_mod_noop_right(
        clock.frame_index + taken / per_step,
        frames,
        frames,
    );
}

/// With a tick size that divides the interval, a clock that stands at the
/// start of an interval shows every frame exactly once in each cycle of
/// `frame_count` intervals, and for one whole interval: among the ticks of
/// the first cycle, `frame` is shown after exactly those that fall into the
/// interval whose number is the distance from the first frame round to
/// `frame`.
pub proof fn lemma_each_frame_once(clock: ClockState, delta: nat, frame: nat, count: nat)
    requires
        ticks_evenly(clock, delta),
        clock.elapsed == 0,
        frame < clock.frame_count,
        count < clock.frame_count * (clock.interval / delta),
    ensures
        ({
            let per_step = clock.interval / delta;
            let turn = (frame - clock.frame_index) % (clock.frame_count as int);
            &&& 0 <= turn < clock.frame_count
            &&& clock.ticked_evenly(delta, count).frame_index == frame <==> turn * per_step
                <= count < (turn + 1) * per_step
        }),
{
    let per_step = (clock.interval / delta) as int;
    let frames = clock.frame_count as int;
    let taken = count as int;
    lemma_even_ticks(clock, delta, count);
    vstd::arithmetic::div_mod::lemma_fundamental_div_mod(clock.interval as int, delta as int);
    assert(per_step > 0) by (nonlinear_arith)
        requires
            clock.interval == delta * per_step,
            clock.interval > 0,
            delta > 0,
    ;
    vstd::arithmetic::div_mod::lemma_basic_div(0, delta as int);
    vstd::arithmetic::div_mod::lemma_fundamental_div_mod(taken, per_step);
    vstd::arithmetic::div_mod::lemma_mod_bound(taken, per_step);
    let shift = taken / per_step;
    assert(0 <= shift < frames) by (nonlinear_arith)
        requires
            taken == per_step * shift + taken % per_step,
            0 <= taken % per_step < per_step,
            0 <= taken < frames * per_step,
            per_step > 0,
    ;
    lemma_one_shift_reaches(clock.frame_index as int, frame as int, shift, frames);
    let turn = (frame - clock.frame_index) % frames;
    assert(shift == turn <==> turn * per_step <= taken < (turn + 1) * per_step)
        by (nonlinear_arith)
        requires
            taken == per_step * shift + taken % per_step,
            0 <= taken % per_step < per_step,
            per_step > 0,
    ;
}

} // verus!
