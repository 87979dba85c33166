//! Countdown timers driven by the length of each tick.
//!
//! A timer here holds its state as plain numbers; what a tick does to them
//! is worked out by the timer of `bevy::time`.

use vstd::prelude::*;

verus! {

/// Nanoseconds in a millisecond.
pub const NANOS_PER_MILLI: u64 = 1_000_000;

/// Nanoseconds in a second.
pub const NANOS_PER_SEC: u64 = 1_000_000_000;

/// What a timer does once its duration has passed.
#[derive(Clone, Copy, Debug, PartialEq, Eq, Structural)]
pub enum TimerMode {
    /// Stays finished.
    Once,
    /// Starts over, keeping the time that went past the end.
    Repeating,
}

/// Tracks elapsed time against a duration.  All times are in nanoseconds.
#[derive(Clone, Copy, Debug, PartialEq, Eq, Structural)]
pub struct Timer {
    pub elapsed: u64,
    pub duration: u64,
    pub mode: TimerMode,
    /// The duration has passed: for good in mode `Once`, during the last
    /// tick in mode `Repeating`.
    pub finished: bool,
    /// The duration ran out during the last tick.
    pub just_finished: bool,
}

/// What a timer holds after a tick: the time elapsed, whether the duration
/// has passed, and whether it ran out during the tick.
pub struct Ticked {
    pub elapsed: u64,
    pub finished: bool,
    pub just_finished: bool,
}

/// The completions a tick counts, which are counted in 32 bits: the times
/// `duration` goes into `total`, cut off to 32 bits.
pub open spec fn spec_completions(total: int, duration: int) -> int {
    (total / duration) % 0x1_0000_0000
}

/// A repeating timer of `duration` nanoseconds with `elapsed` of them gone,
/// after `delta` more: it finishes when the time gone reaches the duration,
/// and keeps what went past the end.  It has just finished when it counts a
/// completion.
pub open spec fn spec_tick_repeating(elapsed: u64, duration: u64, delta: u64) -> Ticked {
    if elapsed + delta < duration {
        Ticked { elapsed: (elapsed + delta) as u64, finished: false, just_finished: false }
    } else if duration == 0 {
        Ticked { elapsed: 0, finished: true, just_finished: true }
    } else {
        Ticked {
            elapsed: ((elapsed + delta) % (duration as int)) as u64,
            finished: true,
            just_finished: spec_completions(elapsed + delta, duration as int) != 0,
        }
    }
}

/// A timer of `duration` nanoseconds that runs once and has not finished,
/// with `elapsed` of them gone, after `delta` more: it finishes when the
/// time gone reaches the duration, and stops there.
pub open spec fn spec_tick_once(elapsed: u64, duration: u64, delta: u64) -> Ticked {
    if elapsed + delta < duration {
        Ticked { elapsed: (elapsed + delta) as u64, finished: false, just_finished: false }
    } else {
        Ticked { elapsed: duration, finished: true, just_finished: true }
    }
}

/// `Timer::tick` of `bevy::time`, on a repeating timer that was made with
/// `duration` and set to `elapsed`: the timer after `delta`, as
/// `spec_tick_repeating` states it.
#[verifier::external_body]
fn tick_repeating(elapsed: u64, duration: u64, delta: u64) -> (after: Ticked)
    ensures
        after == spec_tick_repeating(elapsed, duration, delta),
{
    let mut timer = bevy::time::Timer::new(
        std::time::Duration::from_nanos(duration),
        bevy::time::TimerMode::Repeating,
    );
    timer.set_elapsed(std::time::Duration::from_nanos(elapsed));
    timer.tick(std::time::Duration::from_nanos(delta));
    Ticked {
        elapsed: timer.elapsed().as_nanos() as u64,
        finished: timer.finished(),
        just_finished: timer.just_finished(),
    }
}

/// `Timer::tick` of `bevy::time`, on a timer that runs once, was made with
/// `duration` and set to `elapsed`, and has not been ticked: the timer
/// after `delta`, as `spec_tick_once` states it.
#[verifier::external_body]
fn tick_once(elapsed: u64, duration: u64, delta: u64) -> (after: Ticked)
    ensures
        after == spec_tick_once(elapsed, duration, delta),
{
    let mut timer = bevy::time::Timer::new(
        std::time::Duration::from_nanos(duration),
        bevy::time::TimerMode::Once,
    );
    timer.set_elapsed(std::time::Duration::from_nanos(elapsed));
    timer.tick(std::time::Duration::from_nanos(delta));
    Ticked {
        elapsed: timer.elapsed().as_nanos() as u64,
        finished: timer.finished(),
        just_finished: timer.just_finished(),
    }
}

impl Timer {
    /// The timer after `delta` more nanoseconds.  A timer that runs once
    /// and has finished stays as it is, but that it has not just finished.
    pub open spec fn spec_tick(self, delta: u64) -> Timer {
        if self.mode == TimerMode::Once && self.finished {
            Timer { just_finished: false, ..self }
        } else {
            let after = if self.mode == TimerMode::Once {
                spec_tick_once(self.elapsed, self.duration, delta)
            } else {
                spec_tick_repeating(self.elapsed, self.duration, delta)
            };
            Timer {
                elapsed: after.elapsed,
                finished: after.finished,
                just_finished: after.just_finished,
                ..self
            }
        }
    }

    /// The timer with no time elapsed.
    pub open spec fn spec_reset(self) -> Timer {
        Timer { elapsed: 0, finished: false, just_finished: false, ..self }
    }

    /// A timer of `duration` nanoseconds on which no time has passed.
    pub fn new(duration: u64, mode: TimerMode) -> (timer: Timer)
        ensures
            timer == (Timer { elapsed: 0, duration, mode, finished: false, just_finished: false }),
    {
        Timer { elapsed: 0, duration, mode, finished: false, just_finished: false }
    }

    /// A timer of `millis` milliseconds.
    pub fn from_millis(millis: u32, mode: TimerMode) -> (timer: Timer)
        ensures
            timer == (Timer {
                elapsed: 0,
                duration: (millis * NANOS_PER_MILLI) as u64,
                mode,
                finished: false,
                just_finished: false,
            }),
    {
        Timer::new((millis as u64) * 1_000_000, mode)
    }

    /// A timer of `secs` seconds.
    pub fn from_secs(secs: u32, mode: TimerMode) -> (timer: Timer)
        ensures
            timer == (Timer {
                elapsed: 0,
                duration: (secs * NANOS_PER_SEC) as u64,
                mode,
                finished: false,
                just_finished: false,
            }),
    {
        Timer::new((secs as u64) * 1_000_000_000, mode)
    }

    /// Lets `delta` nanoseconds pass.
    pub fn tick(&mut self, delta: u64)
        ensures
            *final(self) == old(self).spec_tick(delta),
    {
        if self.mode == TimerMode::Once && self.finished {
            self.just_finished = false;
            return ;
        }
        let after = if self.mode == TimerMode::Once {
            tick_once(self.elapsed, self.duration, delta)
        } else {
            tick_repeating(self.elapsed, self.duration, delta)
        };
        self.elapsed = after.elapsed;
        self.finished = after.finished;
        self.just_finished = after.just_finished;
    }

    /// Starts over.
    pub fn reset(&mut self)
        ensures
            *final(self) == old(self).spec_reset(),
    {
        self.elapsed = 0;
        self.finished = false;
        self.just_finished = false;
    }

    /// Whether the duration has passed.
    pub fn finished(&self) -> (r: bool)
        ensures
            r == self.finished,
    {
        self.finished
    }

    /// Whether the duration ran out during the last tick.
    pub fn just_finished(&self) -> (r: bool)
        ensures
            r == self.just_finished,
    {
        self.just_finished
    }
}

} // verus!
