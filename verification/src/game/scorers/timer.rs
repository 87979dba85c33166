//! Scoring by the time that has passed.

use vstd::prelude::*;
use crate::time::Timer;

verus! {

/// Scores each time its timer runs out.
#[derive(Clone, Copy, Debug, PartialEq, Eq, Structural)]
pub struct TimePassed(pub Timer);

/// Lets `delta` nanoseconds pass on `timer` and scores when it has run out.
pub fn timer_scorer_system(timer: &mut TimePassed, delta: u64) -> (score: bool)
    ensures
        final(timer).0 == old(timer).0.spec_tick(delta),
        score == old(timer).0.spec_tick(delta).finished,
{
    timer.0.tick(delta);
    timer.0.finished()
}

} // verus!
