use vstd::prelude::*;
use crate::timeline::sat_add;

verus! {

/// The clock of a fade or a keyframe animation: it stands still until it is
/// triggered, then counts the frame time that passes, in nanoseconds.
#[derive(Clone, Copy, PartialEq, Eq, Debug)]
pub struct Clock {
    /// Whether the animation has been triggered.
    pub running: bool,
    /// Time since the last trigger.
    pub elapsed: u64,
}

/// The clock after a trigger: running, from zero.
pub open spec fn triggered(c: Clock) -> Clock {
    Clock { running: true, elapsed: 0 }
}

/// The clock after `delta` nanoseconds of frame time.
pub open spec fn ticked(c: Clock, delta: u64) -> Clock {
    if c.running {
        Clock { running: true, elapsed: sat_add(c.elapsed, delta) }
    } else {
        c
    }
}

impl Clock {
    /// A clock that has not been triggered.
    pub fn new() -> (c: Clock)
        ensures
            !c.running,
            c.elapsed == 0,
    {
        Clock { running: false, elapsed: 0 }
    }

    /// Starts the animation over: the clock runs from zero.
    pub fn trigger(&mut self)
        ensures
            *final(self) == triggered(*old(self)),
    {
        self.running = true;
        self.elapsed = 0;
    }

    /// Lets `delta` nanoseconds of frame time pass. A clock that has not
    /// been triggered does not move.
    pub fn tick(&mut self, delta: u64)
        ensures
            *final(self) == ticked(*old(self), delta),
    {
        if self.running {
            self.elapsed = if self.elapsed > u64::MAX - delta {
                u64::MAX
            } else {
                self.elapsed + delta
            };
        }
    }

    /// Whether the animation has run for at least `duration`.
    pub fn has_run_for(&self, duration: u64) -> (r: bool)
        ensures
            r == (self.running && self.elapsed >= duration),
    {
        self.running && self.elapsed >= duration
    }
}

/// The clock after the frames of `deltas`, one after the other.
pub open spec fn ticked_all(c: Clock, deltas: Seq<u64>) -> Clock
    decreases deltas.len(),
{
    if deltas.len() == 0 {
        c
    } else {
        ticked(ticked_all(c, deltas.drop_last()), deltas.last())
    }
}

/// The sum of the frame times, as a clock adds them: stopping at `u64::MAX`.
pub open spec fn sum_stopping(deltas: Seq<u64>) -> u64
    decreases deltas.len(),
{
    if deltas.len() == 0 {
        0
    } else {
        sat_add(sum_stopping(deltas.drop_last()), deltas.last())
    }
}

/// The plain sum of the frame times.
pub open spec fn sum(deltas: Seq<u64>) -> int
    decreases deltas.len(),
{
    if deltas.len() == 0 {
        0
    } else {
        sum(deltas.drop_last()) + deltas.last()
    }
}

/// A clock counts the frame time since its last trigger: triggered from
/// any reading and then ticked by any sequence of frames, it runs and
/// reads the sum of their times, held at `u64::MAX` once it gets there.
pub proof fn lemma_clock_counts_since_trigger(c: Clock, deltas: Seq<u64>)
    ensures
        ticked_all(triggered(c), deltas) == (Clock { running: true, elapsed: sum_stopping(deltas) }),
    decreases deltas.len(),
{
    if deltas.len() > 0 {
        lemma_clock_counts_since_trigger(c, deltas.drop_last());
    }
}

/// Where the frame times add up to no more than `u64::MAX`, the clock
/// reads exactly their sum.
pub proof fn lemma_sum_without_limit(deltas: Seq<u64>)
    requires
        sum(deltas) <= u64::MAX,
    ensures
        sum_stopping(deltas) == sum(deltas),
    decreases deltas.len(),
{
    if deltas.len() > 0 {
        lemma_sum_nonnegative(deltas.drop_last());
        lemma_sum_without_limit(deltas.drop_last());
    }
}

proof fn lemma_sum_nonnegative(deltas: Seq<u64>)
    ensures
        sum(deltas) >= 0,
    decreases deltas.len(),
{
    if deltas.len() > 0 {
        lemma_sum_nonnegative(deltas.drop_last());
    }
}

/// A clock that was never triggered does not move, however many frames
/// pass.
pub proof fn lemma_idle_clock_stands_still(c: Clock, deltas: Seq<u64>)
    requires
        !c.running,
    ensures
        ticked_all(c, deltas) == c,
    decreases deltas.len(),
{
    if deltas.len() > 0 {
        lemma_idle_clock_stands_still(c, deltas.drop_last());
    }
}

} // verus!
