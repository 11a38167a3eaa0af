//! One-shot timers with an explicit "just crossed the threshold" check, so
//! that effects scheduled on a delay fire exactly once.

use vstd::prelude::*;
use crate::hex::min_val;
use crate::scalar::SCALAR_MAX;

verus! {

/// A one-shot timer.  `elapsed` never passes `duration`, and `fired` records
/// whether the threshold has been crossed, so a finished timer reports
/// "just finished" only on the tick that crossed it.
#[derive(Clone, Copy, Debug, PartialEq, Eq, Structural)]
pub struct Timer {
    pub elapsed: i64,
    pub duration: i64,
    pub fired: bool,
}

impl Timer {
    pub open spec fn wf(self) -> bool {
        &&& 0 <= self.elapsed <= self.duration <= SCALAR_MAX
        &&& self.fired == (self.elapsed == self.duration)
    }

    pub open spec fn spec_finished(self) -> bool {
        self.fired
    }

    /// A fresh timer that will finish after `duration` elapsed time.
    pub fn new(duration: i64) -> (t: Timer)
        requires
            0 <= duration <= SCALAR_MAX,
        ensures
            t.wf(),
            t.duration == duration,
            t.elapsed == 0,
            t.spec_finished() == (duration == 0),
    {
        Timer { elapsed: 0, duration, fired: duration == 0 }
    }

    pub fn finished(&self) -> (b: bool)
        ensures
            b == self.spec_finished(),
    {
        self.fired
    }

    /// Advance the timer by `dt`.  Returns true exactly once: on the tick
    /// whose advance made the timer finish.
    pub fn tick(&mut self, dt: i64) -> (just_finished: bool)
        requires
            old(self).wf(),
            0 <= dt <= SCALAR_MAX,
        ensures
            final(self).wf(),
            final(self).duration == old(self).duration,
            final(self).elapsed == min_val(old(self).elapsed + dt, old(self).duration as int),
            final(self).spec_finished() == (old(self).spec_finished() || old(self).elapsed + dt
                >= old(self).duration),
            just_finished == (!old(self).spec_finished() && final(self).spec_finished()),
    {
        let was_finished = self.fired;
        let sum: i64 = if dt > self.duration - self.elapsed {
            self.duration
        } else {
            self.elapsed + dt
        };
        self.elapsed = sum;
        self.fired = self.elapsed == self.duration;
        !was_finished && self.fired
    }

    /// Rewind to a freshly started timer with the same duration.
    pub fn reset(&mut self)
        requires
            old(self).wf(),
        ensures
            final(self).wf(),
            final(self).duration == old(self).duration,
            final(self).elapsed == 0,
            final(self).spec_finished() == (old(self).duration == 0),
    {
        self.elapsed = 0;
        self.fired = self.duration == 0;
    }
}

} // verus!
