//! Millisecond timers, one-shot or repeating.

use vstd::prelude::*;

verus! {

#[derive(Clone, Copy, Debug, PartialEq, Eq, Structural)]
pub enum TimerMode {
    Once,
    Repeating,
}

/// A timer that counts `elapsed` milliseconds up to `duration`. A one-shot
/// timer stops at its duration; a repeating one wraps around and fires once
/// for each full period it passes.
#[derive(Clone, Copy, Debug, PartialEq, Eq, Structural)]
pub struct Timer {
    pub duration: u64,
    pub elapsed: u64,
    pub mode: TimerMode,
}

impl Timer {
    pub open spec fn wf(self) -> bool {
        match self.mode {
            TimerMode::Once => self.elapsed <= self.duration,
            TimerMode::Repeating => self.elapsed < self.duration,
        }
    }

    /// The timer after `dt` milliseconds.
    pub open spec fn ticked(self, dt: int) -> Timer {
        match self.mode {
            TimerMode::Once => Timer {
                elapsed: if self.elapsed + dt >= self.duration {
                    self.duration
                } else {
                    (self.elapsed + dt) as u64
                },
                ..self
            },
            TimerMode::Repeating => Timer {
                elapsed: ((self.elapsed + dt) % (self.duration as int)) as u64,
                ..self
            },
        }
    }

    /// Whether the timer completes a period during the next `dt` milliseconds.
    pub open spec fn fires(self, dt: int) -> bool {
        match self.mode {
            TimerMode::Once => self.elapsed < self.duration && self.elapsed + dt >= self.duration,
            TimerMode::Repeating => self.elapsed + dt >= self.duration,
        }
    }

    pub open spec fn is_finished(self) -> bool {
        self.mode == TimerMode::Once && self.elapsed >= self.duration
    }

    pub open spec fn new_spec(duration: u64, mode: TimerMode) -> Timer {
        Timer { duration, elapsed: 0, mode }
    }

    pub fn new(duration: u64, mode: TimerMode) -> (r: Timer)
        requires
            mode == TimerMode::Repeating ==> duration > 0,
        ensures
            r == Timer::new_spec(duration, mode),
            r.wf(),
    {
        Timer { duration, elapsed: 0, mode }
    }

    /// Advances the timer by `dt` milliseconds; returns whether it fired.
    pub fn tick(&mut self, dt: u64) -> (fired: bool)
        requires
            old(self).wf(),
        ensures
            *final(self) == old(self).ticked(dt as int),
            final(self).wf(),
            fired == old(self).fires(dt as int),
    {
        let total: u128 = self.elapsed as u128 + dt as u128;
        match self.mode {
            TimerMode::Once => {
                let was_running = self.elapsed < self.duration;
                if total >= self.duration as u128 {
                    self.elapsed = self.duration;
                    was_running
                } else {
                    self.elapsed = total as u64;
                    false
                }
            },
            TimerMode::Repeating => {
                let rem: u128 = total % (self.duration as u128);
                self.elapsed = rem as u64;
                total >= self.duration as u128
            },
        }
    }

    /// Whether a one-shot timer has reached its duration.
    pub fn finished(&self) -> (r: bool)
        ensures
            r == self.is_finished(),
    {
        match self.mode {
            TimerMode::Once => self.elapsed >= self.duration,
            TimerMode::Repeating => false,
        }
    }

    /// Milliseconds left before the end of the current period.
    pub fn remaining(&self) -> (r: u64)
        requires
            self.wf(),
        ensures
            r == self.duration - self.elapsed,
    {
        self.duration - self.elapsed
    }
}

} // verus!
