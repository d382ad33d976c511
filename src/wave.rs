//! Wave bookkeeping: the wave number and how many enemies it has yet to spawn.

use crate::timer::{Timer, TimerMode};
use vstd::prelude::*;

verus! {

/// Enemy count of the first ten waves.
pub open spec fn early_counts() -> Seq<int> {
    seq![5, 7, 11, 13, 17, 19, 23, 29, 31, 37]
}

/// How many enemies wave `w` (counted from 1) holds: the fixed sequence for
/// the first ten waves, then two more for each wave after the tenth.
pub open spec fn enemy_count(w: int) -> int {
    if 1 <= w <= 10 {
        early_counts()[w - 1]
    } else {
        37 + (w - 10) * 2
    }
}

/// Whether wave `w` is one in which a boss appears instead of enemies.
pub open spec fn is_boss_wave(w: int) -> bool {
    w % 10 == 0
}

pub struct Wave {
    pub current: usize,
    pub enemies_remaining: usize,
    pub timer: Timer,
}

impl Wave {
    pub open spec fn wf(self) -> bool {
        &&& self.current >= 1
        &&& self.timer.wf()
    }

    /// Whether the next wave's count can be held in a `usize`.
    pub open spec fn can_advance(self) -> bool {
        self.current + 1 - 10 <= (usize::MAX - 37) / 2
    }

    /// The enemy count of the current wave.
    pub fn get_enemy_count(&self) -> (r: usize)
        requires
            self.current >= 1,
            self.current - 10 <= (usize::MAX - 37) / 2,
        ensures
            r == enemy_count(self.current as int),
    {
        let counts: [usize; 10] = [5, 7, 11, 13, 17, 19, 23, 29, 31, 37];
        if self.current <= 10 {
            let r = counts[self.current - 1];
            assert(counts@ =~= early_counts().map_values(|v: int| v as usize));
            r
        } else {
            37 + (self.current - 10) * 2
        }
    }

    /// Starts the next wave once the current one is spent and nothing it
    /// spawned is alive; returns whether it did.
    pub fn wave_progression(&mut self, enemies_alive: bool, boss_alive: bool) -> (started: bool)
        requires
            old(self).wf(),
            old(self).can_advance(),
        ensures
            started == (old(self).enemies_remaining == 0 && !enemies_alive && !boss_alive),
            started ==> final(self).current == old(self).current + 1 && final(self).enemies_remaining
                == enemy_count(old(self).current + 1) && final(self).timer == old(self).timer,
            !started ==> *final(self) == *old(self),
            final(self).wf(),
    {
        if self.enemies_remaining == 0 && !enemies_alive && !boss_alive {
            self.current = self.current + 1;
            self.enemies_remaining = self.get_enemy_count();
            true
        } else {
            false
        }
    }
}

impl Default for Wave {
    fn default() -> (r: Wave)
        ensures
            r.current == 1,
            r.enemies_remaining == 5,
            r.timer == Timer::new_spec(30_000, TimerMode::Repeating),
            r.wf(),
    {
        Wave { current: 1, enemies_remaining: 5, timer: Timer::new(30_000, TimerMode::Repeating) }
    }
}

} // verus!
