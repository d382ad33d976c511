//! The player's ship.

use crate::geometry::{clamp_spec, toward, travel, travel_of, Point};
use crate::timer::{Timer, TimerMode};
use vstd::prelude::*;

verus! {

#[derive(Clone, Copy, Debug, PartialEq, Eq, Structural)]
pub enum Weapon {
    /// Kills outright and slides the ship onto the target.
    Blade,
    /// Takes one health per hit and leaves the ship in place.
    Laser,
}

impl Default for Weapon {
    fn default() -> (r: Weapon)
        ensures
            r == Weapon::Blade,
    {
        Weapon::Blade
    }
}

/// Which arrow keys are held.
#[derive(Clone, Copy, Debug, PartialEq, Eq, Structural)]
pub struct Steer {
    pub up: bool,
    pub down: bool,
    pub left: bool,
    pub right: bool,
}

pub open spec fn axis(plus: bool, minus: bool) -> int {
    (if plus { 1int } else { 0int }) - (if minus { 1int } else { 0int })
}

/// The player's ship. `speed` is in units per second; while the one-shot
/// `invulnerability_timer` runs, nothing damages the ship.
#[derive(Clone, Copy, Debug, PartialEq, Eq, Structural)]
pub struct Ship {
    pub position: Point,
    pub speed: u64,
    pub current_weapon: Weapon,
    pub score: u32,
    pub hp: i32,
    pub combo: u32,
    pub invulnerability_timer: Timer,
}

pub open spec fn sat_u32(v: int) -> u32 {
    if v > u32::MAX {
        u32::MAX
    } else {
        v as u32
    }
}

/// Score for a kill made with `combo` kills in a row before it.
pub open spec fn kill_reward(combo: u32) -> int {
    100 * (combo + 1)
}

impl Ship {
    pub open spec fn wf(self) -> bool {
        &&& self.position.wf()
        &&& self.invulnerability_timer.wf()
        &&& self.invulnerability_timer.mode == TimerMode::Once
    }

    /// The ship of a new session: at the origin, speed 300, blade in hand,
    /// no score, three hit points, no combo, and no grace period.
    pub open spec fn initial() -> Ship {
        Ship {
            position: Point::origin_spec(),
            speed: 300,
            current_weapon: Weapon::Blade,
            score: 0,
            hp: 3,
            combo: 0,
            invulnerability_timer: Timer::new_spec(0, TimerMode::Once),
        }
    }

    pub open spec fn is_invulnerable(self) -> bool {
        !self.invulnerability_timer.is_finished()
    }

    /// The ship after a kill: the reward added to the score, the combo one
    /// longer, and a short grace period against damage.
    pub open spec fn rewarded(self) -> Ship {
        Ship {
            score: sat_u32(self.score + kill_reward(self.combo)),
            combo: sat_u32(self.combo + 1),
            invulnerability_timer: Timer::new_spec(150, TimerMode::Once),
            ..self
        }
    }

    /// The ship after one point of damage.
    pub open spec fn damaged(self) -> Ship {
        Ship {
            hp: if self.hp > i32::MIN { (self.hp - 1) as i32 } else { self.hp },
            combo: 0,
            ..self
        }
    }

    /// Whether the ship is not invulnerable.
    pub fn is_exposed(&self) -> (r: bool)
        ensures
            r == !self.is_invulnerable(),
    {
        self.invulnerability_timer.finished()
    }

    pub fn reward_kill(&mut self)
        ensures
            *final(self) == old(self).rewarded(),
    {
        let gain: u64 = 100 * (self.combo as u64 + 1);
        let total: u64 = self.score as u64 + gain;
        self.score = if total > u32::MAX as u64 { u32::MAX } else { total as u32 };
        self.combo = if self.combo == u32::MAX { u32::MAX } else { self.combo + 1 };
        self.invulnerability_timer = Timer::new(150, TimerMode::Once);
    }

    pub fn take_damage(&mut self)
        ensures
            *final(self) == old(self).damaged(),
    {
        if self.hp > i32::MIN {
            self.hp = self.hp - 1;
        }
        self.combo = 0;
    }

    /// Switches between blade and laser.
    pub fn weapon_switching(&mut self)
        ensures
            *final(self) == (Ship {
                current_weapon: match old(self).current_weapon {
                    Weapon::Blade => Weapon::Laser,
                    Weapon::Laser => Weapon::Blade,
                },
                ..*old(self)
            }),
    {
        self.current_weapon = match self.current_weapon {
            Weapon::Blade => Weapon::Laser,
            Weapon::Laser => Weapon::Blade,
        };
    }

    /// The ship after flying for `dt` milliseconds as `steer` holds the keys.
    pub open spec fn moved_by(self, steer: Steer, dt: int) -> Ship {
        let dx = axis(steer.right, steer.left);
        let dy = axis(steer.up, steer.down);
        let step = travel(self.speed as int, dt);
        let p = self.position;
        if dx == 0 && dy == 0 {
            self
        } else {
            Ship {
                position: toward(
                    p,
                    Point { x: clamp_spec(p.x + dx * (step + 1)) as i64, y: clamp_spec(p.y + dy * (step + 1)) as i64 },
                    step,
                ),
                ..self
            }
        }
    }

    /// Flies the ship for `dt` milliseconds at its speed in the direction the
    /// held arrow keys give, diagonals included; opposite keys cancel.
    pub fn player_movement(&mut self, steer: Steer, dt: u64)
        requires
            old(self).wf(),
        ensures
            final(self).wf(),
            *final(self) == old(self).moved_by(steer, dt as int),
    {
        let dx: i64 = (if steer.right { 1i64 } else { 0i64 }) - (if steer.left { 1i64 } else { 0i64 });
        let dy: i64 = (if steer.up { 1i64 } else { 0i64 }) - (if steer.down { 1i64 } else { 0i64 });
        if dx == 0 && dy == 0 {
            return;
        }
        let step: u64 = travel_of(self.speed, dt);
        let reach: i64 = step as i64 + 1;
        assert(-reach <= dx * reach <= reach) by (nonlinear_arith)
            requires -1 <= dx <= 1, reach >= 0;
        assert(-reach <= dy * reach <= reach) by (nonlinear_arith)
            requires -1 <= dy <= 1, reach >= 0;
        let far = Point::new(self.position.x + dx * reach, self.position.y + dy * reach);
        self.position = self.position.moved_toward(&far, step);
    }

    /// Runs down the grace period by `dt` milliseconds.
    pub fn update_invulnerability(&mut self, dt: u64)
        requires
            old(self).wf(),
        ensures
            final(self).wf(),
            *final(self) == (Ship {
                invulnerability_timer: old(self).invulnerability_timer.ticked(dt as int),
                ..*old(self)
            }),
    {
        let _ = self.invulnerability_timer.tick(dt);
    }

    /// Hit points as shown to the player, never below zero.
    pub fn displayed_hp(&self) -> (r: i32)
        ensures
            r == if self.hp < 0 {
                0
            } else {
                self.hp
            },
    {
        if self.hp < 0 {
            0
        } else {
            self.hp
        }
    }
}

impl Default for Ship {
    fn default() -> (r: Ship)
        ensures
            r == Ship::initial(),
            r.position == Point::origin_spec(),
            r.speed == 300,
            r.current_weapon == Weapon::Blade,
            r.score == 0,
            r.hp == 3,
            r.combo == 0,
            r.invulnerability_timer == Timer::new_spec(0, TimerMode::Once),
            r.wf(),
            !r.is_invulnerable(),
    {
        Ship {
            position: Point::origin(),
            speed: 300,
            current_weapon: Weapon::Blade,
            score: 0,
            hp: 3,
            combo: 0,
            invulnerability_timer: Timer::new(0, TimerMode::Once),
        }
    }
}

} // verus!
