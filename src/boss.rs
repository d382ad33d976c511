//! The boss encounter: the warning countdown, the boss whose health is the
//! number of lines still to type, its line-by-line typing, and its attacks.

use crate::enemy::{projectiles_wf, Projectile};
use crate::geometry::{cos_milli, heading_toward, sin_milli, Point};
use crate::particles::{polar, Rgb};
use crate::player::{sat_u32, Ship};
use crate::random::roll;
use crate::state::Difficulty;
use crate::text::{matches_spec, text_matches};
use crate::timer::{Timer, TimerMode};
use rand::rngs::StdRng;
use vstd::prelude::*;
use vstd::string::StringSliceAdditionalSpecFns;
use vstd::utf8::encode_utf8;

verus! {

pub type BossParticle = Projectile;

pub struct Boss {
    pub health: usize,
    pub max_health: usize,
    pub particle_timer: Timer,
}

/// The lines a boss is defeated with, and the one to type next.
pub struct BossLine {
    pub lines: Vec<String>,
    pub current_line_index: usize,
}

/// The countdown before a boss appears.
#[derive(Clone, Copy, Debug, PartialEq, Eq, Structural)]
pub struct BossWarningTimer {
    pub timer: Timer,
    pub count: u32,
}

/// A live boss.
pub struct ActiveBoss {
    pub boss: Boss,
    pub line: BossLine,
    pub position: Point,
}

/// What a submitted line did to the boss.
#[derive(Clone, Copy, Debug, PartialEq, Eq, Structural)]
pub enum BossStrike {
    /// The text was not the current line.
    Wrong,
    /// The line was typed and the boss lives on.
    Hit,
    /// The last line was typed and the boss is defeated.
    Defeated,
}

/// Number of particles in each of the eight attack patterns.
pub open spec fn pattern_count(pattern: int) -> int {
    if pattern == 0 {
        12
    } else if pattern == 1 {
        6
    } else if pattern == 2 {
        12
    } else if pattern == 3 {
        5
    } else if pattern == 4 {
        12
    } else if pattern == 5 {
        15
    } else if pattern == 6 {
        12
    } else {
        4
    }
}

/// The length in bytes of a text's UTF-8 encoding, as `str::len` gives it.
pub open spec fn byte_len(s: Seq<char>) -> usize {
    encode_utf8(s).len() as usize
}

/// Score for typing a line of `len` bytes (its UTF-8 length) with `combo`
/// successes before it.
pub open spec fn line_reward(len: int, combo: u32) -> int {
    len * 100 * (combo + 1)
}

/// `after` is `before` with `n` projectiles added, all launched from `origin`.
pub open spec fn launched(before: Seq<Projectile>, after: Seq<Projectile>, n: int, origin: Point, color: Rgb) -> bool {
    &&& after.len() == before.len() + n
    &&& after.take(before.len() as int) == before
    &&& forall|i: int|
        before.len() <= i < after.len() ==> (#[trigger] after[i]).position == origin && after[i].color == color
            && after[i].wf()
}

/// The color of each attack pattern's particles.
pub open spec fn pattern_color_spec(pattern: int) -> Rgb {
    if pattern == 0 {
        Rgb { r: 255, g: 0, b: 0 }
    } else if pattern == 1 {
        Rgb { r: 255, g: 51, b: 0 }
    } else if pattern == 2 {
        Rgb { r: 255, g: 0, b: 77 }
    } else if pattern == 3 {
        Rgb { r: 255, g: 0, b: 255 }
    } else if pattern == 4 {
        Rgb { r: 0, g: 255, b: 255 }
    } else if pattern == 5 {
        Rgb { r: 0, g: 204, b: 255 }
    } else if pattern == 6 {
        Rgb { r: 255, g: 255, b: 0 }
    } else {
        Rgb { r: 204, g: 0, b: 204 }
    }
}

pub fn pattern_color(pattern: u64) -> (r: Rgb)
    ensures
        r == pattern_color_spec(pattern as int),
{
    if pattern == 0 {
        Rgb { r: 255, g: 0, b: 0 }
    } else if pattern == 1 {
        Rgb { r: 255, g: 51, b: 0 }
    } else if pattern == 2 {
        Rgb { r: 255, g: 0, b: 77 }
    } else if pattern == 3 {
        Rgb { r: 255, g: 0, b: 255 }
    } else if pattern == 4 {
        Rgb { r: 0, g: 255, b: 255 }
    } else if pattern == 5 {
        Rgb { r: 0, g: 204, b: 255 }
    } else if pattern == 6 {
        Rgb { r: 255, g: 255, b: 0 }
    } else {
        Rgb { r: 204, g: 0, b: 204 }
    }
}

proof fn lemma_launched_step(
    a: Seq<Projectile>,
    b: Seq<Projectile>,
    c: Seq<Projectile>,
    n: int,
    origin: Point,
    color: Rgb,
)
    requires
        n >= 0,
        launched(a, b, n, origin, color),
        launched(b, c, 1, origin, color),
    ensures
        launched(a, c, n + 1, origin, color),
{
    assert(c.take(a.len() as int) =~= c.take(b.len() as int).take(a.len() as int));
    assert forall|i: int| a.len() <= i < c.len() implies (#[trigger] c[i]).position == origin && c[i].color
        == color && c[i].wf() by {
        if i < b.len() {
            assert(c.take(b.len() as int)[i] == c[i]);
            assert(b[i] == c[i]);
        }
    }
}

proof fn lemma_launched_wf(a: Seq<Projectile>, b: Seq<Projectile>, n: int, origin: Point, color: Rgb)
    requires
        n >= 0,
        launched(a, b, n, origin, color),
        projectiles_wf(a),
    ensures
        projectiles_wf(b),
{
    assert forall|i: int| 0 <= i < b.len() implies #[trigger] b[i].wf() by {
        if i < a.len() {
            assert(b.take(a.len() as int)[i] == b[i]);
        }
    }
}

/// Speeds, in units per second, of each attack pattern's particles: 90 for
/// most, 90, 117 or 144 for the triple shots, 135 for the aimed spread, 81
/// for the double ring, 63 to 135 for the scatter, and 45 for the minions.
pub open spec fn pattern_speed(pattern: int, speed: int) -> bool {
    if pattern == 2 {
        speed == 90 || speed == 117 || speed == 144
    } else if pattern == 3 {
        speed == 135
    } else if pattern == 4 {
        speed == 81
    } else if pattern == 6 {
        63 <= speed < 135
    } else if pattern == 7 {
        speed == 45
    } else {
        speed == 90
    }
}

/// `v` is a velocity that attack `pattern` fires at.
pub open spec fn pattern_velocity(v: Point, pattern: int) -> bool {
    exists|deg: int, speed: int| pattern_speed(pattern, speed) && v == #[trigger] polar(deg, speed)
}

/// Every projectile added after `before` flies at a speed of `pattern`.
pub open spec fn paced(before: Seq<Projectile>, after: Seq<Projectile>, pattern: int) -> bool {
    forall|i: int| before.len() <= i < after.len() ==> pattern_velocity((#[trigger] after[i]).velocity, pattern)
}

proof fn lemma_paced_step(before: Seq<Projectile>, mid: Seq<Projectile>, after: Seq<Projectile>, pattern: int)
    requires
        paced(before, mid, pattern),
        after == mid.push(after.last()),
        pattern_velocity(after.last().velocity, pattern),
    ensures
        paced(before, after, pattern),
{
    assert forall|i: int| before.len() <= i < after.len() implies pattern_velocity((#[trigger] after[i]).velocity, pattern) by {
        if i < mid.len() {
            assert(after[i] == mid[i]);
        }
    }
}

/// Adds one projectile at `origin` heading `deg` degrees at `speed` units
/// per second.
fn launch(out: &mut Vec<Projectile>, origin: Point, deg: u32, speed: u64, pattern: u64, color: Rgb, size: u64)
    requires
        origin.wf(),
        pattern_speed(pattern as int, speed as int),
    ensures
        launched(old(out)@, final(out)@, 1, origin, color),
        final(out)@ == old(out)@.push(final(out)@.last()),
        pattern_velocity(final(out)@.last().velocity, pattern as int),
{
    let c = cos_milli(deg);
    let s = sin_milli(deg);
    assert(-144_000 <= c * speed <= 144_000) by (nonlinear_arith)
        requires -1000 <= c <= 1000, 0 <= speed <= 144;
    assert(-144_000 <= s * speed <= 144_000) by (nonlinear_arith)
        requires -1000 <= s <= 1000, 0 <= speed <= 144;
    let vx: i64 = c * speed as i64;
    let vy: i64 = s * speed as i64;
    assert(Point { x: vx, y: vy } == polar(deg as int, speed as int));
    let ghost before = out@;
    out.push(Projectile { position: origin, velocity: Point { x: vx, y: vy }, color, size });
    assert(out@.take(before.len() as int) =~= before);
    assert(out@ =~= before.push(out@.last()));
}

/// Fires attack `pattern` from `origin`: a ring, a turning ring, a cross of
/// triple shots, a spread aimed along `aim` degrees, a turning double ring,
/// a three-way fan, a random scatter, or a few slow drifting minions.
/// `elapsed` (in milliseconds) turns the turning patterns.
pub fn attack_pattern(out: &mut Vec<Projectile>, rng: &mut StdRng, pattern: u64, origin: Point, aim: u32, elapsed: u64)
    requires
        origin.wf(),
        pattern < 8,
        aim < 360,
    ensures
        launched(
            old(out)@,
            final(out)@,
            pattern_count(pattern as int),
            origin,
            pattern_color_spec(pattern as int),
        ),
        paced(old(out)@, final(out)@, pattern as int),
{
    let color = pattern_color(pattern);
    let ghost before = out@;
    assert(out@.take(before.len() as int) =~= before);
    let mut k: u32 = 0;
    if pattern == 0 {
        while k < 12
            invariant
                k <= 12,
                origin.wf(),
                launched(before, out@, k as int, origin, color),
                paced(before, out@, pattern as int),
                pattern == 0,
            decreases 12 - k,
        {
            let ghost mid = out@;
            launch(out, origin, k * 30, 90, pattern, color, 12);
            proof {
                lemma_launched_step(before, mid, out@, k as int, origin, color);
                lemma_paced_step(before, mid, out@, pattern as int);
            }
            k = k + 1;
        }
    } else if pattern == 1 {
        let offset: u32 = ((elapsed as u128 * 573 / 5000) % 360) as u32;
        while k < 6
            invariant
                k <= 6,
                origin.wf(),
                offset < 360,
                launched(before, out@, k as int, origin, color),
                paced(before, out@, pattern as int),
                pattern == 1,
            decreases 6 - k,
        {
            let ghost mid = out@;
            launch(out, origin, k * 60 + offset, 90, pattern, color, 12);
            proof {
                lemma_launched_step(before, mid, out@, k as int, origin, color);
                lemma_paced_step(before, mid, out@, pattern as int);
            }
            k = k + 1;
        }
    } else if pattern == 2 {
        while k < 12
            invariant
                k <= 12,
                origin.wf(),
                launched(before, out@, k as int, origin, color),
                paced(before, out@, pattern as int),
                pattern == 2,
            decreases 12 - k,
        {
            let ghost mid = out@;
            let arm = k / 3;
            let step = (k % 3) as u64;
            launch(out, origin, arm * 90, 90 + 27 * step, pattern, color, 15);
            proof {
                lemma_launched_step(before, mid, out@, k as int, origin, color);
                lemma_paced_step(before, mid, out@, pattern as int);
            }
            k = k + 1;
        }
    } else if pattern == 3 {
        while k < 5
            invariant
                k <= 5,
                origin.wf(),
                aim < 360,
                launched(before, out@, k as int, origin, color),
                paced(before, out@, pattern as int),
                pattern == 3,
            decreases 5 - k,
        {
            let ghost mid = out@;
            launch(out, origin, aim + 342 + 9 * k, 135, pattern, color, 10);
            proof {
                lemma_launched_step(before, mid, out@, k as int, origin, color);
                lemma_paced_step(before, mid, out@, pattern as int);
            }
            k = k + 1;
        }
    } else if pattern == 4 {
        let offset: u32 = ((elapsed as u128 * 1719 / 10000) % 360) as u32;
        while k < 12
            invariant
                k <= 12,
                origin.wf(),
                offset < 360,
                launched(before, out@, k as int, origin, color),
                paced(before, out@, pattern as int),
                pattern == 4,
            decreases 12 - k,
        {
            let ghost mid = out@;
            launch(out, origin, k * 60 + offset, 81, pattern, color, 20);
            proof {
                lemma_launched_step(before, mid, out@, k as int, origin, color);
                lemma_paced_step(before, mid, out@, pattern as int);
            }
            k = k + 1;
        }
    } else if pattern == 5 {
        while k < 15
            invariant
                k <= 15,
                origin.wf(),
                launched(before, out@, k as int, origin, color),
                paced(before, out@, pattern as int),
                pattern == 5,
            decreases 15 - k,
        {
            let ghost mid = out@;
            let fan = k / 5;
            let spread = k % 5;
            launch(out, origin, fan * 120 + 326 + 17 * spread, 90, pattern, color, 10);
            proof {
                lemma_launched_step(before, mid, out@, k as int, origin, color);
                lemma_paced_step(before, mid, out@, pattern as int);
            }
            k = k + 1;
        }
    } else if pattern == 6 {
        while k < 12
            invariant
                k <= 12,
                origin.wf(),
                launched(before, out@, k as int, origin, color),
                paced(before, out@, pattern as int),
                pattern == 6,
            decreases 12 - k,
        {
            let ghost mid = out@;
            let deg = roll(rng, 0, 360) as u32;
            let pace = roll(rng, 63, 135);
            launch(out, origin, deg, pace, pattern, color, 8);
            proof {
                lemma_launched_step(before, mid, out@, k as int, origin, color);
                lemma_paced_step(before, mid, out@, pattern as int);
            }
            k = k + 1;
        }
    } else {
        while k < 4
            invariant
                k <= 4,
                origin.wf(),
                launched(before, out@, k as int, origin, color),
                paced(before, out@, pattern as int),
                pattern == 7,
            decreases 4 - k,
        {
            let ghost mid = out@;
            let drift = roll(rng, 0, 29) as u32;
            launch(out, origin, k * 90 + drift, 45, pattern, color, 20);
            proof {
                lemma_launched_step(before, mid, out@, k as int, origin, color);
                lemma_paced_step(before, mid, out@, pattern as int);
            }
            k = k + 1;
        }
    }
}

/// Throughout an encounter the boss's health is the number of lines still
/// to type: while it has health, the challenge is the first untyped line;
/// at zero health it reads "DEFEATED!".
pub proof fn boss_health_law(b: ActiveBoss)
    requires
        b.wf(),
    ensures
        b.boss.health == b.line.lines@.len() - b.line.current_line_index,
        b.boss.health > 0 ==> b.challenge() == b.line.lines@[b.line.lines@.len() - b.boss.health]@,
        b.boss.health == 0 ==> b.challenge() == "DEFEATED!"@,
{
}

/// A correct line takes exactly one health and moves the challenge to the
/// next line, or to "DEFEATED!" when it was the last.
pub proof fn boss_line_law(before: ActiveBoss, after: ActiveBoss)
    requires
        before.wf(),
        after.wf(),
        after.line.lines@ == before.line.lines@,
        after.boss.health == before.boss.health - 1,
    ensures
        after.line.current_line_index == before.line.current_line_index + 1,
        after.boss.health > 0 ==> after.challenge() == before.line.lines@[before.line.current_line_index + 1]@,
        after.boss.health == 0 ==> after.challenge() == "DEFEATED!"@,
{
}

/// The ship after typing boss line `line`: the line's reward added to the
/// score and the combo one longer.
pub open spec fn line_rewarded(ship: Ship, line: Seq<char>) -> Ship {
    Ship {
        score: sat_u32(ship.score + line_reward(byte_len(line) as int, ship.combo)),
        combo: sat_u32(ship.combo + 1),
        ..ship
    }
}

/// `b` is boss `a` after its current line was typed: one health less, the
/// next line current, and nothing else changed.
pub open spec fn line_typed(a: ActiveBoss, b: ActiveBoss) -> bool {
    &&& b.boss.health == a.boss.health - 1
    &&& b.line.current_line_index == a.line.current_line_index + 1
    &&& b.line.lines@ == a.line.lines@
    &&& b.boss.max_health == a.boss.max_health
    &&& b.boss.particle_timer == a.boss.particle_timer
    &&& b.position == a.position
}

impl BossWarningTimer {
    pub open spec fn wf(self) -> bool {
        self.timer.wf() && self.timer.mode == TimerMode::Repeating
    }

    /// The countdown as the warning starts: three beats of one second.
    pub fn setup_boss_warning() -> (r: BossWarningTimer)
        ensures
            r.wf(),
            r.count == 3,
            r.timer == Timer::new_spec(1000, TimerMode::Repeating),
    {
        BossWarningTimer { timer: Timer::new(1000, TimerMode::Repeating), count: 3 }
    }

    /// Runs the countdown for `dt` milliseconds; each beat takes one off the
    /// count. Returns whether the count reached zero, when the boss appears.
    pub fn boss_warning_countdown(&mut self, dt: u64) -> (spawn: bool)
        requires
            old(self).wf(),
        ensures
            final(self).wf(),
            final(self).timer == old(self).timer.ticked(dt as int),
            final(self).count == if old(self).timer.fires(dt as int) && old(self).count > 0 {
                old(self).count - 1
            } else {
                old(self).count as int
            },
            spawn == (old(self).timer.fires(dt as int) && old(self).count == 1),
    {
        if self.timer.tick(dt) {
            if self.count > 0 {
                self.count = self.count - 1;
                return self.count == 0;
            }
        }
        false
    }
}

/// A boss at the origin whose health is the number of `lines`.
pub fn spawn_boss(lines: Vec<String>) -> (r: ActiveBoss)
    requires
        lines@.len() > 0,
    ensures
        r.wf(),
        r.boss.health == lines@.len(),
        r.line.lines@ == lines@,
        r.line.current_line_index == 0,
        r.boss.particle_timer == Timer::new_spec(3500, TimerMode::Repeating),
        r.position == Point::origin_spec(),
{
    let health = lines.len();
    ActiveBoss {
        boss: Boss {
            health,
            max_health: health,
            particle_timer: Timer::new(3500, TimerMode::Repeating),
        },
        line: BossLine { lines, current_line_index: 0 },
        position: Point::origin(),
    }
}

impl ActiveBoss {
    /// The boss's health is the number of lines still to type.
    pub open spec fn wf(self) -> bool {
        &&& self.line.current_line_index <= self.line.lines@.len()
        &&& self.boss.health == self.line.lines@.len() - self.line.current_line_index
        &&& self.boss.max_health == self.line.lines@.len()
        &&& self.boss.particle_timer.wf()
        &&& self.boss.particle_timer.mode == TimerMode::Repeating
        &&& self.position.wf()
    }

    /// The text the player has to type next.
    pub open spec fn challenge(self) -> Seq<char> {
        if self.line.current_line_index < self.line.lines@.len() {
            self.line.lines@[self.line.current_line_index as int]@
        } else {
            "DEFEATED!"@
        }
    }

    /// Runs the attack timer for `dt` milliseconds; when it fires, one of the
    /// eight attack patterns, drawn at even odds, is launched from the boss
    /// into `out`, aimed (where it aims) at `target`. Returns the pattern.
    pub fn boss_particle_system(
        &mut self,
        out: &mut Vec<Projectile>,
        rng: &mut StdRng,
        target: Point,
        elapsed: u64,
        dt: u64,
    ) -> (fired: Option<u64>)
        requires
            old(self).wf(),
            target.wf(),
        ensures
            final(self).wf(),
            final(self).boss.particle_timer == old(self).boss.particle_timer.ticked(dt as int),
            final(self).boss.health == old(self).boss.health,
            final(self).line == old(self).line,
            final(self).position == old(self).position,
            fired is Some <==> old(self).boss.particle_timer.fires(dt as int),
            projectiles_wf(old(out)@) ==> projectiles_wf(final(out)@),
            match fired {
                Some(p) => p < 8 && launched(
                    old(out)@,
                    final(out)@,
                    pattern_count(p as int),
                    old(self).position,
                    pattern_color_spec(p as int),
                ) && paced(old(out)@, final(out)@, p as int),
                None => final(out)@ == old(out)@,
            },
    {
        if !self.boss.particle_timer.tick(dt) {
            return None;
        }
        let pattern = roll(rng, 0, 8);
        let dx: i64 = target.x - self.position.x;
        let dy: i64 = target.y - self.position.y;
        let aim = heading_toward(dx, dy);
        let ghost before = out@;
        attack_pattern(out, rng, pattern, self.position, aim, elapsed);
        proof {
            if projectiles_wf(before) {
                lemma_launched_wf(
                    before,
                    out@,
                    pattern_count(pattern as int),
                    self.position,
                    pattern_color_spec(pattern as int),
                );
            }
        }
        Some(pattern)
    }

    /// The text the player has to type next: the current line, or
    /// "DEFEATED!" once every line is typed.
    pub fn challenge_text(&self) -> (r: String)
        requires
            self.wf(),
        ensures
            r@ == self.challenge(),
    {
        if self.line.current_line_index < self.line.lines.len() {
            self.line.lines[self.line.current_line_index].clone()
        } else {
            "DEFEATED!".to_owned()
        }
    }

    /// Resolves a submitted text against the current line. When it matches,
    /// the boss loses one health, the next line becomes current, and the
    /// score grows by the line's length in bytes times 100 times the combo
    /// plus one; when it does not, the combo is lost.
    pub fn boss_typing_system(&mut self, ship: &mut Ship, typed: &str, difficulty: Difficulty) -> (r: BossStrike)
        requires
            old(self).wf(),
            old(self).boss.health > 0,
        ensures
            final(self).wf(),
            r == BossStrike::Wrong <==> !matches_spec(difficulty, old(self).challenge(), typed@),
            r == BossStrike::Wrong ==> *final(ship) == (Ship { combo: 0, ..*old(ship) }) && *final(self)
                == *old(self),
            r != BossStrike::Wrong ==> line_typed(*old(self), *final(self)) && *final(ship) == line_rewarded(
                *old(ship),
                old(self).challenge(),
            ),
            r == BossStrike::Defeated <==> (r != BossStrike::Wrong && final(self).boss.health == 0),
            final(self).line.lines@ == old(self).line.lines@,
            final(self).boss.max_health == old(self).boss.max_health,
            final(self).boss.particle_timer == old(self).boss.particle_timer,
            final(self).position == old(self).position,
    {
        let idx = self.line.current_line_index;
        let line = &self.line.lines[idx];
        if !text_matches(difficulty, line.as_str(), typed) {
            ship.combo = 0;
            return BossStrike::Wrong;
        }
        let text = line.as_str();
        let len: usize = text.len();
        assert(len == byte_len(line@)) by {
            assert(text.spec_bytes() == encode_utf8(text@));
        }
        self.boss.health = self.boss.health - 1;
        self.line.current_line_index = idx + 1;
        assert(len * 100 * (ship.combo + 1) <= 0x1_0000_0000_0000_0000 * 100 * 0x1_0000_0001) by (nonlinear_arith)
            requires len <= 0x1_0000_0000_0000_0000, ship.combo <= 0xffff_ffff;
        let gain: u128 = len as u128 * 100 * (ship.combo as u128 + 1);
        let total: u128 = ship.score as u128 + gain;
        ship.score = if total > u32::MAX as u128 { u32::MAX } else { total as u32 };
        ship.combo = if ship.combo == u32::MAX { u32::MAX } else { ship.combo + 1 };
        if self.boss.health == 0 {
            BossStrike::Defeated
        } else {
            BossStrike::Hit
        }
    }
}

} // verus!
