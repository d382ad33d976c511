//! The game context: every piece of simulation state in one place, the
//! spawner, and the fixed-order tick that runs the systems.

use crate::boss::{
    launched, line_rewarded, line_typed, paced, pattern_color_spec, pattern_count, spawn_boss, ActiveBoss, BossStrike,
    BossWarningTimer,
};
use crate::combat::{
    boss_collision_system, collision_system, enemy_bullet_collision, first_near, hurt, resolve_submission, shot,
    strike_effects, strike_outcome, touching, untouched, Strike,
};
use crate::content::{views, ContentManager};
use crate::enemy::{
    CONTACT_RADIUS,
    enemies_wf, enemy_movement, firing, flown, near, projectile_movement, projectiles_wf, shooting_enemy_fire_system, Enemy, Health,
    Projectile, ShootTimer, Word, SLOW_RADIUS,
};
use crate::geometry::{cos_milli, sin_milli, sin_spec, Point};
use crate::items::{fallen_items, healed, out_of_reach, reached, health_item_collection, health_item_movement, items_wf, spawn_periodic_items, HealthItem};
use crate::particles::{burst_in, extends, updated, Particle, ParticleEngine, ParticleType, Rgb};
use crate::player::{Ship, Steer, Weapon};
use crate::random::{chance, roll};
use crate::state::{Difficulty, GameState};
use crate::text::{edited, matches_spec, trim_of, Key, KeyEvent, TypingBuffer};
use crate::timer::{Timer, TimerMode};
use crate::wave::{is_boss_wave, Wave};
use rand::rngs::StdRng;
use vstd::prelude::*;

verus! {

/// Where the boss encounter stands.
pub enum BossPhase {
    /// Ordinary waves.
    Idle,
    /// Counting down before the boss appears.
    Warning(BossWarningTimer),
    /// The boss is alive.
    Active(ActiveBoss),
}

/// What the spawner did in a tick.
#[derive(Clone, Copy, Debug, PartialEq, Eq, Structural)]
pub enum SpawnEvent {
    Nothing,
    Spawned,
    BossWarning,
}

/// What a submitted text did.
#[derive(Clone, Copy, Debug, PartialEq, Eq, Structural)]
pub enum Submission {
    /// The buffer held only whitespace; nothing was submitted.
    Empty,
    /// The text was resolved against the enemies.
    Enemy(Strike),
    /// The text was resolved against the boss's current line.
    Boss(BossStrike),
}

/// Distance from the origin at which enemies appear, in units (a cosine in
/// thousandths times this gives a coordinate in thousandths of a unit).
pub const SPAWN_RADIUS: i64 = 500;

/// `e` is an enemy as the spawner makes it: on the spawn circle, with a
/// word the content may hand out, two health, and either the shooting kind
/// (speed 60, firing every 2.5 seconds) or the melee kind (speed 100).
pub open spec fn spawned_enemy(e: Enemy, content: ContentManager, difficulty: Difficulty) -> bool {
    &&& exists|deg: int|
        0 <= deg < 360 && e.position == #[trigger] circle_point(deg)
    &&& content.word_drawn(difficulty, e.word.text@)
    &&& e.word.typed_index == 0
    &&& e.health == Health { current: 2, max: 2 }
    &&& match e.shoot_timer {
        Some(t) => e.speed == 60 && t.timer == Timer::new_spec(2500, TimerMode::Repeating),
        None => e.speed == 100,
    }
}

/// The point of the spawn circle at `deg` degrees.
pub open spec fn circle_point(deg: int) -> Point {
    Point { x: (sin_spec((deg + 90) % 360) * SPAWN_RADIUS) as i64, y: (sin_spec(deg) * SPAWN_RADIUS) as i64 }
}

/// `b` is `a` with at most its typing buffer changed.
pub open spec fn only_buffer(a: Game, b: Game) -> bool {
    Game { typing_buffer: a.typing_buffer, ..b } == a
}

/// The buffer text of `a`, trimmed: what a submission sends.
pub open spec fn submitted(a: Game) -> Seq<char> {
    trim_of(a.typing_buffer.text@)
}

/// `b` and result `r` follow from submitting the buffer of `a` against the
/// enemies: nothing when it holds only whitespace; otherwise the strike of
/// `resolve_submission` with its particles, and an empty buffer.
pub open spec fn enemy_submitted(a: Game, b: Game, r: Submission) -> bool {
    if submitted(a).len() == 0 {
        r == Submission::Empty && b == a
    } else {
        &&& r is Enemy
        &&& strike_outcome(
            a.ship,
            a.enemies@,
            submitted(a),
            a.difficulty,
            r->Enemy_0,
            b.ship,
            b.enemies@,
            b.particles.particles@.len() - a.particles.particles@.len(),
        )
        &&& strike_effects(a.ship, a.enemies@, r->Enemy_0, a.particles.particles@, b.particles.particles@)
        &&& b.typing_buffer.text@.len() == 0
        &&& Game {
            ship: a.ship,
            enemies: a.enemies,
            particles: a.particles,
            typing_buffer: a.typing_buffer,
            ..b
        } == a
    }
}

/// `b` and result `r` follow from submitting the buffer of `a`, whose boss
/// is alive, against the boss's current line. Nothing happens for a buffer
/// of only whitespace. Otherwise the buffer empties, and: a wrong line costs
/// the combo; a right line that is not the last is a hit (one health, the
/// next line, the line's reward); the last line defeats the boss, with an
/// explosion of thirty at it, the next paragraph of content, the boss gone,
/// and no enemies owed by the wave.
pub open spec fn boss_submitted(a: Game, b: Game, r: Submission) -> bool {
    let ab = a.boss->Active_0;
    if submitted(a).len() == 0 {
        r == Submission::Empty && b == a
    } else {
        let right = matches_spec(a.difficulty, ab.challenge(), submitted(a));
        &&& b.typing_buffer.text@.len() == 0
        &&& r == Submission::Boss(
            if !right {
                BossStrike::Wrong
            } else if ab.boss.health == 1 {
                BossStrike::Defeated
            } else {
                BossStrike::Hit
            },
        )
        &&& !right ==> b.ship == Ship { combo: 0, ..a.ship } && Game {
            ship: a.ship,
            typing_buffer: a.typing_buffer,
            ..b
        } == a
        &&& right ==> b.ship == line_rewarded(a.ship, ab.challenge())
        &&& right && ab.boss.health > 1 ==> {
            &&& b.boss is Active
            &&& line_typed(ab, b.boss->Active_0)
            &&& Game { ship: a.ship, typing_buffer: a.typing_buffer, boss: a.boss, ..b } == a
        }
        &&& right && ab.boss.health == 1 ==> {
            &&& b.boss is Idle
            &&& b.wave == Wave { enemies_remaining: 0, ..a.wave }
            &&& b.content.paragraphs@ == a.content.paragraphs@
            &&& b.content.current_index == (a.content.current_index + 1) % (a.content.paragraphs.len() as int)
            &&& extends(a.particles.particles@, b.particles.particles@, 30)
            &&& burst_in(
                b.particles.particles@,
                a.particles.particles@.len() as int,
                30,
                ParticleType::Explosion,
                300,
                800,
                800,
                ab.position,
                Rgb { r: 204, g: 0, b: 204 },
                100,
                300,
            )
            &&& Game {
                ship: a.ship,
                typing_buffer: a.typing_buffer,
                boss: a.boss,
                wave: a.wave,
                content: a.content,
                particles: a.particles,
                ..b
            } == a
        }
    }
}

/// `b` and result `r` follow from key event `ev` in game `a`: releases do
/// nothing; Tab switches weapons; Enter submits against the boss while one
/// is alive, else against the enemies; Space submits against the enemies
/// when no boss is alive and the buffer holds more than whitespace, and
/// otherwise types a space; other keys edit the buffer.
pub open spec fn key_step(a: Game, b: Game, ev: KeyEvent, r: Submission) -> bool {
    if !ev.pressed {
        r == Submission::Empty && b == a
    } else {
        match ev.key {
            Key::Tab => r == Submission::Empty && b == Game {
                ship: Ship {
                    current_weapon: match a.ship.current_weapon {
                        Weapon::Blade => Weapon::Laser,
                        Weapon::Laser => Weapon::Blade,
                    },
                    ..a.ship
                },
                ..a
            },
            Key::Enter => if a.boss is Active {
                boss_submitted(a, b, r)
            } else {
                enemy_submitted(a, b, r)
            },
            Key::Space => if a.boss is Active || submitted(a).len() == 0 {
                r == Submission::Empty && only_buffer(a, b) && b.typing_buffer.text@ == edited(
                    a.typing_buffer.text@,
                    Key::Space,
                )
            } else {
                enemy_submitted(a, b, r)
            },
            _ => r == Submission::Empty && only_buffer(a, b) && b.typing_buffer.text@ == edited(
                a.typing_buffer.text@,
                ev.key,
            ),
        }
    }
}

/// `gs` runs through the states of a run of key events, `rs` through their
/// results: each state follows from the one before by its event.
pub open spec fn key_path(gs: Seq<Game>, rs: Seq<Submission>, events: Seq<KeyEvent>) -> bool {
    &&& gs.len() == events.len() + 1
    &&& rs.len() == events.len()
    &&& forall|k: int| 0 <= k < events.len() ==> #[trigger] key_step(gs[k], gs[k + 1], events[k], rs[k])
}

/// The game after a run of key events, each handled in turn.
pub open spec fn keys_done(a: Game, b: Game, events: Seq<KeyEvent>) -> bool {
    exists|gs: Seq<Game>, rs: Seq<Submission>| #[trigger] key_path(gs, rs, events) && gs[0] == a && gs.last() == b
}

/// `b` and `spawned` follow from running the boss countdown of `a` for `dt`:
/// outside the warning nothing happens; in it the countdown beats, and the
/// beat that brings the count to zero makes the boss appear, with the
/// current paragraph's lines, and the game run again.
pub open spec fn counted_down(a: Game, b: Game, dt: int, spawned: bool) -> bool {
    match a.boss {
        BossPhase::Warning(w) => {
            &&& spawned == (w.timer.fires(dt) && w.count == 1)
            &&& !spawned ==> b == Game {
                boss: BossPhase::Warning(
                    BossWarningTimer {
                        timer: w.timer.ticked(dt),
                        count: if w.timer.fires(dt) && w.count > 0 {
                            (w.count - 1) as u32
                        } else {
                            w.count
                        },
                    },
                ),
                ..a
            }
            &&& spawned ==> {
                &&& b.state == GameState::Running
                &&& b.boss is Active
                &&& views(b.boss->Active_0.line.lines@) == a.content.current_lines()
                &&& b.boss->Active_0.line.current_line_index == 0
                &&& b.boss->Active_0.boss.health == a.content.current_lines().len()
                &&& b.boss->Active_0.boss.max_health == a.content.current_lines().len()
                &&& b.boss->Active_0.boss.particle_timer == Timer::new_spec(3500, TimerMode::Repeating)
                &&& b.boss->Active_0.position == Point::origin_spec()
                &&& Game { boss: a.boss, state: a.state, ..b } == a
            }
        },
        _ => !spawned && b == a,
    }
}

/// What the spawner may do in a tick of `dt` to game `a`, making `b`; see
/// `Game::spawn_enemies`.
pub open spec fn spawner_step(a: Game, b: Game, dt: int, r: SpawnEvent) -> bool {
    &&& b.ship == a.ship
    &&& b.content == a.content
    &&& b.wave.current == a.wave.current
    &&& b.wave.timer == a.wave.timer
    &&& b.bullets == a.bullets
    &&& b.particles == a.particles
    &&& b.difficulty == a.difficulty
    &&& ({
        let w = a.wave;
        if w.enemies_remaining == 0 {
            r == SpawnEvent::Nothing && b == a
        } else if is_boss_wave(w.current as int) {
            if a.boss_alive() {
                r == SpawnEvent::Nothing && b == a
            } else {
                &&& r == SpawnEvent::BossWarning
                &&& b.wave.enemies_remaining == 0
                &&& b.state == GameState::BossWarning
                &&& b.boss == BossPhase::Warning(
                    BossWarningTimer { timer: Timer::new_spec(1000, TimerMode::Repeating), count: 3 },
                )
                &&& b.enemies@ == a.enemies@
            }
        } else {
            &&& b.spawn_timer == a.spawn_timer.ticked(dt)
            &&& b.state == a.state
            &&& if a.spawn_timer.fires(dt) {
                &&& r == SpawnEvent::Spawned
                &&& b.wave.enemies_remaining == w.enemies_remaining - 1
                &&& b.enemies@.len() == a.enemies@.len() + 1
                &&& b.enemies@.drop_last() == a.enemies@
                &&& spawned_enemy(b.enemies@.last(), a.content, a.difficulty)
            } else {
                &&& r == SpawnEvent::Nothing
                &&& b.wave.enemies_remaining == w.enemies_remaining
                &&& b.enemies@ == a.enemies@
            }
        }
    })
    &&& Game { enemies: a.enemies, wave: a.wave, spawn_timer: a.spawn_timer, state: a.state, boss: a.boss, ..b } == a
}

/// `b` follows from `a` by wave progression: the next wave starts when the
/// current one is spent, no enemy is alive, no boss encounter is under way,
/// and the wave number can still grow.
pub open spec fn wave_step(a: Game, b: Game, started: bool) -> bool {
    &&& started == (a.wave.can_advance() && a.wave.enemies_remaining == 0 && a.enemies@.len() == 0
        && a.boss is Idle)
    &&& b == if started {
        Game {
            wave: Wave {
                current: (a.wave.current + 1) as usize,
                enemies_remaining: crate::wave::enemy_count(a.wave.current + 1) as usize,
                timer: a.wave.timer,
            },
            ..a
        }
    } else {
        a
    }
}

/// The ship after a tick of flight: moved as `steer` holds the keys, and its
/// grace period run down by `dt`.
pub open spec fn ship_flown(ship: Ship, steer: Steer, dt: int) -> Ship {
    let m = ship.moved_by(steer, dt);
    Ship { invulnerability_timer: m.invulnerability_timer.ticked(dt), ..m }
}

/// `b` follows from `a` by the boss's attack timer running for `dt`: when it
/// fires, one of the eight patterns is launched from the boss.
pub open spec fn attack_step(a: Game, b: Game, dt: int) -> bool {
    match a.boss {
        BossPhase::Active(ab) => {
            let bb = b.boss->Active_0;
            &&& b.boss is Active
            &&& bb.boss.particle_timer == ab.boss.particle_timer.ticked(dt)
            &&& bb.boss.health == ab.boss.health
            &&& bb.boss.max_health == ab.boss.max_health
            &&& bb.line == ab.line
            &&& bb.position == ab.position
            &&& if ab.boss.particle_timer.fires(dt) {
                exists|p: int|
                    0 <= p < 8 && #[trigger] launched(
                        a.boss_particles@,
                        b.boss_particles@,
                        pattern_count(p),
                        ab.position,
                        pattern_color_spec(p),
                    ) && paced(a.boss_particles@, b.boss_particles@, p)
            } else {
                b.boss_particles@ == a.boss_particles@
            }
            &&& Game { boss: a.boss, boss_particles: a.boss_particles, ..b } == a
        },
        _ => b == a,
    }
}

/// Projectiles `ps` and ship `ship` before a contact check, `ps2` and
/// `ship2` after: unless the ship is invulnerable, the first projectile in
/// contact goes and the ship is shot, adding `burst` particles; with no
/// contact nothing changes.
pub open spec fn contact(
    ship: Ship,
    ps: Seq<Projectile>,
    parts: Seq<Particle>,
    ship2: Ship,
    ps2: Seq<Projectile>,
    parts2: Seq<Particle>,
    burst: int,
) -> bool {
    if !ship.is_invulnerable() && exists|j: int| #[trigger] first_near(ps, ship.position, j) {
        exists|j: int|
            #[trigger] first_near(ps, ship.position, j) && ps2 == ps.remove(j) && ship2 == shot(ship)
                && parts2.len() == parts.len() + burst
    } else {
        ship2 == ship && ps2 == ps && parts2 == parts
    }
}

/// The state after a damage check that took the ship's hit points from
/// `hp` to `hp2`: the game ends when they cross from above zero to zero or
/// below.
pub open spec fn after_damage(state: GameState, hp: i32, hp2: i32) -> GameState {
    if hp > 0 && hp2 <= 0 {
        GameState::GameOver
    } else {
        state
    }
}

/// `b` follows from `a` by the contact check of the boss's particles.
pub open spec fn boss_contact_step(a: Game, b: Game) -> bool {
    &&& contact(a.ship, a.boss_particles@, a.particles.particles@, b.ship, b.boss_particles@, b.particles.particles@, 10)
    &&& b.state == after_damage(a.state, a.ship.hp, b.ship.hp)
    &&& Game { ship: a.ship, boss_particles: a.boss_particles, particles: a.particles, state: a.state, ..b } == a
}

/// `b` follows from `a` by the contact check of the enemies' bullets.
pub open spec fn bullet_contact_step(a: Game, b: Game) -> bool {
    &&& contact(a.ship, a.bullets@, a.particles.particles@, b.ship, b.bullets@, b.particles.particles@, 8)
    &&& b.state == after_damage(a.state, a.ship.hp, b.ship.hp)
    &&& Game { ship: a.ship, bullets: a.bullets, particles: a.particles, state: a.state, ..b } == a
}

/// `b` follows from `a` by the contact check of the enemies themselves.
pub open spec fn enemy_contact_step(a: Game, b: Game) -> bool {
    &&& a.ship.is_invulnerable() ==> b.enemies@ == a.enemies@ && b.particles.particles@ == a.particles.particles@
        && Game { enemies: a.enemies, particles: a.particles, ..b } == a
    &&& !a.ship.is_invulnerable() ==> {
        let n = touching(a.enemies@, a.ship.position);
        &&& b.enemies@ == untouched(a.enemies@, a.ship.position)
        &&& b.ship == hurt(a.ship, n)
        &&& b.particles.particles@.len() == a.particles.particles@.len() + 12 * n
        &&& b.state == after_damage(a.state, a.ship.hp, b.ship.hp)
        &&& Game { ship: a.ship, enemies: a.enemies, particles: a.particles, state: a.state, ..b } == a
    }
}

/// `b` follows from `a` by the enemies closing in on the ship for `dt`; time
/// slows down when one of them ends up close.
pub open spec fn march_step(a: Game, b: Game, dt: int) -> bool {
    &&& b.enemies@.len() == a.enemies@.len()
    &&& forall|i: int|
        0 <= i < a.enemies@.len() ==> #[trigger] b.enemies@[i] == a.enemies@[i].moved(a.ship.position, dt)
    &&& b.slow_motion == exists|i: int|
        0 <= i < b.enemies@.len() && near(#[trigger] b.enemies@[i].position, a.ship.position, SLOW_RADIUS as int)
    &&& Game { enemies: a.enemies, slow_motion: a.slow_motion, ..b } == a
}

/// `b` follows from `a` by the shooting enemies' fire timers running for
/// `dt`, each that fires adding a bullet at its enemy.
pub open spec fn fire_step(a: Game, b: Game, dt: int) -> bool {
    &&& b.enemies@.len() == a.enemies@.len()
    &&& forall|i: int|
        0 <= i < a.enemies@.len() ==> {
            let e = #[trigger] a.enemies@[i];
            let f = b.enemies@[i];
            &&& f.position == e.position && f.word == e.word && f.health == e.health && f.speed == e.speed
            &&& match e.shoot_timer {
                Some(t) => f.shoot_timer == Some(ShootTimer { timer: t.timer.ticked(dt) }),
                None => f.shoot_timer.is_none(),
            }
        }
    &&& b.bullets@.len() == a.bullets@.len() + firing(a.enemies@, dt)
    &&& b.bullets@.take(a.bullets@.len() as int) == a.bullets@
    &&& Game { enemies: a.enemies, bullets: a.bullets, ..b } == a
}

/// `b` follows from `a` by the pickups of a tick of `dt`: the pickup timer
/// runs (adding a pickup when it fires), the pickups fall, and those within
/// reach of the ship heal it.
pub open spec fn pickup_step(a: Game, b: Game, dt: int) -> bool {
    exists|dropped: Seq<HealthItem>|
        {
            &&& if a.item_timer.fires(dt) {
                dropped.drop_last() == a.items@ && dropped.len() == a.items@.len() + 1
            } else {
                dropped == a.items@
            }
            &&& b.item_timer == a.item_timer.ticked(dt)
            &&& b.items@ == out_of_reach(#[trigger] fallen_items(dropped, dt), a.ship.position)
            &&& b.ship == Ship {
                hp: healed(a.ship.hp, reached(fallen_items(dropped, dt), a.ship.position)),
                ..a.ship
            }
            &&& b.particles.particles@.len() == a.particles.particles@.len() + 12 * reached(
                fallen_items(dropped, dt),
                a.ship.position,
            )
            &&& Game { item_timer: a.item_timer, items: a.items, ship: a.ship, particles: a.particles, ..b } == a
        }
}

/// Link `k` of a running tick, from `a` to `b`: the key events, the ship's
/// flight, the boss's attack, its particles' flight, their contact, the
/// spawner, the enemies' approach, wave progression, enemy fire, bullet
/// flight, bullet contact, enemy contact, the pickups, and the particles.
pub open spec fn tick_link(k: int, a: Game, b: Game, events: Seq<KeyEvent>, steer: Steer, dt: int) -> bool {
    if k == 0 {
        keys_done(a, b, events)
    } else if k == 1 {
        b == Game { ship: ship_flown(a.ship, steer, dt), ..a }
    } else if k == 2 {
        attack_step(a, b, dt)
    } else if k == 3 {
        b.boss_particles@ == flown(a.boss_particles@, dt) && Game { boss_particles: a.boss_particles, ..b } == a
    } else if k == 4 {
        boss_contact_step(a, b)
    } else if k == 5 {
        exists|r: SpawnEvent| #[trigger] spawner_step(a, b, dt, r)
    } else if k == 6 {
        march_step(a, b, dt)
    } else if k == 7 {
        exists|started: bool| #[trigger] wave_step(a, b, started)
    } else if k == 8 {
        if a.bullets@.len() + a.enemies@.len() <= usize::MAX {
            fire_step(a, b, dt)
        } else {
            b == a
        }
    } else if k == 9 {
        b.bullets@ == flown(a.bullets@, dt) && Game { bullets: a.bullets, ..b } == a
    } else if k == 10 {
        bullet_contact_step(a, b)
    } else if k == 11 {
        enemy_contact_step(a, b)
    } else if k == 12 {
        pickup_step(a, b, dt)
    } else {
        b.particles.particles@ == updated(a.particles.particles@, dt) && Game { particles: a.particles, ..b } == a
    }
}

/// The links whose damage can end the game.
pub open spec fn is_contact_link(k: int) -> bool {
    k == 4 || k == 10 || k == 11
}

/// `gs` is the run of states through a running tick: each state follows
/// from the one before by its link; the tick stops early right after a
/// contact link that ended the game, and otherwise passes all 14 links.
pub open spec fn tick_path(gs: Seq<Game>, events: Seq<KeyEvent>, steer: Steer, dt: int) -> bool {
    &&& 2 <= gs.len() <= 15
    &&& forall|k: int| 0 <= k < gs.len() - 1 ==> #[trigger] tick_link(k, gs[k], gs[k + 1], events, steer, dt)
    &&& forall|k: int|
        0 <= k < gs.len() - 2 ==> !(is_contact_link(k) && (#[trigger] gs[k + 1]).state == GameState::GameOver
            && gs[k].state != GameState::GameOver)
    &&& gs.len() < 15 ==> is_contact_link(gs.len() - 2) && gs.last().state == GameState::GameOver
        && gs[gs.len() - 2].state != GameState::GameOver
}

/// The pace of a tick of `dt` milliseconds of real time.
pub open spec fn paced_dt(slow_motion: bool, dt: int) -> int {
    if slow_motion {
        dt / 2
    } else {
        dt
    }
}

/// Simulated time after adding `step`, at most `u64::MAX`.
pub open spec fn later(elapsed: u64, step: int) -> u64 {
    if elapsed + step > u64::MAX {
        u64::MAX
    } else {
        (elapsed + step) as u64
    }
}

/// `gs` is the start of a running tick: each state follows from the one
/// before by its link, and no contact so far has ended the game.
pub open spec fn path_prefix(gs: Seq<Game>, events: Seq<KeyEvent>, steer: Steer, dt: int) -> bool {
    &&& 1 <= gs.len() <= 15
    &&& forall|k: int| 0 <= k < gs.len() - 1 ==> #[trigger] tick_link(k, gs[k], gs[k + 1], events, steer, dt)
    &&& forall|k: int|
        0 <= k < gs.len() - 1 ==> !(is_contact_link(k) && (#[trigger] gs[k + 1]).state == GameState::GameOver
            && gs[k].state != GameState::GameOver)
}

proof fn lemma_path_push(gs: Seq<Game>, b: Game, events: Seq<KeyEvent>, steer: Steer, dt: int)
    requires
        path_prefix(gs, events, steer, dt),
        gs.len() < 15,
        tick_link(gs.len() - 1, gs.last(), b, events, steer, dt),
    ensures
        gs.push(b)[0] == gs[0],
        gs.push(b).last() == b,
        path_prefix(gs.push(b), events, steer, dt) || (is_contact_link(gs.len() - 1) && b.state
            == GameState::GameOver && gs.last().state != GameState::GameOver && tick_path(
            gs.push(b),
            events,
            steer,
            dt,
        )),
{
    let hs = gs.push(b);
    assert forall|k: int| 0 <= k < hs.len() - 1 implies #[trigger] tick_link(k, hs[k], hs[k + 1], events, steer, dt) by {
        if k < gs.len() - 1 {
            assert(hs[k] == gs[k] && hs[k + 1] == gs[k + 1]);
        } else {
            assert(hs[k] == gs.last() && hs[k + 1] == b);
        }
    }
    assert forall|k: int| 0 <= k < gs.len() - 1 implies !(is_contact_link(k) && (#[trigger] hs[k + 1]).state
        == GameState::GameOver && hs[k].state != GameState::GameOver) by {
        assert(hs[k] == gs[k] && hs[k + 1] == gs[k + 1]);
    }
    assert(hs[gs.len() - 1] == gs.last());
}

proof fn lemma_path_done(gs: Seq<Game>, events: Seq<KeyEvent>, steer: Steer, dt: int)
    requires
        path_prefix(gs, events, steer, dt),
        gs.len() == 15,
    ensures
        tick_path(gs, events, steer, dt),
{
}

pub struct Game {
    pub state: GameState,
    pub difficulty: Difficulty,
    pub ship: Ship,
    pub enemies: Vec<Enemy>,
    pub bullets: Vec<Projectile>,
    pub boss: BossPhase,
    pub boss_particles: Vec<Projectile>,
    pub particles: ParticleEngine,
    pub items: Vec<HealthItem>,
    pub item_timer: Timer,
    pub wave: Wave,
    pub spawn_timer: Timer,
    pub content: ContentManager,
    pub typing_buffer: TypingBuffer,
    /// Whether an enemy came within the slow-down distance last tick, which
    /// halves the pace of the simulation.
    pub slow_motion: bool,
    /// Simulated milliseconds since the session started.
    pub elapsed: u64,
}

impl BossPhase {
    pub open spec fn wf(self) -> bool {
        match self {
            BossPhase::Idle => true,
            BossPhase::Warning(w) => w.wf(),
            BossPhase::Active(b) => b.wf() && b.boss.health > 0,
        }
    }
}

impl Game {
    pub open spec fn wf(self) -> bool {
        &&& self.ship.wf()
        &&& enemies_wf(self.enemies@)
        &&& projectiles_wf(self.bullets@)
        &&& projectiles_wf(self.boss_particles@)
        &&& self.particles.wf()
        &&& items_wf(self.items@)
        &&& self.item_timer.wf()
        &&& self.wave.wf()
        &&& self.spawn_timer.wf()
        &&& self.spawn_timer.mode == TimerMode::Repeating
        &&& self.content.wf()
        &&& self.boss.wf()
    }

    /// A fresh session on the given content and difficulty.
    pub fn new(content: ContentManager, difficulty: Difficulty) -> (r: Game)
        requires
            content.wf(),
        ensures
            r.wf(),
            r.state == GameState::Running,
            r.difficulty == difficulty,
            r.wave.current == 1,
            r.wave.enemies_remaining == 5,
            r.ship.hp == 3,
            r.ship.score == 0,
            r.enemies@.len() == 0,
            r.boss is Idle,
    {
        Game {
            state: GameState::Running,
            difficulty,
            ship: Ship::default(),
            enemies: Vec::new(),
            bullets: Vec::new(),
            boss: BossPhase::Idle,
            boss_particles: Vec::new(),
            particles: ParticleEngine::new(),
            items: Vec::new(),
            item_timer: Timer::new(17_000, TimerMode::Repeating),
            wave: Wave::default(),
            spawn_timer: Timer::new(2000, TimerMode::Repeating),
            content,
            typing_buffer: TypingBuffer::new(),
            slow_motion: false,
            elapsed: 0,
        }
    }

    /// Starts the session over: the ship, the wave and the typing buffer
    /// return to their defaults and every enemy, projectile and boss goes.
    pub fn reset_game_on_start(&mut self)
        requires
            old(self).wf(),
        ensures
            final(self).wf(),
            final(self).state == GameState::Running,
            final(self).wave.current == 1,
            final(self).wave.enemies_remaining == 5,
            final(self).ship == Ship::initial(),
            final(self).enemies@.len() == 0,
            final(self).bullets@.len() == 0,
            final(self).boss_particles@.len() == 0,
            final(self).boss is Idle,
            final(self).typing_buffer.text@.len() == 0,
            final(self).content == old(self).content,
            final(self).difficulty == old(self).difficulty,
    {
        self.state = GameState::Running;
        self.ship = Ship::default();
        self.enemies = Vec::new();
        self.bullets = Vec::new();
        self.boss = BossPhase::Idle;
        self.boss_particles = Vec::new();
        self.wave = Wave::default();
        self.typing_buffer.clear();
        self.slow_motion = false;
    }

    pub open spec fn boss_alive(self) -> bool {
        self.boss is Active
    }

    /// The spawner: on a boss wave with enemies still owed and no boss yet,
    /// it drops the remaining count to zero and starts the boss warning; on
    /// another wave with enemies owed, it runs the spawn timer and, when the
    /// timer fires, adds one enemy (shooting at odds of 3 in 10) and counts
    /// it off.
    pub fn spawn_enemies(&mut self, rng: &mut StdRng, dt: u64) -> (r: SpawnEvent)
        requires
            old(self).wf(),
        ensures
            final(self).wf(),
            spawner_step(*old(self), *final(self), dt as int, r),
    {
        if self.wave.enemies_remaining == 0 {
            return SpawnEvent::Nothing;
        }
        if self.wave.current % 10 == 0 {
            if let BossPhase::Active(_) = self.boss {
                return SpawnEvent::Nothing;
            }
            self.wave.enemies_remaining = 0;
            self.state = GameState::BossWarning;
            self.boss = BossPhase::Warning(BossWarningTimer::setup_boss_warning());
            return SpawnEvent::BossWarning;
        }
        if !self.spawn_timer.tick(dt) {
            return SpawnEvent::Nothing;
        }
        let deg = roll(rng, 0, 360) as u32;
        let x = cos_milli(deg) * SPAWN_RADIUS;
        let y = sin_milli(deg) * SPAWN_RADIUS;
        let text = self.content.get_word(self.difficulty, rng);
        let shooting = chance(rng, 3, 10);
        let e = if shooting {
            Enemy {
                position: Point { x, y },
                speed: 60,
                word: Word { text, typed_index: 0 },
                health: Health { current: 2, max: 2 },
                shoot_timer: Some(ShootTimer { timer: Timer::new(2500, TimerMode::Repeating) }),
            }
        } else {
            Enemy {
                position: Point { x, y },
                speed: 100,
                word: Word { text, typed_index: 0 },
                health: Health { current: 2, max: 2 },
                shoot_timer: None,
            }
        };
        proof {
            assert(e.position == circle_point(deg as int));
        }
        let ghost before = self.enemies@;
        self.enemies.push(e);
        proof {
            assert(self.enemies@.drop_last() =~= before);
            assert forall|k: int| 0 <= k < self.enemies@.len() implies #[trigger] self.enemies@[k].wf() by {
                if k < before.len() {
                    assert(self.enemies@[k] == before[k]);
                }
            }
        }
        self.wave.enemies_remaining = self.wave.enemies_remaining - 1;
        SpawnEvent::Spawned
    }

    /// Starts the next wave when the current one is spent, no enemy is alive
    /// and no boss encounter (warning or fight) is under way; returns whether
    /// it did.
    pub fn wave_progression(&mut self) -> (started: bool)
        requires
            old(self).wf(),
        ensures
            final(self).wf(),
            wave_step(*old(self), *final(self), started),
    {
        if !self.wave_can_advance() {
            return false;
        }
        let encounter = match self.boss {
            BossPhase::Idle => false,
            _ => true,
        };
        let enemies_alive = self.enemies.len() > 0;
        self.wave.wave_progression(enemies_alive, encounter)
    }

    fn wave_can_advance(&self) -> (r: bool)
        ensures
            r == self.wave.can_advance(),
    {
        if self.wave.current < 10 {
            true
        } else {
            self.wave.current - 10 < (usize::MAX - 37) / 2
        }
    }

    /// Acts on one key event: a press of Tab switches weapons; Enter submits
    /// the buffer (against the boss while one is alive, else against the
    /// enemies); Space submits against the enemies when there is no boss and
    /// the buffer holds more than whitespace, and otherwise types a space;
    /// other keys edit the buffer. Releases do nothing.
    pub fn handle_key(&mut self, rng: &mut StdRng, ev: KeyEvent) -> (r: Submission)
        requires
            old(self).wf(),
        ensures
            final(self).wf(),
            key_step(*old(self), *final(self), ev, r),
            final(self).state == old(self).state,
    {
        if !ev.pressed {
            return Submission::Empty;
        }
        let boss_alive = match self.boss {
            BossPhase::Active(_) => true,
            _ => false,
        };
        match ev.key {
            Key::Tab => {
                self.ship.weapon_switching();
                Submission::Empty
            },
            Key::Enter => {
                if boss_alive {
                    self.boss_typing_system(rng)
                } else {
                    self.typing_system(rng)
                }
            },
            Key::Space => {
                if boss_alive || self.typing_buffer.trimmed().is_empty() {
                    self.typing_buffer.apply_key(Key::Space);
                    Submission::Empty
                } else {
                    self.typing_system(rng)
                }
            },
            _ => {
                self.typing_buffer.apply_key(ev.key);
                Submission::Empty
            },
        }
    }

    /// Runs the boss warning countdown; when it ends, the boss appears with
    /// the current paragraph's lines and the game runs again. Returns whether
    /// the boss appeared.
    pub fn boss_warning_countdown(&mut self, dt: u64) -> (spawned: bool)
        requires
            old(self).wf(),
        ensures
            final(self).wf(),
            counted_down(*old(self), *final(self), dt as int, spawned),
    {
        let mut spawn = false;
        match &mut self.boss {
            BossPhase::Warning(w) => {
                spawn = w.boss_warning_countdown(dt);
            },
            _ => {
                return false;
            },
        }
        if spawn {
            let lines = self.content.get_current_lines();
            self.boss = BossPhase::Active(spawn_boss(lines));
            self.state = GameState::Running;
        }
        spawn
    }

    /// Handles the key events of a tick, in order.
    fn input(&mut self, rng: &mut StdRng, events: &Vec<KeyEvent>)
        requires
            old(self).wf(),
        ensures
            final(self).wf(),
            final(self).state == old(self).state,
            keys_done(*old(self), *final(self), events@),
    {
        let ghost mut gs: Seq<Game> = seq![*self];
        let ghost mut rs: Seq<Submission> = Seq::empty();
        let mut i: usize = 0;
        while i < events.len()
            invariant
                i <= events.len(),
                self.wf(),
                self.state == old(self).state,
                key_path(gs, rs, events@.take(i as int)),
                gs[0] == *old(self),
                gs.last() == *self,
            decreases events.len() - i,
        {
            let ghost before = *self;
            let r = self.handle_key(rng, events[i]);
            proof {
                let t = events@.take(i + 1);
                let gs2 = gs.push(*self);
                let rs2 = rs.push(r);
                assert forall|k: int| 0 <= k < t.len() implies #[trigger] key_step(gs2[k], gs2[k + 1], t[k], rs2[k]) by {
                    if k < i {
                        assert(gs2[k] == gs[k] && gs2[k + 1] == gs[k + 1] && rs2[k] == rs[k]);
                        assert(t[k] == events@.take(i as int)[k]);
                    } else {
                        assert(gs2[k] == before && gs2[k + 1] == *self && rs2[k] == r);
                    }
                }
                gs = gs2;
                rs = rs2;
            }
            i = i + 1;
        }
        assert(events@.take(events.len() as int) =~= events@);
    }

    /// Flies the ship and runs down its grace period.
    fn fly_ship(&mut self, steer: Steer, dt: u64)
        requires
            old(self).wf(),
        ensures
            final(self).wf(),
            *final(self) == (Game { ship: ship_flown(old(self).ship, steer, dt as int), ..*old(self) }),
    {
        self.ship.player_movement(steer, dt);
        self.ship.update_invulnerability(dt);
    }

    /// Runs the live boss's attack timer.
    fn boss_attack(&mut self, rng: &mut StdRng, dt: u64)
        requires
            old(self).wf(),
        ensures
            final(self).wf(),
            attack_step(*old(self), *final(self), dt as int),
    {
        let target = self.ship.position;
        let elapsed = self.elapsed;
        match &mut self.boss {
            BossPhase::Active(b) => {
                let fired = b.boss_particle_system(&mut self.boss_particles, rng, target, elapsed, dt);
                proof {
                    match fired {
                        Some(p) => {
                            assert(launched(
                                old(self).boss_particles@,
                                self.boss_particles@,
                                pattern_count(p as int),
                                old(self).boss->Active_0.position,
                                pattern_color_spec(p as int),
                            ));
                        },
                        None => {},
                    }
                }
            },
            _ => {},
        }
    }

    /// Flies the boss's particles.
    fn fly_boss_particles(&mut self, dt: u64)
        requires
            old(self).wf(),
        ensures
            final(self).wf(),
            final(self).boss_particles@ == flown(old(self).boss_particles@, dt as int),
            (Game { boss_particles: old(self).boss_particles, ..*final(self) }) == *old(self),
    {
        projectile_movement(&mut self.boss_particles, dt);
    }

    /// Checks the boss's particles for contact; returns whether the game ended.
    fn boss_contact(&mut self, rng: &mut StdRng) -> (over: bool)
        requires
            old(self).wf(),
        ensures
            final(self).wf(),
            boss_contact_step(*old(self), *final(self)),
            over == (final(self).state == GameState::GameOver && old(self).state != GameState::GameOver),
    {
        let hp = self.ship.hp;
        let hit = boss_collision_system(&mut self.ship, &mut self.boss_particles, &mut self.particles, rng);
        proof {
            let a = *old(self);
            match hit {
                Some(j) => {
                    assert(first_near(a.boss_particles@, a.ship.position, j as int));
                },
                None => {
                    if !a.ship.is_invulnerable() {
                        assert forall|j: int| !#[trigger] first_near(a.boss_particles@, a.ship.position, j) by {
                            if 0 <= j < a.boss_particles@.len() {
                                assert(!near(a.boss_particles@[j].position, a.ship.position, CONTACT_RADIUS as int));
                            }
                        }
                    }
                },
            }
        }
        if hp > 0 && self.ship.hp <= 0 {
            let over = self.state != GameState::GameOver;
            self.state = GameState::GameOver;
            over
        } else {
            false
        }
    }

    /// Moves the enemies toward the ship and decides the slow motion.
    fn march(&mut self, dt: u64)
        requires
            old(self).wf(),
        ensures
            final(self).wf(),
            march_step(*old(self), *final(self), dt as int),
    {
        let target = self.ship.position;
        self.slow_motion = enemy_movement(&mut self.enemies, target, dt);
    }

    /// Runs the shooting enemies' fire timers, when the bullets still fit.
    fn enemy_fire(&mut self, dt: u64)
        requires
            old(self).wf(),
        ensures
            final(self).wf(),
            old(self).bullets@.len() + old(self).enemies@.len() <= usize::MAX ==> fire_step(
                *old(self),
                *final(self),
                dt as int,
            ),
            old(self).bullets@.len() + old(self).enemies@.len() > usize::MAX ==> *final(self) == *old(self),
    {
        if self.bullets.len() <= usize::MAX - self.enemies.len() {
            let target = self.ship.position;
            let _ = shooting_enemy_fire_system(&mut self.enemies, &mut self.bullets, target, dt);
        }
    }

    /// Flies the enemies' bullets.
    fn fly_bullets(&mut self, dt: u64)
        requires
            old(self).wf(),
        ensures
            final(self).wf(),
            final(self).bullets@ == flown(old(self).bullets@, dt as int),
            (Game { bullets: old(self).bullets, ..*final(self) }) == *old(self),
    {
        projectile_movement(&mut self.bullets, dt);
    }

    /// Checks the enemies' bullets for contact; returns whether the game ended.
    fn bullet_contact(&mut self, rng: &mut StdRng) -> (over: bool)
        requires
            old(self).wf(),
        ensures
            final(self).wf(),
            bullet_contact_step(*old(self), *final(self)),
            over == (final(self).state == GameState::GameOver && old(self).state != GameState::GameOver),
    {
        let hp = self.ship.hp;
        let hit = enemy_bullet_collision(&mut self.ship, &mut self.bullets, &mut self.particles, rng);
        proof {
            let a = *old(self);
            match hit {
                Some(j) => {
                    assert(first_near(a.bullets@, a.ship.position, j as int));
                },
                None => {
                    if !a.ship.is_invulnerable() {
                        assert forall|j: int| !#[trigger] first_near(a.bullets@, a.ship.position, j) by {
                            if 0 <= j < a.bullets@.len() {
                                assert(!near(a.bullets@[j].position, a.ship.position, CONTACT_RADIUS as int));
                            }
                        }
                    }
                },
            }
        }
        if hp > 0 && self.ship.hp <= 0 {
            let over = self.state != GameState::GameOver;
            self.state = GameState::GameOver;
            over
        } else {
            false
        }
    }

    /// Checks the enemies for contact; returns whether the game ended.
    fn enemy_contact(&mut self, rng: &mut StdRng) -> (over: bool)
        requires
            old(self).wf(),
        ensures
            final(self).wf(),
            enemy_contact_step(*old(self), *final(self)),
            over == (final(self).state == GameState::GameOver && old(self).state != GameState::GameOver),
    {
        let hp = self.ship.hp;
        let ended = collision_system(&mut self.ship, &mut self.enemies, &mut self.particles, rng);
        if ended {
            let over = self.state != GameState::GameOver;
            self.state = GameState::GameOver;
            over
        } else {
            proof {
                if !old(self).ship.is_invulnerable() && hp > 0 && self.ship.hp <= 0 {
                    assert(touching(old(self).enemies@, old(self).ship.position) > 0) by {
                        if touching(old(self).enemies@, old(self).ship.position) == 0 {
                            assert(self.ship == old(self).ship);
                        }
                    }
                }
            }
            false
        }
    }

    /// The pickups of a tick: the timer, the fall, and the collection.
    fn pickups(&mut self, rng: &mut StdRng, dt: u64)
        requires
            old(self).wf(),
        ensures
            final(self).wf(),
            pickup_step(*old(self), *final(self), dt as int),
    {
        let _ = spawn_periodic_items(&mut self.item_timer, &mut self.items, rng, dt);
        let ghost dropped = self.items@;
        health_item_movement(&mut self.items, dt);
        let _ = health_item_collection(&mut self.ship, &mut self.items, &mut self.particles, rng);
        assert(fallen_items(dropped, dt as int) == fallen_items(dropped, dt as int));
    }

    /// One simulation tick of `dt` milliseconds of real time, paced at half
    /// speed in slow motion. While the game runs, the systems run in a fixed
    /// order, each a link of `tick_link`: key events in the order they came,
    /// the ship's flight as `steer` holds the arrow keys and its grace
    /// period, the boss's attacks, their flight and contact, the spawner,
    /// enemy movement (which decides the slow motion of the next tick), wave
    /// progression, enemy fire, bullet flight and contact, enemy contact, the
    /// pickups, and the particles; a contact that ends the game ends the
    /// tick. During the boss warning only the countdown runs; in any other
    /// state nothing does. Returns whether the game ended in this tick.
    #[verifier::rlimit(100)]
    pub fn tick(&mut self, rng: &mut StdRng, dt: u64, events: &Vec<KeyEvent>, steer: Steer) -> (game_over: bool)
        requires
            old(self).wf(),
        ensures
            final(self).wf(),
            old(self).state != GameState::Running && old(self).state != GameState::BossWarning ==> *final(self)
                == *old(self) && !game_over,
            ({
                let step = paced_dt(old(self).slow_motion, dt as int);
                let start = Game { elapsed: later(old(self).elapsed, step), ..*old(self) };
                &&& old(self).state == GameState::BossWarning ==> exists|spawned: bool|
                    #[trigger] counted_down(start, *final(self), step, spawned)
                &&& old(self).state == GameState::Running ==> exists|gs: Seq<Game>|
                    #[trigger] tick_path(gs, events@, steer, step) && gs[0] == start && gs.last() == *final(self)
            }),
            game_over == (old(self).state == GameState::Running && final(self).state == GameState::GameOver),
            game_over ==> final(self).ship.hp <= 0,
    {
        let start = self.state;
        if start != GameState::Running && start != GameState::BossWarning {
            return false;
        }
        let step: u64 = if self.slow_motion { dt / 2 } else { dt };
        self.elapsed = if self.elapsed > u64::MAX - step { u64::MAX } else { self.elapsed + step };
        let ghost g0 = *self;
        assert(step == paced_dt(old(self).slow_motion, dt as int));
        assert(g0 == Game { elapsed: later(old(self).elapsed, step as int), ..*old(self) });
        if start == GameState::BossWarning {
            let spawned = self.boss_warning_countdown(step);
            assert(counted_down(g0, *self, step as int, spawned));
            return false;
        }
        let ghost mut gs: Seq<Game> = seq![*self];
        self.input(rng, events);
        proof { lemma_path_push(gs, *self, events@, steer, step as int); gs = gs.push(*self); }
        self.fly_ship(steer, step);
        proof { lemma_path_push(gs, *self, events@, steer, step as int); gs = gs.push(*self); }
        self.boss_attack(rng, step);
        proof { lemma_path_push(gs, *self, events@, steer, step as int); gs = gs.push(*self); }
        self.fly_boss_particles(step);
        proof { lemma_path_push(gs, *self, events@, steer, step as int); gs = gs.push(*self); }
        if self.boss_contact(rng) {
            proof {
                lemma_path_push(gs, *self, events@, steer, step as int);
                let hs = gs.push(*self);
                assert(hs[0] == g0 && hs.last() == *self);
                assert(tick_path(hs, events@, steer, step as int));
            }
            return true;
        }
        proof { lemma_path_push(gs, *self, events@, steer, step as int); gs = gs.push(*self); }
        let _ = self.spawn_enemies(rng, step);
        proof { lemma_path_push(gs, *self, events@, steer, step as int); gs = gs.push(*self); }
        self.march(step);
        proof { lemma_path_push(gs, *self, events@, steer, step as int); gs = gs.push(*self); }
        let _ = self.wave_progression();
        proof { lemma_path_push(gs, *self, events@, steer, step as int); gs = gs.push(*self); }
        self.enemy_fire(step);
        proof { lemma_path_push(gs, *self, events@, steer, step as int); gs = gs.push(*self); }
        self.fly_bullets(step);
        proof { lemma_path_push(gs, *self, events@, steer, step as int); gs = gs.push(*self); }
        if self.bullet_contact(rng) {
            proof {
                lemma_path_push(gs, *self, events@, steer, step as int);
                let hs = gs.push(*self);
                assert(hs[0] == g0 && hs.last() == *self);
                assert(tick_path(hs, events@, steer, step as int));
            }
            return true;
        }
        proof { lemma_path_push(gs, *self, events@, steer, step as int); gs = gs.push(*self); }
        if self.enemy_contact(rng) {
            proof {
                lemma_path_push(gs, *self, events@, steer, step as int);
                let hs = gs.push(*self);
                assert(hs[0] == g0 && hs.last() == *self);
                assert(tick_path(hs, events@, steer, step as int));
            }
            return true;
        }
        proof { lemma_path_push(gs, *self, events@, steer, step as int); gs = gs.push(*self); }
        self.pickups(rng, step);
        proof { lemma_path_push(gs, *self, events@, steer, step as int); gs = gs.push(*self); }
        self.particles.update_particles(step);
        proof { lemma_path_push(gs, *self, events@, steer, step as int); gs = gs.push(*self); lemma_path_done(gs, events@, steer, step as int); assert(gs[0] == g0); }
        false
    }

    /// Submits the trimmed buffer against the enemies and clears the buffer;
    /// a buffer of only whitespace submits nothing and stays as it is.
    pub fn typing_system(&mut self, rng: &mut StdRng) -> (r: Submission)
        requires
            old(self).wf(),
        ensures
            final(self).wf(),
            enemy_submitted(*old(self), *final(self), r),
    {
        let typed = self.typing_buffer.trimmed();
        if typed.is_empty() {
            return Submission::Empty;
        }
        let s = resolve_submission(
            &mut self.ship,
            &mut self.enemies,
            &mut self.particles,
            rng,
            typed,
            self.difficulty,
        );
        self.typing_buffer.clear();
        assert(strike_outcome(
            old(self).ship,
            old(self).enemies@,
            trim_of(old(self).typing_buffer.text@),
            old(self).difficulty,
            s,
            self.ship,
            self.enemies@,
            self.particles.particles@.len() - old(self).particles.particles@.len(),
        ));
        Submission::Enemy(s)
    }

    /// Submits the trimmed buffer against the live boss's current line and
    /// clears the buffer. When the last line is typed, the boss is defeated:
    /// a large explosion, the content moves to its next paragraph, the boss
    /// goes, and the wave owes no more enemies so that waves resume.
    pub fn boss_typing_system(&mut self, rng: &mut StdRng) -> (r: Submission)
        requires
            old(self).wf(),
            old(self).boss is Active,
        ensures
            final(self).wf(),
            boss_submitted(*old(self), *final(self), r),
    {
        let typed = self.typing_buffer.trimmed();
        if typed.is_empty() {
            return Submission::Empty;
        }
        let mut outcome = BossStrike::Wrong;
        let mut at = Point::origin();
        match &mut self.boss {
            BossPhase::Active(b) => {
                outcome = b.boss_typing_system(&mut self.ship, typed, self.difficulty);
                at = b.position;
            },
            _ => {},
        }
        self.typing_buffer.clear();
        if outcome == BossStrike::Defeated {
            self.particles.spawn_explosion(rng, at, Rgb { r: 204, g: 0, b: 204 }, 30);
            self.content.next_paragraph();
            self.boss = BossPhase::Idle;
            self.wave.enemies_remaining = 0;
        }
        Submission::Boss(outcome)
    }
}

} // verus!
