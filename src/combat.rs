//! Typed-input combat, and damage from contact with enemies and projectiles.

use crate::enemy::{enemies_wf, near, projectiles_wf, Enemy, Health, Projectile, CONTACT_RADIUS};
use crate::geometry::Point;
use crate::particles::{
    above, burst_in, extends, lemma_extends_index, lemma_extends_trans, trail_count, trail_in, trail_point, Particle,
    ParticleEngine, ParticleType, Rgb,
};
use crate::player::{kill_reward, Ship, Weapon};
use crate::state::Difficulty;
use crate::text::{lower_of, matches_spec, text_matches};
use crate::timer::{Timer, TimerMode};
use rand::rngs::StdRng;
use vstd::prelude::*;

verus! {

/// What a submitted text did.
#[derive(Clone, Copy, Debug, PartialEq, Eq, Structural)]
pub enum Strike {
    /// No enemy's text matched.
    Miss,
    /// The enemy at this index was destroyed.
    Kill(usize),
    /// The enemy at this index lost one health and lives on.
    Wound(usize),
}

pub open spec fn word_matches(e: Enemy, typed: Seq<char>, difficulty: Difficulty) -> bool {
    matches_spec(difficulty, e.word.text@, typed)
}

/// `i` is the first enemy whose text the typed text matches.
pub open spec fn first_match(es: Seq<Enemy>, typed: Seq<char>, difficulty: Difficulty, i: int) -> bool {
    &&& 0 <= i < es.len()
    &&& word_matches(es[i], typed, difficulty)
    &&& forall|k: int| 0 <= k < i ==> !word_matches(#[trigger] es[k], typed, difficulty)
}

pub open spec fn no_match(es: Seq<Enemy>, typed: Seq<char>, difficulty: Difficulty) -> bool {
    forall|k: int| 0 <= k < es.len() ==> !word_matches(#[trigger] es[k], typed, difficulty)
}

/// The enemy after a laser hit that it survives.
pub open spec fn wounded(e: Enemy) -> Enemy {
    Enemy { health: Health { current: (e.health.current - 1) as i32, ..e.health }, ..e }
}

/// The ship, enemies and number of new particles after a submission of
/// `typed` whose result was `r`, as `resolve_submission` promises.
pub open spec fn strike_outcome(
    ship: Ship,
    es: Seq<Enemy>,
    typed: Seq<char>,
    difficulty: Difficulty,
    r: Strike,
    ship2: Ship,
    es2: Seq<Enemy>,
    new_particles: int,
) -> bool {
    match r {
        Strike::Miss => {
            &&& no_match(es, typed, difficulty)
            &&& es2 == es
            &&& ship2 == Ship { combo: 0, ..ship }
            &&& new_particles == match ship.current_weapon {
                Weapon::Blade => 0int,
                Weapon::Laser => 12int,
            }
        },
        Strike::Kill(i) => {
            &&& first_match(es, typed, difficulty, i as int)
            &&& es2 == es.remove(i as int)
            &&& match ship.current_weapon {
                Weapon::Blade => {
                    &&& ship2 == Ship { position: es[i as int].position, ..ship.rewarded() }
                    &&& new_particles == trail_count(ship.position, es[i as int].position) + 20
                },
                Weapon::Laser => {
                    &&& es[i as int].health.current <= 1
                    &&& ship2 == ship.rewarded()
                    &&& new_particles == 15
                },
            }
        },
        Strike::Wound(i) => {
            &&& first_match(es, typed, difficulty, i as int)
            &&& ship.current_weapon == Weapon::Laser
            &&& es[i as int].health.current > 1
            &&& es2 == es.update(i as int, wounded(es[i as int]))
            &&& ship2 == ship
            &&& new_particles == 8
        },
    }
}

/// The particles a submission whose result was `r` adds to `ps`, making
/// `ps2`: nothing for a blade miss; twelve error particles above the ship
/// for a laser miss; for a blade kill the trail from the ship to the enemy
/// and an explosion of twenty at the enemy; for a laser kill an explosion of
/// fifteen at the enemy; for a wound eight hit sparks at the enemy.
pub open spec fn strike_effects(ship: Ship, es: Seq<Enemy>, r: Strike, ps: Seq<Particle>, ps2: Seq<Particle>) -> bool {
    match r {
        Strike::Miss => match ship.current_weapon {
            Weapon::Blade => ps2 == ps,
            Weapon::Laser => {
                &&& extends(ps, ps2, 12)
                &&& burst_in(
                    ps2,
                    ps.len() as int,
                    12,
                    ParticleType::Error,
                    300,
                    600,
                    600,
                    above(ship.position),
                    Rgb { r: 255, g: 51, b: 51 },
                    80,
                    200,
                )
            },
        },
        Strike::Kill(i) => {
            let at = es[i as int].position;
            match ship.current_weapon {
                Weapon::Blade => {
                    let tc = trail_count(ship.position, at);
                    &&& extends(ps, ps2, tc + 20)
                    &&& trail_in(ps2, ps.len() as int, ship.position, at)
                    &&& burst_in(
                        ps2,
                        ps.len() + tc,
                        20,
                        ParticleType::Explosion,
                        300,
                        800,
                        800,
                        at,
                        Rgb { r: 0, g: 255, b: 128 },
                        100,
                        300,
                    )
                },
                Weapon::Laser => {
                    &&& extends(ps, ps2, 15)
                    &&& burst_in(
                        ps2,
                        ps.len() as int,
                        15,
                        ParticleType::Explosion,
                        300,
                        800,
                        800,
                        at,
                        Rgb { r: 0, g: 204, b: 255 },
                        100,
                        300,
                    )
                },
            }
        },
        Strike::Wound(i) => {
            &&& extends(ps, ps2, 8)
            &&& burst_in(
                ps2,
                ps.len() as int,
                8,
                ParticleType::Hit,
                200,
                400,
                400,
                es[i as int].position,
                Rgb { r: 0, g: 204, b: 255 },
                50,
                150,
            )
        },
    }
}

/// Resolves a submitted text against the live enemies: the first enemy, in
/// order, whose text matches is struck with the current weapon; when none
/// matches, the combo is lost.
pub fn resolve_submission(
    ship: &mut Ship,
    enemies: &mut Vec<Enemy>,
    particles: &mut ParticleEngine,
    rng: &mut StdRng,
    typed: &str,
    difficulty: Difficulty,
) -> (r: Strike)
    requires
        old(ship).wf(),
        enemies_wf(old(enemies)@),
        old(particles).wf(),
    ensures
        final(ship).wf(),
        enemies_wf(final(enemies)@),
        final(particles).wf(),
        strike_outcome(
            *old(ship),
            old(enemies)@,
            typed@,
            difficulty,
            r,
            *final(ship),
            final(enemies)@,
            final(particles).particles@.len() - old(particles).particles@.len(),
        ),
        strike_effects(*old(ship), old(enemies)@, r, old(particles).particles@, final(particles).particles@),
{
    let mut i: usize = 0;
    let mut found = false;
    while i < enemies.len() && !found
        invariant
            i <= enemies.len(),
            found ==> i < enemies.len() && word_matches(enemies@[i as int], typed@, difficulty),
            forall|k: int| 0 <= k < i ==> !word_matches(#[trigger] enemies@[k], typed@, difficulty),
        decreases enemies.len() - i + (if found { 0int } else { 1int }),
    {
        if text_matches(difficulty, enemies[i].word.text.as_str(), typed) {
            found = true;
        } else {
            i = i + 1;
        }
    }
    let ghost es = enemies@;
    let ghost p0 = particles.particles@;
    if !found {
        ship.combo = 0;
        match ship.current_weapon {
            Weapon::Blade => {},
            Weapon::Laser => {
                particles.spawn_error_particles(rng, ship.position);
            },
        }
        return Strike::Miss;
    }
    assert(enemies@[i as int].wf());
    let target = enemies[i].position;
    match ship.current_weapon {
        Weapon::Blade => {
            let _ = enemies.remove(i);
            ship.reward_kill();
            let from = ship.position;
            particles.spawn_blade_trail(rng, from, target);
            let ghost p1 = particles.particles@;
            ship.position = target;
            particles.spawn_explosion(rng, target, Rgb { r: 0, g: 255, b: 128 }, 20);
            proof {
                let tc = trail_count(from, target);
                let p2 = particles.particles@;
                lemma_extends_trans(p0, p1, p2, tc, 20);
                assert forall|j: int|
                    p0.len() <= j < p0.len() + tc implies trail_point(#[trigger] p2[j], j - p0.len(), from, target) by {
                    lemma_extends_index(p1, p2, 20, j);
                }

                assert forall|k: int| 0 <= k < enemies@.len() implies #[trigger] enemies@[k].wf() by {
                    if k < i {
                        assert(enemies@[k] == es[k]);
                    } else {
                        assert(enemies@[k] == es[k + 1]);
                    }
                }
            }
            Strike::Kill(i)
        },
        Weapon::Laser => {
            let mut e = enemies.remove(i);
            if e.health.current <= 1 {
                ship.reward_kill();
                particles.spawn_explosion(rng, target, Rgb { r: 0, g: 204, b: 255 }, 15);
                proof {
                    assert forall|k: int| 0 <= k < enemies@.len() implies #[trigger] enemies@[k].wf() by {
                        if k < i {
                            assert(enemies@[k] == es[k]);
                        } else {
                            assert(enemies@[k] == es[k + 1]);
                        }
                    }
                }
                Strike::Kill(i)
            } else {
                e.health.current = e.health.current - 1;
                let ghost w = e;
                enemies.insert(i, e);
                assert(enemies@ =~= es.update(i as int, w));
                particles.spawn_laser_hit(rng, target);
                Strike::Wound(i)
            }
        },
    }
}

/// A submission that matches no enemy is a miss: the combo drops to zero
/// and every enemy keeps its health.
pub proof fn miss_law(
    ship: Ship,
    es: Seq<Enemy>,
    typed: Seq<char>,
    difficulty: Difficulty,
    r: Strike,
    ship2: Ship,
    es2: Seq<Enemy>,
    n: int,
)
    requires
        no_match(es, typed, difficulty),
        strike_outcome(ship, es, typed, difficulty, r, ship2, es2, n),
    ensures
        r == Strike::Miss,
        ship2.combo == 0,
        ship2.score == ship.score,
        es2.len() == es.len(),
        forall|k: int| 0 <= k < es.len() ==> #[trigger] es2[k].health == es[k].health,
{
    match r {
        Strike::Miss => {},
        Strike::Kill(i) => {
            assert(!word_matches(es[i as int], typed, difficulty));
        },
        Strike::Wound(i) => {
            assert(!word_matches(es[i as int], typed, difficulty));
        },
    }
}

/// Under `Hard`, typing exactly the text of enemy `i`, when no enemy before
/// it has that text, destroys it with the blade and adds `100 * (combo + 1)`
/// to the score (unless the score would pass `u32::MAX`).
pub proof fn blade_kill_law(
    ship: Ship,
    es: Seq<Enemy>,
    i: int,
    r: Strike,
    ship2: Ship,
    es2: Seq<Enemy>,
    n: int,
)
    requires
        0 <= i < es.len(),
        forall|k: int| 0 <= k < i ==> #[trigger] es[k].word.text@ != es[i].word.text@,
        ship.current_weapon == Weapon::Blade,
        ship.score + kill_reward(ship.combo) <= u32::MAX,
        strike_outcome(ship, es, es[i].word.text@, Difficulty::Hard, r, ship2, es2, n),
    ensures
        r == Strike::Kill(i as usize),
        es2 == es.remove(i),
        ship2.score == ship.score + 100 * (ship.combo + 1),
{
    let typed = es[i].word.text@;
    assert(first_match(es, typed, Difficulty::Hard, i));
    match r {
        Strike::Miss => {
            assert(word_matches(es[i], typed, Difficulty::Hard));
        },
        Strike::Kill(j) => {
            if j < i {
                assert(word_matches(es[j as int], typed, Difficulty::Hard));
            } else if j > i {
                assert(!word_matches(es[i], typed, Difficulty::Hard));
            }
        },
        Strike::Wound(j) => {},
    }
}

/// Under `Hard` with the laser, typing exactly the text of enemy `i` (no
/// enemy before it having that text) `h` times, where `h` is its health,
/// wounds it `h - 1` times without reward and destroys it on the last time,
/// which pays the kill reward: `ships`, `ess` and `rs` are the states and
/// results of those submissions, one after another.
pub proof fn laser_hits_law(
    ships: Seq<Ship>,
    ess: Seq<Seq<Enemy>>,
    rs: Seq<Strike>,
    ns: Seq<int>,
    i: int,
    h: int,
)
    requires
        h >= 1,
        ships.len() == h + 1,
        ess.len() == h + 1,
        rs.len() == h,
        ns.len() == h,
        0 <= i < ess[0].len(),
        ess[0][i].health.current == h,
        forall|k: int| 0 <= k < i ==> #[trigger] ess[0][k].word.text@ != ess[0][i].word.text@,
        ships[0].current_weapon == Weapon::Laser,
        forall|k: int|
            0 <= k < h ==> #[trigger] strike_outcome(
                ships[k],
                ess[k],
                ess[0][i].word.text@,
                Difficulty::Hard,
                rs[k],
                ships[k + 1],
                ess[k + 1],
                ns[k],
            ),
    ensures
        forall|k: int| 0 <= k < h - 1 ==> #[trigger] rs[k] == Strike::Wound(i as usize),
        forall|k: int| 0 <= k < h ==> #[trigger] ships[k] == ships[0],
        rs[h - 1] == Strike::Kill(i as usize),
        ships[h] == ships[0].rewarded(),
        ess[h] == ess[0].remove(i),
{
    lemma_laser_prefix(ships, ess, rs, ns, i, h, h - 1);
    let k = h - 1;
    let typed = ess[0][i].word.text@;
    assert(strike_outcome(ships[k], ess[k], typed, Difficulty::Hard, rs[k], ships[k + 1], ess[k + 1], ns[k]));
    assert(first_match(ess[k], typed, Difficulty::Hard, i)) by {
        assert forall|m: int| 0 <= m < i implies !word_matches(#[trigger] ess[k][m], typed, Difficulty::Hard) by {
            assert(ess[k][m] == ess[0][m]);
        }
    }
    match rs[k] {
        Strike::Miss => {
            assert(word_matches(ess[k][i], typed, Difficulty::Hard));
        },
        Strike::Kill(j) => {
            if j < i {
                assert(word_matches(ess[k][j as int], typed, Difficulty::Hard));
            } else if j > i {
                assert(!word_matches(ess[k][i], typed, Difficulty::Hard));
            }
            assert(ess[k].remove(i) =~= ess[0].remove(i));
        },
        Strike::Wound(j) => {
            if j < i {
                assert(word_matches(ess[k][j as int], typed, Difficulty::Hard));
            } else if j > i {
                assert(!word_matches(ess[k][i], typed, Difficulty::Hard));
            }
        },
    }
}

/// After `k < h` of the submissions of `laser_hits_law`, each was a wound
/// without reward, and enemy `i` has `h - k` health left.
proof fn lemma_laser_prefix(
    ships: Seq<Ship>,
    ess: Seq<Seq<Enemy>>,
    rs: Seq<Strike>,
    ns: Seq<int>,
    i: int,
    h: int,
    k: int,
)
    requires
        h >= 1,
        0 <= k < h,
        ships.len() == h + 1,
        ess.len() == h + 1,
        rs.len() == h,
        ns.len() == h,
        0 <= i < ess[0].len(),
        ess[0][i].health.current == h,
        forall|m: int| 0 <= m < i ==> #[trigger] ess[0][m].word.text@ != ess[0][i].word.text@,
        ships[0].current_weapon == Weapon::Laser,
        forall|m: int|
            0 <= m < h ==> #[trigger] strike_outcome(
                ships[m],
                ess[m],
                ess[0][i].word.text@,
                Difficulty::Hard,
                rs[m],
                ships[m + 1],
                ess[m + 1],
                ns[m],
            ),
    ensures
        forall|m: int| 0 <= m < k ==> #[trigger] rs[m] == Strike::Wound(i as usize),
        forall|m: int| 0 <= m <= k ==> #[trigger] ships[m] == ships[0],
        ess[k] == ess[0].update(i, Enemy { health: Health { current: (h - k) as i32, ..ess[0][i].health }, ..ess[0][i] }),
    decreases k,
{
    let typed = ess[0][i].word.text@;
    if k == 0 {
        assert(ess[0].update(i, Enemy { health: Health { current: h as i32, ..ess[0][i].health }, ..ess[0][i] }) =~= ess[0]);
    } else {
        lemma_laser_prefix(ships, ess, rs, ns, i, h, k - 1);
        let p = k - 1;
        assert(strike_outcome(ships[p], ess[p], typed, Difficulty::Hard, rs[p], ships[p + 1], ess[p + 1], ns[p]));
        assert(ess[p][i].word == ess[0][i].word);
        assert(first_match(ess[p], typed, Difficulty::Hard, i)) by {
            assert forall|m: int| 0 <= m < i implies !word_matches(#[trigger] ess[p][m], typed, Difficulty::Hard) by {
                assert(ess[p][m] == ess[0][m]);
            }
        }
        match rs[p] {
            Strike::Miss => {
                assert(word_matches(ess[p][i], typed, Difficulty::Hard));
            },
            Strike::Kill(j) => {
                if j < i {
                    assert(word_matches(ess[p][j as int], typed, Difficulty::Hard));
                } else if j > i {
                    assert(!word_matches(ess[p][i], typed, Difficulty::Hard));
                }
                assert(ess[p][i].health.current == h - p);
            },
            Strike::Wound(j) => {
                if j < i {
                    assert(word_matches(ess[p][j as int], typed, Difficulty::Hard));
                } else if j > i {
                    assert(!word_matches(ess[p][i], typed, Difficulty::Hard));
                }
                assert(ess[k] =~= ess[0].update(i, Enemy { health: Health { current: (h - k) as i32, ..ess[0][i].health }, ..ess[0][i] }));
            },
        }
    }
}

/// Under `Easy`, typed text that lower-cases to the lower-cased text of
/// enemy `i`, when no enemy before it matches so, strikes enemy `i`.
pub proof fn easy_match_law(
    ship: Ship,
    es: Seq<Enemy>,
    typed: Seq<char>,
    i: int,
    r: Strike,
    ship2: Ship,
    es2: Seq<Enemy>,
    n: int,
)
    requires
        0 <= i < es.len(),
        lower_of(es[i].word.text@) == lower_of(typed),
        forall|k: int| 0 <= k < i ==> lower_of(#[trigger] es[k].word.text@) != lower_of(typed),
        strike_outcome(ship, es, typed, Difficulty::Easy, r, ship2, es2, n),
    ensures
        r == Strike::Kill(i as usize) || r == Strike::Wound(i as usize),
{
    match r {
        Strike::Miss => {
            assert(word_matches(es[i], typed, Difficulty::Easy));
        },
        Strike::Kill(j) => {
            if j < i {
                assert(word_matches(es[j as int], typed, Difficulty::Easy));
            } else if j > i {
                assert(!word_matches(es[i], typed, Difficulty::Easy));
            }
        },
        Strike::Wound(j) => {
            if j < i {
                assert(word_matches(es[j as int], typed, Difficulty::Easy));
            } else if j > i {
                assert(!word_matches(es[i], typed, Difficulty::Easy));
            }
        },
    }
}

/// The enemies that are not in contact with a ship at `pos`.
pub open spec fn untouched(es: Seq<Enemy>, pos: Point) -> Seq<Enemy>
    decreases es.len(),
{
    if es.len() == 0 {
        es
    } else {
        let rest = untouched(es.drop_last(), pos);
        if near(es.last().position, pos, CONTACT_RADIUS as int) {
            rest
        } else {
            rest.push(es.last())
        }
    }
}

/// How many enemies are in contact with a ship at `pos`.
pub open spec fn touching(es: Seq<Enemy>, pos: Point) -> nat
    decreases es.len(),
{
    if es.len() == 0 {
        0
    } else {
        touching(es.drop_last(), pos) + if near(es.last().position, pos, CONTACT_RADIUS as int) {
            1nat
        } else {
            0nat
        }
    }
}

/// The ship after `n` points of damage.
pub open spec fn hurt(ship: Ship, n: nat) -> Ship
    decreases n,
{
    if n == 0 {
        ship
    } else {
        hurt(ship, (n - 1) as nat).damaged()
    }
}

/// Contact with enemies: unless the ship is invulnerable, every enemy in
/// contact with it is destroyed in an explosion and costs it one hit point
/// and its combo. Returns whether this brought the ship's hit points from
/// above zero to zero or below, which ends the game.
pub fn collision_system(
    ship: &mut Ship,
    enemies: &mut Vec<Enemy>,
    particles: &mut ParticleEngine,
    rng: &mut StdRng,
) -> (game_over: bool)
    requires
        old(ship).wf(),
        enemies_wf(old(enemies)@),
        old(particles).wf(),
    ensures
        final(ship).wf(),
        enemies_wf(final(enemies)@),
        final(particles).wf(),
        old(ship).is_invulnerable() ==> *final(ship) == *old(ship) && final(enemies)@ == old(enemies)@
            && !game_over && final(particles).particles@ == old(particles).particles@,
        !old(ship).is_invulnerable() ==> {
            let n = touching(old(enemies)@, old(ship).position);
            &&& final(enemies)@ == untouched(old(enemies)@, old(ship).position)
            &&& *final(ship) == hurt(*old(ship), n)
            &&& final(particles).particles@.len() == old(particles).particles@.len() + 12 * n
            &&& game_over == (n > 0 && old(ship).hp > 0 && final(ship).hp <= 0)
        },
{
    if !ship.is_exposed() {
        return false;
    }
    let ghost start = *ship;
    let hp_before = ship.hp;
    let ghost all = enemies@;
    let ghost n0 = particles.particles@.len();
    let pos = ship.position;
    let mut kept: Vec<Enemy> = Vec::new();
    let mut hits: usize = 0;
    let mut j: usize = 0;
    let total = enemies.len();
    while enemies.len() > 0
        invariant
            j + enemies@.len() == total,
            total == all.len(),
            pos == start.position,
            pos.wf(),
            ship.wf(),
            enemies@ == all.subrange(j as int, total as int),
            enemies_wf(all),
            enemies_wf(kept@),
            particles.wf(),
            hits == touching(all.take(j as int), pos),
            hits <= j,
            kept@ == untouched(all.take(j as int), pos),
            *ship == hurt(start, hits as nat),
            particles.particles@.len() == n0 + 12 * hits,
        decreases enemies.len(),
    {
        let e = enemies.remove(0);
        assert(e == all[j as int]);
        assert(all[j as int].wf());
        assert(all.take(j + 1).drop_last() =~= all.take(j as int));
        assert(enemies@ =~= all.subrange(j + 1, total as int));
        if e.position.is_within(&pos, CONTACT_RADIUS) {
            ship.take_damage();
            particles.spawn_explosion(rng, e.position, Rgb { r: 255, g: 77, b: 0 }, 12);
            hits = hits + 1;
        } else {
            kept.push(e);
        }
        j = j + 1;
    }
    assert(all.take(total as int) =~= all);
    *enemies = kept;
    hits > 0 && hp_before > 0 && ship.hp <= 0
}

/// `j` is the first projectile in contact with a ship at `pos`.
pub open spec fn first_near(ps: Seq<Projectile>, pos: Point, j: int) -> bool {
    &&& 0 <= j < ps.len()
    &&& near(ps[j].position, pos, CONTACT_RADIUS as int)
    &&& forall|k: int| 0 <= k < j ==> !near(#[trigger] ps[k].position, pos, CONTACT_RADIUS as int)
}

/// The ship after a projectile hit: one point of damage, and half a second
/// of invulnerability.
pub open spec fn shot(ship: Ship) -> Ship {
    Ship { invulnerability_timer: Timer::new_spec(500, TimerMode::Once), ..ship.damaged() }
}

/// Contact with projectiles: unless the ship is invulnerable, the first
/// projectile in contact with it is destroyed in an explosion of `burst`
/// particles of `color`, costs one hit point and the combo, and makes the
/// ship invulnerable for half a second. Returns the index of that
/// projectile, if any.
pub fn projectile_collision(
    ship: &mut Ship,
    projectiles: &mut Vec<Projectile>,
    particles: &mut ParticleEngine,
    rng: &mut StdRng,
    color: Rgb,
    burst: u64,
) -> (hit: Option<usize>)
    requires
        old(ship).wf(),
        projectiles_wf(old(projectiles)@),
        old(particles).wf(),
    ensures
        final(ship).wf(),
        projectiles_wf(final(projectiles)@),
        final(particles).wf(),
        match hit {
            Some(j) => {
                &&& !old(ship).is_invulnerable()
                &&& first_near(old(projectiles)@, old(ship).position, j as int)
                &&& final(projectiles)@ == old(projectiles)@.remove(j as int)
                &&& *final(ship) == shot(*old(ship))
                &&& final(particles).particles@.len() == old(particles).particles@.len() + burst
            },
            None => {
                &&& (!old(ship).is_invulnerable() ==> forall|k: int|
                    0 <= k < old(projectiles)@.len() ==> !near(
                        #[trigger] old(projectiles)@[k].position,
                        old(ship).position,
                        CONTACT_RADIUS as int,
                    ))
                &&& *final(ship) == *old(ship)
                &&& final(projectiles)@ == old(projectiles)@
                &&& final(particles).particles@ == old(particles).particles@
            },
        },
{
    if !ship.is_exposed() {
        return None;
    }
    let mut j: usize = 0;
    let mut found = false;
    while j < projectiles.len() && !found
        invariant
            j <= projectiles.len(),
            ship.wf(),
            projectiles_wf(projectiles@),
            found ==> j < projectiles.len() && near(projectiles@[j as int].position, ship.position, CONTACT_RADIUS as int),
            forall|k: int| 0 <= k < j ==> !near(#[trigger] projectiles@[k].position, ship.position, CONTACT_RADIUS as int),
        decreases projectiles.len() - j + (if found { 0int } else { 1int }),
    {
        assert(projectiles@[j as int].wf());
        if projectiles[j].position.is_within(&ship.position, CONTACT_RADIUS) {
            found = true;
        } else {
            j = j + 1;
        }
    }
    if !found {
        return None;
    }
    let ghost ps = projectiles@;
    assert(ps[j as int].wf());
    let p = projectiles.remove(j);
    ship.take_damage();
    particles.spawn_explosion(rng, p.position, color, burst);
    ship.invulnerability_timer = Timer::new(500, TimerMode::Once);
    proof {
        assert forall|k: int| 0 <= k < projectiles@.len() implies #[trigger] projectiles@[k].wf() by {
            if k < j {
                assert(projectiles@[k] == ps[k]);
            } else {
                assert(projectiles@[k] == ps[k + 1]);
            }
        }
    }
    Some(j)
}

/// Contact with boss attack particles; see `projectile_collision`.
pub fn boss_collision_system(
    ship: &mut Ship,
    boss_particles: &mut Vec<Projectile>,
    particles: &mut ParticleEngine,
    rng: &mut StdRng,
) -> (hit: Option<usize>)
    requires
        old(ship).wf(),
        projectiles_wf(old(boss_particles)@),
        old(particles).wf(),
    ensures
        final(ship).wf(),
        projectiles_wf(final(boss_particles)@),
        final(particles).wf(),
        match hit {
            Some(j) => {
                &&& !old(ship).is_invulnerable()
                &&& first_near(old(boss_particles)@, old(ship).position, j as int)
                &&& final(boss_particles)@ == old(boss_particles)@.remove(j as int)
                &&& *final(ship) == shot(*old(ship))
                &&& final(particles).particles@.len() == old(particles).particles@.len() + 10
            },
            None => {
                &&& (!old(ship).is_invulnerable() ==> forall|k: int|
                    0 <= k < old(boss_particles)@.len() ==> !near(
                        #[trigger] old(boss_particles)@[k].position,
                        old(ship).position,
                        CONTACT_RADIUS as int,
                    ))
                &&& *final(ship) == *old(ship)
                &&& final(boss_particles)@ == old(boss_particles)@
                &&& final(particles).particles@ == old(particles).particles@
            },
        },
{
    projectile_collision(ship, boss_particles, particles, rng, Rgb { r: 255, g: 0, b: 0 }, 10)
}

/// Contact with enemy bullets; see `projectile_collision`.
pub fn enemy_bullet_collision(
    ship: &mut Ship,
    bullets: &mut Vec<Projectile>,
    particles: &mut ParticleEngine,
    rng: &mut StdRng,
) -> (hit: Option<usize>)
    requires
        old(ship).wf(),
        projectiles_wf(old(bullets)@),
        old(particles).wf(),
    ensures
        final(ship).wf(),
        projectiles_wf(final(bullets)@),
        final(particles).wf(),
        match hit {
            Some(j) => {
                &&& !old(ship).is_invulnerable()
                &&& first_near(old(bullets)@, old(ship).position, j as int)
                &&& final(bullets)@ == old(bullets)@.remove(j as int)
                &&& *final(ship) == shot(*old(ship))
                &&& final(particles).particles@.len() == old(particles).particles@.len() + 8
            },
            None => {
                &&& (!old(ship).is_invulnerable() ==> forall|k: int|
                    0 <= k < old(bullets)@.len() ==> !near(
                        #[trigger] old(bullets)@[k].position,
                        old(ship).position,
                        CONTACT_RADIUS as int,
                    ))
                &&& *final(ship) == *old(ship)
                &&& final(bullets)@ == old(bullets)@
                &&& final(particles).particles@ == old(particles).particles@
            },
        },
{
    projectile_collision(ship, bullets, particles, rng, Rgb { r: 255, g: 128, b: 0 }, 8)
}

} // verus!
