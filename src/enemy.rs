//! Enemies, their movement toward the ship, and the bullets they fire.

use crate::particles::Rgb;
use crate::geometry::{dist2, isqrt, mul_div_trunc, toward, travel, travel_of, Point};
use crate::timer::{Timer, TimerMode};
use vstd::prelude::*;

verus! {

/// The text that defeats an enemy.
pub struct Word {
    pub text: String,
    pub typed_index: usize,
}

#[derive(Clone, Copy, Debug, PartialEq, Eq, Structural)]
pub struct Health {
    pub current: i32,
    pub max: i32,
}

/// The fire timer of an enemy that shoots.
#[derive(Clone, Copy, Debug, PartialEq, Eq, Structural)]
pub struct ShootTimer {
    pub timer: Timer,
}

/// An enemy; `speed` is in units per second, and `shoot_timer` is present
/// on the shooting kind.
pub struct Enemy {
    pub position: Point,
    pub speed: u64,
    pub word: Word,
    pub health: Health,
    pub shoot_timer: Option<ShootTimer>,
}

/// A straight-flying projectile: a bullet of a shooting enemy, or a particle
/// of a boss attack.
#[derive(Clone, Copy, Debug, PartialEq, Eq, Structural)]
pub struct Projectile {
    pub position: Point,
    pub velocity: Point,
    pub color: Rgb,
    pub size: u64,
}

pub type EnemyBullet = Projectile;

/// Contact distance between the ship and an enemy or projectile, in
/// thousandths of a unit.
pub const CONTACT_RADIUS: u64 = 30_000;

/// Distance from the origin beyond which projectiles are removed.
pub const PROJECTILE_RANGE: u64 = 800_000;

/// Distance to the ship under which time slows down.
pub const SLOW_RADIUS: u64 = 200_000;

/// Speed of an enemy bullet, in thousandths of a unit per second.
pub const BULLET_SPEED: u64 = 150_000;

impl Enemy {
    pub open spec fn wf(self) -> bool {
        &&& self.position.wf()
        &&& self.health.current >= 1
        &&& match self.shoot_timer {
            Some(t) => t.timer.wf() && t.timer.mode == TimerMode::Repeating,
            None => true,
        }
    }

    /// The enemy moved toward `target` for `dt` milliseconds.
    pub open spec fn moved(self, target: Point, dt: int) -> Enemy {
        Enemy { position: toward(self.position, target, travel(self.speed as int, dt)), ..self }
    }
}

impl Projectile {
    pub open spec fn wf(self) -> bool {
        self.position.wf() && self.velocity.wf()
    }
}

pub open spec fn enemies_wf(es: Seq<Enemy>) -> bool {
    forall|i: int| 0 <= i < es.len() ==> #[trigger] es[i].wf()
}

pub open spec fn projectiles_wf(ps: Seq<Projectile>) -> bool {
    forall|i: int| 0 <= i < ps.len() ==> #[trigger] ps[i].wf()
}

/// Whether `p` lies within `radius` of `q`.
pub open spec fn near(p: Point, q: Point, radius: int) -> bool {
    dist2(p, q) < radius * radius
}

/// The projectiles after `dt` milliseconds of flight, without those that
/// end up out of range.
pub open spec fn flown(ps: Seq<Projectile>, dt: int) -> Seq<Projectile>
    decreases ps.len(),
{
    if ps.len() == 0 {
        ps
    } else {
        let rest = flown(ps.drop_last(), dt);
        let q = ps.last().position.displaced_spec(ps.last().velocity, dt);
        if dist2(q, Point::origin_spec()) > PROJECTILE_RANGE * PROJECTILE_RANGE {
            rest
        } else {
            rest.push(Projectile { position: q, ..ps.last() })
        }
    }
}

/// How many of the enemies' fire timers complete a period in `dt`.
pub open spec fn firing(es: Seq<Enemy>, dt: int) -> nat
    decreases es.len(),
{
    if es.len() == 0 {
        0
    } else {
        firing(es.drop_last(), dt) + match es.last().shoot_timer {
            Some(t) => if t.timer.fires(dt) {
                1nat
            } else {
                0nat
            },
            None => 0nat,
        }
    }
}

/// Moves every enemy toward `target` by its speed over `dt` milliseconds;
/// returns whether one of them is then within the slow-down distance.
pub fn enemy_movement(enemies: &mut Vec<Enemy>, target: Point, dt: u64) -> (close: bool)
    requires
        enemies_wf(old(enemies)@),
        target.wf(),
    ensures
        enemies_wf(final(enemies)@),
        final(enemies)@.len() == old(enemies)@.len(),
        forall|i: int|
            0 <= i < old(enemies)@.len() ==> #[trigger] final(enemies)@[i] == old(enemies)@[i].moved(
                target,
                dt as int,
            ),
        close == exists|i: int|
            0 <= i < final(enemies)@.len() && near(
                #[trigger] final(enemies)@[i].position,
                target,
                SLOW_RADIUS as int,
            ),
{
    let ghost start = enemies@;
    let mut close = false;
    let mut i: usize = 0;
    while i < enemies.len()
        invariant
            i <= enemies.len(),
            enemies@.len() == start.len(),
            enemies_wf(enemies@),
            target.wf(),
            forall|k: int| 0 <= k < i ==> #[trigger] enemies@[k] == start[k].moved(target, dt as int),
            forall|k: int| i <= k < enemies@.len() ==> #[trigger] enemies@[k] == start[k],
            close == exists|k: int|
                0 <= k < i && near(#[trigger] enemies@[k].position, target, SLOW_RADIUS as int),
        decreases enemies.len() - i,
    {
        let ghost prev = enemies@;
        assert(enemies@[i as int].wf());
        let mut e = enemies.remove(i);
        let step: u64 = travel_of(e.speed, dt);
        e.position = e.position.moved_toward(&target, step);
        let is_close = e.position.is_within(&target, SLOW_RADIUS);
        let ghost moved = e;
        enemies.insert(i, e);
        assert(enemies@ =~= prev.update(i as int, moved));
        proof {
            if is_close {
                assert(near(enemies@[i as int].position, target, SLOW_RADIUS as int));
            }
            if close {
                let k = choose|k: int|
                    0 <= k < i && near(#[trigger] prev[k].position, target, SLOW_RADIUS as int);
                assert(enemies@[k] == prev[k]);
            }
            if exists|k: int|
                0 <= k < i + 1 && near(#[trigger] enemies@[k].position, target, SLOW_RADIUS as int) {
                let k = choose|k: int|
                    0 <= k < i + 1 && near(#[trigger] enemies@[k].position, target, SLOW_RADIUS as int);
                if k < i {
                    assert(enemies@[k] == prev[k]);
                }
            }
        }
        close = close || is_close;
        i = i + 1;
    }
    close
}

/// The velocity of a bullet fired from `from` at `to`.
fn aim(from: Point, to: Point) -> (r: Point)
    requires
        from.wf(),
        to.wf(),
    ensures
        r.wf(),
{
    let d2 = from.distance_squared(&to);
    let dist = isqrt(d2);
    if dist == 0 {
        return Point { x: 0, y: 0 };
    }
    let dx: i128 = to.x as i128 - from.x as i128;
    let dy: i128 = to.y as i128 - from.y as i128;
    proof {
        assert(-(dist as int) <= dx <= dist && -(dist as int) <= dy <= dist) by (nonlinear_arith)
            requires d2 == (from.x - to.x) * (from.x - to.x) + (from.y - to.y) * (from.y - to.y),
                dx == to.x - from.x, dy == to.y - from.y,
                d2 < (dist + 1) * (dist + 1), dist >= 0;
    }
    let vx = mul_div_trunc(dx, BULLET_SPEED as u128, dist);
    let vy = mul_div_trunc(dy, BULLET_SPEED as u128, dist);
    proof {
        assert(-150_000 <= vx <= 150_000) by (nonlinear_arith)
            requires -(dist as int) <= dx <= dist, dist > 0,
                dx >= 0 ==> 0 <= vx && vx * dist <= dx * 150_000,
                dx < 0 ==> vx <= 0 && -vx * dist <= -dx * 150_000;
        assert(-150_000 <= vy <= 150_000) by (nonlinear_arith)
            requires -(dist as int) <= dy <= dist, dist > 0,
                dy >= 0 ==> 0 <= vy && vy * dist <= dy * 150_000,
                dy < 0 ==> vy <= 0 && -vy * dist <= -dy * 150_000;
    }
    Point { x: vx as i64, y: vy as i64 }
}

/// Runs the fire timers of shooting enemies; each that fires adds a bullet
/// at its position flying toward `target`. Returns how many were fired.
pub fn shooting_enemy_fire_system(
    enemies: &mut Vec<Enemy>,
    bullets: &mut Vec<EnemyBullet>,
    target: Point,
    dt: u64,
) -> (fired: usize)
    requires
        enemies_wf(old(enemies)@),
        projectiles_wf(old(bullets)@),
        target.wf(),
        old(bullets)@.len() + old(enemies)@.len() <= usize::MAX,
    ensures
        enemies_wf(final(enemies)@),
        projectiles_wf(final(bullets)@),
        final(enemies)@.len() == old(enemies)@.len(),
        forall|i: int|
            0 <= i < old(enemies)@.len() ==> {
                let e = #[trigger] old(enemies)@[i];
                let f = final(enemies)@[i];
                &&& f.position == e.position && f.word == e.word && f.health == e.health
                &&& f.speed == e.speed
                &&& match e.shoot_timer {
                    Some(t) => f.shoot_timer == Some(ShootTimer { timer: t.timer.ticked(dt as int) }),
                    None => f.shoot_timer.is_none(),
                }
            },
        fired == firing(old(enemies)@, dt as int),
        final(bullets)@.len() == old(bullets)@.len() + fired,
        final(bullets)@.take(old(bullets)@.len() as int) == old(bullets)@,
        forall|j: int|
            old(bullets)@.len() <= j < final(bullets)@.len() ==> exists|k: int|
                0 <= k < old(enemies)@.len() && (#[trigger] final(bullets)@[j]).position == (
                #[trigger] old(enemies)@[k]).position,
{
    let ghost start = enemies@;
    let ghost first = bullets@;
    let mut fired: usize = 0;
    let mut i: usize = 0;
    while i < enemies.len()
        invariant
            i <= enemies.len(),
            enemies@.len() == start.len(),
            enemies_wf(enemies@),
            projectiles_wf(bullets@),
            target.wf(),
            fired <= i,
            first.len() + start.len() <= usize::MAX,
            fired == firing(start.take(i as int), dt as int),
            bullets@.len() == first.len() + fired,
            bullets@.take(first.len() as int) == first,
            forall|j: int|
                first.len() <= j < bullets@.len() ==> exists|k: int|
                    0 <= k < start.len() && (#[trigger] bullets@[j]).position == (#[trigger] start[k]).position,
            forall|k: int|
                0 <= k < i ==> {
                    let e = #[trigger] start[k];
                    let f = enemies@[k];
                    &&& f.position == e.position && f.word == e.word && f.health == e.health
                    &&& f.speed == e.speed
                    &&& match e.shoot_timer {
                        Some(t) => f.shoot_timer == Some(ShootTimer { timer: t.timer.ticked(dt as int) }),
                        None => f.shoot_timer.is_none(),
                    }
                },
            forall|k: int| i <= k < enemies@.len() ==> #[trigger] enemies@[k] == start[k],
        decreases enemies.len() - i,
    {
        assert(enemies@[i as int].wf());
        let ghost prev = enemies@;
        let mut e = enemies.remove(i);
        assert(e == start[i as int]);
        assert(start.take(i + 1).drop_last() =~= start.take(i as int));
        match e.shoot_timer {
            Some(st) => {
                let mut t = st.timer;
                let shoot = t.tick(dt);
                e.shoot_timer = Some(ShootTimer { timer: t });
                if shoot {
                    let velocity = aim(e.position, target);
                    let ghost mid = bullets@;
                    let ghost here = e.position;
                    bullets.push(
                        Projectile {
                            position: e.position,
                            velocity,
                            color: Rgb { r: 255, g: 204, b: 0 },
                            size: 8,
                        },
                    );
                    assert(bullets@.take(first.len() as int) =~= mid.take(first.len() as int));
                    proof {
                        assert forall|j: int| first.len() <= j < bullets@.len() implies exists|k: int|
                            0 <= k < start.len() && (#[trigger] bullets@[j]).position == (
                            #[trigger] start[k]).position by {
                            if j < mid.len() {
                                assert(bullets@[j] == mid[j]);
                            } else {
                                assert(bullets@[j].position == start[i as int].position);
                            }
                        }
                    }
                    fired = fired + 1;
                }
            },
            None => {},
        }
        let ghost changed = e;
        enemies.insert(i, e);
        assert(enemies@ =~= prev.update(i as int, changed));
        i = i + 1;
    }
    assert(start.take(start.len() as int) =~= start);
    fired
}

/// Flies every projectile for `dt` milliseconds and removes those then
/// farther than the range from the origin.
pub fn projectile_movement(projectiles: &mut Vec<Projectile>, dt: u64)
    requires
        projectiles_wf(old(projectiles)@),
    ensures
        projectiles_wf(final(projectiles)@),
        final(projectiles)@ == flown(old(projectiles)@, dt as int),
{
    let mut kept: Vec<Projectile> = Vec::new();
    let mut i: usize = 0;
    while i < projectiles.len()
        invariant
            i <= projectiles.len(),
            projectiles_wf(projectiles@),
            projectiles_wf(kept@),
            kept@ == flown(projectiles@.take(i as int), dt as int),
        decreases projectiles.len() - i,
    {
        let p = projectiles[i];
        assert(projectiles@.take(i + 1).drop_last() =~= projectiles@.take(i as int));
        assert(p.wf());
        let q = p.position.displaced(&p.velocity, dt);
        let origin = Point::origin();
        let far = q.distance_squared(&origin) > PROJECTILE_RANGE as u128 * PROJECTILE_RANGE as u128;
        if !far {
            kept.push(Projectile { position: q, ..p });
        }
        i = i + 1;
    }
    assert(projectiles@.take(projectiles.len() as int) =~= projectiles@);
    *projectiles = kept;
}

} // verus!
