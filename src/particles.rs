//! Short-lived visual-effect particles: bursts, trails, motion with drag, and
//! removal when each particle's lifetime runs out.

use crate::geometry::{
    sin_spec, clamp_spec, coord_ok, cos_milli, dist2, div_trunc, isqrt, isqrt_spec_bound, mul_div_trunc, sin_milli, Point,
};
use crate::random::roll;
use crate::timer::{Timer, TimerMode};
use rand::rngs::StdRng;
use vstd::prelude::*;

verus! {

#[derive(Clone, Copy, Debug, PartialEq, Eq, Structural)]
pub enum ParticleType {
    Trail,
    Explosion,
    Hit,
    Error,
}

#[derive(Clone, Copy, Debug, PartialEq, Eq, Structural)]
pub struct Rgb {
    pub r: u8,
    pub g: u8,
    pub b: u8,
}

/// One particle. `lifetime` is a one-shot timer whose duration is the
/// particle's own life span; `max_lifetime` is the longest span of its kind,
/// against which its opacity is measured.
#[derive(Clone, Copy, Debug, PartialEq, Eq, Structural)]
pub struct Particle {
    pub position: Point,
    pub velocity: Point,
    pub lifetime: Timer,
    pub max_lifetime: u64,
    pub color: Rgb,
    pub size: u64,
    pub particle_type: ParticleType,
}

/// Parameters of a burst of particles flying out at random angles.
pub struct Burst {
    pub speed_min: u64,
    pub speed_max: u64,
    pub life_min: u64,
    pub life_max: u64,
    pub max_lifetime: u64,
    pub size_min: u64,
    pub size_max: u64,
    pub particle_type: ParticleType,
}

pub open spec fn drag(v: int) -> int {
    div_trunc(v * 95, 100)
}

impl Particle {
    pub open spec fn wf(self) -> bool {
        &&& self.position.wf()
        &&& self.velocity.wf()
        &&& self.lifetime.wf()
        &&& self.lifetime.mode == TimerMode::Once
        &&& self.lifetime.duration > 0
        &&& self.max_lifetime > 0
    }

    /// Whether the particle is still alive after `dt` more milliseconds.
    pub open spec fn survives(self, dt: int) -> bool {
        self.lifetime.elapsed + dt < self.lifetime.duration
    }

    /// The particle after a tick of `dt` milliseconds in which it survives:
    /// moved by its velocity, which then decays by the drag factor.
    pub open spec fn advanced(self, dt: int) -> Particle {
        Particle {
            position: Point {
                x: clamp_spec(self.position.x + div_trunc(self.velocity.x * dt, 1000)) as i64,
                y: clamp_spec(self.position.y + div_trunc(self.velocity.y * dt, 1000)) as i64,
            },
            velocity: Point { x: drag(self.velocity.x as int) as i64, y: drag(self.velocity.y as int) as i64 },
            lifetime: self.lifetime.ticked(dt),
            ..self
        }
    }

    /// A particle just made at `pos`, of a burst or trail of the given kind.
    pub open spec fn fresh(self, kind: ParticleType, life_min: int, life_max: int, max_lifetime: int) -> bool {
        &&& self.wf()
        &&& self.particle_type == kind
        &&& self.lifetime.elapsed == 0
        &&& life_min <= self.lifetime.duration < life_max
        &&& self.max_lifetime == max_lifetime
    }

    /// Opacity in thousandths: the share of `max_lifetime` still to live,
    /// at most one.
    pub fn opacity(&self) -> (r: u64)
        requires
            self.wf(),
        ensures
            r == if (self.lifetime.duration - self.lifetime.elapsed) * 1000 / (self.max_lifetime as int)
                > 1000 {
                1000
            } else {
                (self.lifetime.duration - self.lifetime.elapsed) * 1000 / (self.max_lifetime as int)
            },
    {
        let left: u128 = (self.lifetime.duration - self.lifetime.elapsed) as u128;
        let ratio: u128 = left * 1000 / self.max_lifetime as u128;
        if ratio > 1000 {
            1000
        } else {
            ratio as u64
        }
    }
}

/// Thirty units above `p`, within the world.
pub open spec fn above(p: Point) -> Point {
    Point { x: p.x, y: clamp_spec(p.y + 30_000) as i64 }
}

/// The particles that survive a tick of `dt`, each advanced, in order.
pub open spec fn updated(ps: Seq<Particle>, dt: int) -> Seq<Particle>
    decreases ps.len(),
{
    if ps.len() == 0 {
        ps
    } else {
        let rest = updated(ps.drop_last(), dt);
        if ps.last().survives(dt) {
            rest.push(ps.last().advanced(dt))
        } else {
            rest
        }
    }
}

/// A particle after a run of ticks, or `None` once a tick has removed it.
pub open spec fn after_ticks(p: Particle, dts: Seq<u64>) -> Option<Particle>
    decreases dts.len(),
{
    if dts.len() == 0 {
        Some(p)
    } else {
        match after_ticks(p, dts.drop_last()) {
            None => None,
            Some(q) => if q.survives(dts.last() as int) {
                Some(q.advanced(dts.last() as int))
            } else {
                None
            },
        }
    }
}

pub open spec fn total(dts: Seq<u64>) -> int
    decreases dts.len(),
{
    if dts.len() == 0 {
        0
    } else {
        total(dts.drop_last()) + dts.last()
    }
}

/// A new particle lives through a run of ticks exactly while their total
/// stays below its life span, so the tick that brings the total to the span
/// removes it; while it lives, its timer has counted that total.
pub proof fn lifetime_law(p: Particle, dts: Seq<u64>)
    requires
        p.wf(),
        p.lifetime.elapsed == 0,
    ensures
        after_ticks(p, dts) is Some <==> total(dts) < p.lifetime.duration,
        after_ticks(p, dts) is Some ==> after_ticks(p, dts)->0.lifetime.elapsed == total(dts)
            && after_ticks(p, dts)->0.lifetime.duration == p.lifetime.duration
            && after_ticks(p, dts)->0.lifetime.mode == TimerMode::Once,
    decreases dts.len(),
{
    if dts.len() > 0 {
        lifetime_law(p, dts.drop_last());
        lemma_total_nonneg(dts.drop_last());
    }
}

proof fn lemma_total_nonneg(dts: Seq<u64>)
    ensures
        total(dts) >= 0,
    decreases dts.len(),
{
    if dts.len() > 0 {
        lemma_total_nonneg(dts.drop_last());
    }
}

/// How many particles a trail between two points has: one for every
/// twenty units of its length, and at least five.
pub open spec fn trail_count(start: Point, end: Point) -> int {
    let n = isqrt_spec_bound(dist2(start, end)) / 20_000;
    if n < 5 {
        5
    } else {
        n
    }
}

pub struct ParticleEngine {
    pub particles: Vec<Particle>,
}

pub open spec fn all_wf(ps: Seq<Particle>) -> bool {
    forall|i: int| 0 <= i < ps.len() ==> #[trigger] ps[i].wf()
}

/// `ps` grew from `before` by `n` particles, each fresh of the given kind.
pub open spec fn grew_by(
    before: Seq<Particle>,
    ps: Seq<Particle>,
    n: int,
    kind: ParticleType,
    life_min: int,
    life_max: int,
    max_lifetime: int,
) -> bool {
    &&& ps.len() == before.len() + n
    &&& ps.take(before.len() as int) == before
    &&& forall|i: int|
        before.len() <= i < ps.len() ==> #[trigger] ps[i].fresh(kind, life_min, life_max, max_lifetime)
}

/// The velocity, in thousandths of a unit per second, of heading `deg`
/// degrees at `speed` units per second.
pub open spec fn polar(deg: int, speed: int) -> Point {
    Point { x: (sin_spec(((deg % 360) + 90) % 360) * speed) as i64, y: (sin_spec(deg % 360) * speed) as i64 }
}

/// `v` heads some whole number of degrees at a speed in `[lo, hi)`.
pub open spec fn flies_at(v: Point, lo: int, hi: int) -> bool {
    exists|deg: int, speed: int| 0 <= deg < 360 && lo <= speed < hi && v == #[trigger] polar(deg, speed)
}

/// The particles of `ps` at `from .. from + n` are a new burst of kind
/// `kind` at `pos` in `color`, flying at `speed_min .. speed_max` units per
/// second and living `life_min .. life_max` milliseconds.
pub open spec fn burst_in(
    ps: Seq<Particle>,
    from: int,
    n: int,
    kind: ParticleType,
    life_min: int,
    life_max: int,
    max_lifetime: int,
    pos: Point,
    color: Rgb,
    speed_min: int,
    speed_max: int,
) -> bool {
    forall|i: int|
        from <= i < from + n ==> {
            &&& (#[trigger] ps[i]).fresh(kind, life_min, life_max, max_lifetime)
            &&& ps[i].position == pos
            &&& ps[i].color == color
            &&& flies_at(ps[i].velocity, speed_min, speed_max)
        }
}

/// The particles of `ps` at `from ..` are the trail from `start` to `end`:
/// the k-th of them lies within ten units, on each axis, of the point `k / n`
/// of the way along the segment, where `n` is the trail's particle count.
pub open spec fn trail_in(ps: Seq<Particle>, from: int, start: Point, end: Point) -> bool {
    forall|i: int| from <= i < from + trail_count(start, end) ==> trail_point(#[trigger] ps[i], i - from, start, end)
}

/// `p` is the `k`-th particle of the trail from `start` to `end`.
pub open spec fn trail_point(p: Particle, k: int, start: Point, end: Point) -> bool {
    let n = trail_count(start, end);
    {
            &&& p.fresh(ParticleType::Trail, 200, 500, 500)
            &&& p.color == (Rgb { r: 0, g: 128, b: 255 })
            &&& -10_000 <= p.position.x - (start.x + div_trunc((end.x - start.x) * k, n)) <= 10_000
            &&& -10_000 <= p.position.y - (start.y + div_trunc((end.y - start.y) * k, n)) <= 10_000
    }
}

/// `ps2` is `ps` with `n` particles added after it.
pub open spec fn extends(ps: Seq<Particle>, ps2: Seq<Particle>, n: int) -> bool {
    ps2.len() == ps.len() + n && ps2.take(ps.len() as int) == ps
}

/// Particles kept at the front of a longer sequence keep their index.
pub proof fn lemma_extends_index(ps: Seq<Particle>, ps2: Seq<Particle>, n: int, i: int)
    requires
        extends(ps, ps2, n),
        n >= 0,
        0 <= i < ps.len(),
    ensures
        ps2[i] == ps[i],
{
    assert(ps2.take(ps.len() as int)[i] == ps2[i]);
}

/// Extending twice is extending once.
pub proof fn lemma_extends_trans(a: Seq<Particle>, b: Seq<Particle>, c: Seq<Particle>, n: int, m: int)
    requires
        extends(a, b, n),
        extends(b, c, m),
        n >= 0,
        m >= 0,
    ensures
        extends(a, c, n + m),
{
    assert(c.take(a.len() as int) =~= c.take(b.len() as int).take(a.len() as int));
}

fn scaled_speed(unit: i64, speed: u64) -> (r: i64)
    requires
        -1000 <= unit <= 1000,
        speed <= 1_000_000,
    ensures
        r == unit * speed,
        coord_ok(r as int),
{
    assert(-1_000_000_000 <= unit * speed <= 1_000_000_000) by (nonlinear_arith)
        requires -1000 <= unit <= 1000, 0 <= speed <= 1_000_000;
    unit * speed as i64
}

impl ParticleEngine {
    pub open spec fn wf(self) -> bool {
        all_wf(self.particles@)
    }

    pub fn new() -> (r: ParticleEngine)
        ensures
            r.particles@.len() == 0,
            r.wf(),
    {
        ParticleEngine { particles: Vec::new() }
    }

    /// Adds `count` particles at `position` flying out at random whole-degree
    /// angles, with speed, life span and size drawn from the burst's ranges.
    pub fn spawn_burst(&mut self, rng: &mut StdRng, position: Point, color: Rgb, count: u64, burst: &Burst)
        requires
            old(self).wf(),
            position.wf(),
            0 < burst.speed_min < burst.speed_max <= 1_000_000,
            0 < burst.life_min < burst.life_max,
            burst.max_lifetime > 0,
            burst.size_min < burst.size_max,
        ensures
            final(self).wf(),
            grew_by(
                old(self).particles@,
                final(self).particles@,
                count as int,
                burst.particle_type,
                burst.life_min as int,
                burst.life_max as int,
                burst.max_lifetime as int,
            ),
            forall|i: int|
                old(self).particles@.len() <= i < final(self).particles@.len() ==> (
                #[trigger] final(self).particles@[i]).position == position && final(self).particles@[i].color
                    == color,
            burst_in(
                final(self).particles@,
                old(self).particles@.len() as int,
                count as int,
                burst.particle_type,
                burst.life_min as int,
                burst.life_max as int,
                burst.max_lifetime as int,
                position,
                color,
                burst.speed_min as int,
                burst.speed_max as int,
            ),
    {
        let ghost before = self.particles@;
        let mut k: u64 = 0;
        while k < count
            invariant
                k <= count,
                all_wf(self.particles@),
                position.wf(),
                0 < burst.speed_min < burst.speed_max <= 1_000_000,
                0 < burst.life_min < burst.life_max,
                burst.size_min < burst.size_max,
                burst.max_lifetime > 0,
                self.particles@.len() == before.len() + k,
                self.particles@.take(before.len() as int) == before,
                forall|i: int|
                    before.len() <= i < self.particles@.len() ==> (#[trigger] self.particles@[i]).fresh(
                        burst.particle_type,
                        burst.life_min as int,
                        burst.life_max as int,
                        burst.max_lifetime as int,
                    ) && self.particles@[i].position == position && self.particles@[i].color == color
                        && flies_at(self.particles@[i].velocity, burst.speed_min as int, burst.speed_max as int),
            decreases count - k,
        {
            let angle = roll(rng, 0, 360) as u32;
            let speed = roll(rng, burst.speed_min, burst.speed_max);
            let life = roll(rng, burst.life_min, burst.life_max);
            let size = roll(rng, burst.size_min, burst.size_max);
            let vx = scaled_speed(cos_milli(angle), speed);
            let vy = scaled_speed(sin_milli(angle), speed);
            let p = Particle {
                position,
                velocity: Point { x: vx, y: vy },
                lifetime: Timer::new(life, TimerMode::Once),
                max_lifetime: burst.max_lifetime,
                color,
                size,
                particle_type: burst.particle_type,
            };
            assert(p.velocity == polar(angle as int, speed as int));
            let ghost mid = self.particles@;
            self.particles.push(p);
            assert(self.particles@.take(before.len() as int) =~= mid.take(before.len() as int));
            k = k + 1;
        }
    }

    /// A trail of blue particles along the segment from `start` to `end`,
    /// evenly spaced with a random offset of up to ten units, flying forward
    /// at 50 to 150 units per second plus a sideways jitter, living 0.2 to
    /// 0.5 seconds.
    pub fn spawn_blade_trail(&mut self, rng: &mut StdRng, start: Point, end: Point)
        requires
            old(self).wf(),
            start.wf(),
            end.wf(),
        ensures
            final(self).wf(),
            grew_by(
                old(self).particles@,
                final(self).particles@,
                trail_count(start, end),
                ParticleType::Trail,
                200,
                500,
                500,
            ),
            extends(old(self).particles@, final(self).particles@, trail_count(start, end)),
            trail_in(final(self).particles@, old(self).particles@.len() as int, start, end),
    {
        let d2 = start.distance_squared(&end);
        let dist = isqrt(d2);
        proof {
            assert(dist <= 3_000_000_000) by (nonlinear_arith)
                requires dist * dist <= d2, d2 <= 8_000_000_000_000_000_000, dist >= 0;
        }
        let steps = dist / 20_000;
        let n: u128 = if steps < 5 { 5 } else { steps };
        let dx: i128 = end.x as i128 - start.x as i128;
        let dy: i128 = end.y as i128 - start.y as i128;
        let mut ux: i128 = 0;
        let mut uy: i128 = 0;
        if dist > 0 {
            proof {
                assert(-(dist as int) <= dx <= dist && -(dist as int) <= dy <= dist) by (nonlinear_arith)
                    requires d2 == (start.x - end.x) * (start.x - end.x) + (start.y - end.y) * (start.y - end.y),
                        dx == end.x - start.x, dy == end.y - start.y,
                        d2 < (dist + 1) * (dist + 1), dist >= 0;
            }
            ux = mul_div_trunc(dx, 1000, dist);
            uy = mul_div_trunc(dy, 1000, dist);
            proof {
                assert(-1000 <= ux <= 1000) by (nonlinear_arith)
                    requires -(dist as int) <= dx <= dist, dist > 0,
                        dx >= 0 ==> 0 <= ux && ux * dist <= dx * 1000,
                        dx < 0 ==> ux <= 0 && -ux * dist <= -dx * 1000;
                assert(-1000 <= uy <= 1000) by (nonlinear_arith)
                    requires -(dist as int) <= dy <= dist, dist > 0,
                        dy >= 0 ==> 0 <= uy && uy * dist <= dy * 1000,
                        dy < 0 ==> uy <= 0 && -uy * dist <= -dy * 1000;
            }
        }
        let ghost before = self.particles@;
        let mut k: u128 = 0;
        while k < n
            invariant
                k <= n <= 150_000,
                n == trail_count(start, end),
                -1000 <= ux <= 1000,
                -1000 <= uy <= 1000,
                start.wf(),
                end.wf(),
                all_wf(self.particles@),
                self.particles@.len() == before.len() + k,
                self.particles@.take(before.len() as int) == before,
                forall|i: int|
                    before.len() <= i < self.particles@.len() ==> (#[trigger] self.particles@[i]).fresh(
                        ParticleType::Trail,
                        200,
                        500,
                        500,
                    ),
            forall|i: int|
                before.len() <= i < self.particles@.len() ==> trail_point(
                    #[trigger] self.particles@[i],
                    i - before.len(),
                    start,
                    end,
                ),
            decreases n - k,
        {
            let bx = lerp_coord(start.x, end.x, k, n);
            let by = lerp_coord(start.y, end.y, k, n);
            let ox = roll(rng, 0, 20_000) as i64 - 10_000;
            let oy = roll(rng, 0, 20_000) as i64 - 10_000;
            let position = Point::new(bx + ox, by + oy);
            let forward = roll(rng, 50, 150) as i128;
            let jx = (roll(rng, 0, 100) as i128 - 50) * 1000;
            let jy = (roll(rng, 0, 100) as i128 - 50) * 1000;
            assert(-150_000 <= ux * forward <= 150_000) by (nonlinear_arith)
                requires -1000 <= ux <= 1000, 50 <= forward < 150;
            assert(-150_000 <= uy * forward <= 150_000) by (nonlinear_arith)
                requires -1000 <= uy <= 1000, 50 <= forward < 150;
            let velocity = Point { x: (ux * forward + jx) as i64, y: (uy * forward + jy) as i64 };
            let life = roll(rng, 200, 500);
            let size = roll(rng, 2, 5);
            let p = Particle {
                position,
                velocity,
                lifetime: Timer::new(life, TimerMode::Once),
                max_lifetime: 500,
                color: Rgb { r: 0, g: 128, b: 255 },
                size,
                particle_type: ParticleType::Trail,
            };
            let ghost mid = self.particles@;
            self.particles.push(p);
            assert(self.particles@.take(before.len() as int) =~= mid.take(before.len() as int));
            k = k + 1;
        }
    }

    /// An explosion: `count` particles at speeds of 100 to 300 units per
    /// second, living 0.3 to 0.8 seconds.
    pub fn spawn_explosion(&mut self, rng: &mut StdRng, position: Point, color: Rgb, count: u64)
        requires
            old(self).wf(),
            position.wf(),
        ensures
            final(self).wf(),
            grew_by(old(self).particles@, final(self).particles@, count as int, ParticleType::Explosion, 300, 800, 800),
            extends(old(self).particles@, final(self).particles@, count as int),
            burst_in(
                final(self).particles@,
                old(self).particles@.len() as int,
                count as int,
                ParticleType::Explosion,
                300,
                800,
                800,
                position,
                color,
                100,
                300,
            ),
    {
        let burst = Burst {
            speed_min: 100,
            speed_max: 300,
            life_min: 300,
            life_max: 800,
            max_lifetime: 800,
            size_min: 3,
            size_max: 8,
            particle_type: ParticleType::Explosion,
        };
        self.spawn_burst(rng, position, color, count, &burst);
    }

    /// The spark of a laser hit: eight slow, short-lived cyan particles.
    pub fn spawn_laser_hit(&mut self, rng: &mut StdRng, position: Point)
        requires
            old(self).wf(),
            position.wf(),
        ensures
            final(self).wf(),
            grew_by(old(self).particles@, final(self).particles@, 8, ParticleType::Hit, 200, 400, 400),
            extends(old(self).particles@, final(self).particles@, 8),
            burst_in(
                final(self).particles@,
                old(self).particles@.len() as int,
                8,
                ParticleType::Hit,
                200,
                400,
                400,
                position,
                Rgb { r: 0, g: 204, b: 255 },
                50,
                150,
            ),
    {
        let burst = Burst {
            speed_min: 50,
            speed_max: 150,
            life_min: 200,
            life_max: 400,
            max_lifetime: 400,
            size_min: 2,
            size_max: 4,
            particle_type: ParticleType::Hit,
        };
        self.spawn_burst(rng, position, Rgb { r: 0, g: 204, b: 255 }, 8, &burst);
    }

    /// A mistake: twelve red particles thirty units above `position`.
    pub fn spawn_error_particles(&mut self, rng: &mut StdRng, position: Point)
        requires
            old(self).wf(),
            position.wf(),
        ensures
            final(self).wf(),
            grew_by(old(self).particles@, final(self).particles@, 12, ParticleType::Error, 300, 600, 600),
            extends(old(self).particles@, final(self).particles@, 12),
            burst_in(
                final(self).particles@,
                old(self).particles@.len() as int,
                12,
                ParticleType::Error,
                300,
                600,
                600,
                above(position),
                Rgb { r: 255, g: 51, b: 51 },
                80,
                200,
            ),
    {
        let burst = Burst {
            speed_min: 80,
            speed_max: 200,
            life_min: 300,
            life_max: 600,
            max_lifetime: 600,
            size_min: 3,
            size_max: 6,
            particle_type: ParticleType::Error,
        };
        let above = Point::new(position.x, position.y + 30_000);
        self.spawn_burst(rng, above, Rgb { r: 255, g: 51, b: 51 }, 12, &burst);
    }

    /// Advances every particle by `dt` milliseconds: those whose lifetime
    /// completes are removed, the others move and slow down.
    pub fn update_particles(&mut self, dt: u64)
        requires
            old(self).wf(),
        ensures
            final(self).wf(),
            final(self).particles@ == updated(old(self).particles@, dt as int),
    {
        let mut kept: Vec<Particle> = Vec::new();
        let mut i: usize = 0;
        while i < self.particles.len()
            invariant
                i <= self.particles.len(),
                all_wf(self.particles@),
                all_wf(kept@),
                kept@ == updated(self.particles@.take(i as int), dt as int),
            decreases self.particles.len() - i,
        {
            let p = self.particles[i];
            assert(self.particles@.take(i + 1).drop_last() =~= self.particles@.take(i as int));
            assert(p.wf());
            let mut t = p.lifetime;
            t.tick(dt);
            if !t.finished() {
                let position = p.position.displaced(&p.velocity, dt);
                let velocity = Point { x: drag_component(p.velocity.x), y: drag_component(p.velocity.y) };
                let q = Particle { position, velocity, lifetime: t, ..p };
                proof {
                    assert(p.survives(dt as int));
                    assert(q == p.advanced(dt as int));
                }
                kept.push(q);
            } else {
                assert(!p.survives(dt as int));
            }
            i = i + 1;
        }
        assert(self.particles@.take(self.particles.len() as int) =~= self.particles@);
        self.particles = kept;
    }
}

/// The point a fraction `i / n` of the way from `a` to `b`.
fn lerp_coord(a: i64, b: i64, i: u128, n: u128) -> (r: i64)
    requires
        coord_ok(a as int),
        coord_ok(b as int),
        i < n <= 4_000_000_000,
    ensures
        coord_ok(r as int),
        r == a + div_trunc((b - a) * i, n as int),
{
    let d: i128 = b as i128 - a as i128;
    let s = mul_div_trunc(d, i, n);
    proof {
        if d >= 0 {
            assert(s <= d) by (nonlinear_arith)
                requires s * n <= d * i, i < n, s >= 0, d >= 0;
        } else {
            assert(-s <= -d) by (nonlinear_arith)
                requires -s * n <= -d * i, i < n, s <= 0, d < 0;
        }
    }
    (a as i128 + s) as i64
}

fn drag_component(v: i64) -> (r: i64)
    requires
        coord_ok(v as int),
    ensures
        r == drag(v as int),
        coord_ok(r as int),
{
    if v >= 0 {
        v * 95 / 100
    } else {
        -((-v) * 95 / 100)
    }
}

} // verus!
