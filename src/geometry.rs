//! Fixed-point plane geometry.
//!
//! Positions are in thousandths of a world unit, velocities in thousandths of
//! a world unit per second, and time in milliseconds, so that moving by a
//! velocity for `dt` milliseconds shifts a coordinate by `v * dt / 1000`.

use vstd::prelude::*;

verus! {

/// Largest magnitude of a coordinate; positions are clamped to this box.
pub const WORLD_LIMIT: i64 = 1_000_000_000;

/// A span longer than any distance between two points of the world.
pub const MAX_SPAN: u64 = 4_000_000_000;

/// The distance, in thousandths, covered at `speed` units per second in
/// `dt` milliseconds, capped at `MAX_SPAN`.
pub open spec fn travel(speed: int, dt: int) -> int {
    if speed * dt > MAX_SPAN {
        MAX_SPAN as int
    } else {
        speed * dt
    }
}

pub fn travel_of(speed: u64, dt: u64) -> (r: u64)
    ensures
        r == travel(speed as int, dt as int),
{
    assert(speed * dt <= 0xffff_ffff_ffff_ffff * 0xffff_ffff_ffff_ffff) by (nonlinear_arith)
        requires speed <= 0xffff_ffff_ffff_ffff, dt <= 0xffff_ffff_ffff_ffff;
    let d: u128 = speed as u128 * dt as u128;
    if d > MAX_SPAN as u128 {
        MAX_SPAN
    } else {
        d as u64
    }
}

#[derive(Clone, Copy, Debug, PartialEq, Eq, Structural)]
pub struct Point {
    pub x: i64,
    pub y: i64,
}

pub open spec fn coord_ok(v: int) -> bool {
    -WORLD_LIMIT <= v <= WORLD_LIMIT
}

pub open spec fn clamp_spec(v: int) -> int {
    if v < -WORLD_LIMIT {
        -WORLD_LIMIT as int
    } else if v > WORLD_LIMIT {
        WORLD_LIMIT as int
    } else {
        v
    }
}

/// Division of an integer by a positive one, rounding toward zero.
pub open spec fn div_trunc(a: int, b: int) -> int {
    if a >= 0 {
        a / b
    } else {
        -((-a) / b)
    }
}

pub open spec fn dist2(a: Point, b: Point) -> int {
    (a.x - b.x) * (a.x - b.x) + (a.y - b.y) * (a.y - b.y)
}

/// Approximation of `1000 * sin(deg)` for a whole number of degrees in
/// `[0, 360)`, after Bhaskara: `4x(180 - x) / (40500 - x(180 - x))`.
pub open spec fn sin_spec(deg: int) -> int {
    if deg < 180 {
        4000 * (deg * (180 - deg)) / (40500 - deg * (180 - deg))
    } else {
        -(4000 * ((deg - 180) * (360 - deg)) / (40500 - (deg - 180) * (360 - deg)))
    }
}

/// `from` moved toward `target` by `step`, or onto it when it is no
/// farther than that.
pub open spec fn toward(from: Point, target: Point, step: int) -> Point {
    if dist2(from, target) <= step * step {
        target
    } else {
        let d = isqrt_spec_bound(dist2(from, target));
        Point {
            x: (from.x + div_trunc((target.x - from.x) * step, d)) as i64,
            y: (from.y + div_trunc((target.y - from.y) * step, d)) as i64,
        }
    }
}

impl Point {
    pub open spec fn wf(self) -> bool {
        coord_ok(self.x as int) && coord_ok(self.y as int)
    }

    pub fn new(x: i64, y: i64) -> (r: Point)
        ensures
            r.x == clamp_spec(x as int),
            r.y == clamp_spec(y as int),
            r.wf(),
    {
        Point { x: clamp_coord(x as i128), y: clamp_coord(y as i128) }
    }

    pub open spec fn origin_spec() -> Point {
        Point { x: 0, y: 0 }
    }

    pub fn origin() -> (r: Point)
        ensures
            r == Point::origin_spec(),
            r.wf(),
    {
        Point { x: 0, y: 0 }
    }

    /// Squared distance between two points, in squared thousandths.
    pub fn distance_squared(&self, other: &Point) -> (r: u128)
        requires
            self.wf(),
            other.wf(),
        ensures
            r == dist2(*self, *other),
            r <= 8_000_000_000_000_000_000,
    {
        let dx: i128 = self.x as i128 - other.x as i128;
        let dy: i128 = self.y as i128 - other.y as i128;
        assert(dx * dx <= 4_000_000_000_000_000_000) by (nonlinear_arith)
            requires -2_000_000_000 <= dx <= 2_000_000_000;
        assert(dy * dy <= 4_000_000_000_000_000_000) by (nonlinear_arith)
            requires -2_000_000_000 <= dy <= 2_000_000_000;
        assert(dx * dx >= 0) by (nonlinear_arith);
        assert(dy * dy >= 0) by (nonlinear_arith);
        (dx * dx + dy * dy) as u128
    }

    /// Whether the two points are closer than `radius` (in thousandths).
    pub fn is_within(&self, other: &Point, radius: u64) -> (r: bool)
        requires
            self.wf(),
            other.wf(),
        ensures
            r == (dist2(*self, *other) < radius * radius),
    {
        let d = self.distance_squared(other);
        assert(radius * radius <= 0xffff_ffff_ffff_ffff * 0xffff_ffff_ffff_ffff) by (nonlinear_arith)
            requires radius <= 0xffff_ffff_ffff_ffff;
        let rr: u128 = radius as u128 * radius as u128;
        d < rr
    }

    /// The point shifted by `v` for `dt` milliseconds, clamped to the world.
    pub open spec fn displaced_spec(self, v: Point, dt: int) -> Point {
        Point {
            x: clamp_spec(self.x + div_trunc(v.x * dt, 1000)) as i64,
            y: clamp_spec(self.y + div_trunc(v.y * dt, 1000)) as i64,
        }
    }

    pub fn displaced(&self, v: &Point, dt: u64) -> (r: Point)
        requires
            self.wf(),
            v.wf(),
        ensures
            r.wf(),
            r == self.displaced_spec(*v, dt as int),
    {
        let sx = mul_div(v.x, dt, 1000);
        let sy = mul_div(v.y, dt, 1000);
        Point { x: clamp_coord(self.x as i128 + sx), y: clamp_coord(self.y as i128 + sy) }
    }

    /// The point moved toward `target` by `step` thousandths, or onto the
    /// target when it is no farther than that.
    pub fn moved_toward(&self, target: &Point, step: u64) -> (r: Point)
        requires
            self.wf(),
            target.wf(),
        ensures
            r.wf(),
            r == toward(*self, *target, step as int),
    {
        let d2 = self.distance_squared(target);
        assert(step * step <= 0xffff_ffff_ffff_ffff * 0xffff_ffff_ffff_ffff) by (nonlinear_arith)
            requires step <= 0xffff_ffff_ffff_ffff;
        let s2: u128 = step as u128 * step as u128;
        if d2 <= s2 {
            return *target;
        }
        let d = isqrt(d2);
        proof {
            assert(d > 0) by {
                if d == 0 {
                    assert(d2 < 1);
                }
            }
            assert(step <= d) by (nonlinear_arith)
                requires d2 > step * step, d2 < (d + 1) * (d + 1), d >= 0, step >= 0,
                    d * d <= d2;
            assert(d <= 3_000_000_000) by (nonlinear_arith)
                requires d * d <= d2, d2 <= 8_000_000_000_000_000_000, d >= 0;
            assert(-(d as int) <= target.x - self.x <= d) by (nonlinear_arith)
                requires d2 == (self.x - target.x) * (self.x - target.x) + (self.y - target.y) * (self.y - target.y),
                    d2 < (d + 1) * (d + 1), d >= 0;
            assert(-(d as int) <= target.y - self.y <= d) by (nonlinear_arith)
                requires d2 == (self.x - target.x) * (self.x - target.x) + (self.y - target.y) * (self.y - target.y),
                    d2 < (d + 1) * (d + 1), d >= 0;
        }
        let dx: i128 = target.x as i128 - self.x as i128;
        let dy: i128 = target.y as i128 - self.y as i128;
        let sx = scale_trunc(dx, step, d);
        let sy = scale_trunc(dy, step, d);
        let r = Point { x: (self.x as i128 + sx) as i64, y: (self.y as i128 + sy) as i64 };
        r
    }
}

pub open spec fn is_root(n: int, r: int) -> bool {
    r >= 0 && r * r <= n && n < (r + 1) * (r + 1)
}

/// Integer square root: the largest `r` with `r * r <= n`.
pub open spec fn isqrt_spec_bound(n: int) -> int
    recommends
        n >= 0,
{
    choose|r: int| #[trigger] is_root(n, r)
}

pub fn clamp_coord(v: i128) -> (r: i64)
    ensures
        r == clamp_spec(v as int),
        coord_ok(r as int),
{
    if v < -(WORLD_LIMIT as i128) {
        -WORLD_LIMIT
    } else if v > WORLD_LIMIT as i128 {
        WORLD_LIMIT
    } else {
        v as i64
    }
}

/// `a * b / c` rounded toward zero, for a coordinate-sized `a`.
fn mul_div(a: i64, b: u64, c: u64) -> (r: i128)
    requires
        coord_ok(a as int),
        c > 0,
    ensures
        r == div_trunc(a * b, c as int),
        -1_000_000_000 * 0x1_0000_0000_0000_0000 <= r <= 1_000_000_000 * 0x1_0000_0000_0000_0000,
{
    let m: u128 = if a >= 0 { a as u128 } else { (-(a as i128)) as u128 };
    assert(m * b <= 1_000_000_000 * 0xffff_ffff_ffff_ffff) by (nonlinear_arith)
        requires m <= 1_000_000_000, b <= 0xffff_ffff_ffff_ffff;
    let q: u128 = (m * b as u128) / c as u128;
    assert(m * b <= 1_000_000_000 * 0x1_0000_0000_0000_0000) by (nonlinear_arith)
        requires m <= 1_000_000_000, b <= 0xffff_ffff_ffff_ffff;
    assert(q <= m * b) by (nonlinear_arith)
        requires q == (m * b) / (c as int), c > 0, m * b >= 0;
    if a >= 0 {
        q as i128
    } else {
        assert(a * b == -(m * b)) by (nonlinear_arith)
            requires a == -m;
        -(q as i128)
    }
}

/// `d * step / len` rounded toward zero, where `step <= len` and `|d| <= len`.
fn scale_trunc(d: i128, step: u64, len: u128) -> (r: i128)
    requires
        -(len as int) <= d <= len,
        len <= 3_000_000_000,
        0 < len,
        step <= len,
    ensures
        r == div_trunc(d * step, len as int),
        d >= 0 ==> 0 <= r <= d,
        d < 0 ==> d <= r <= 0,
{
    let m: u128 = if d >= 0 { d as u128 } else { (-d) as u128 };
    assert(m * step <= len * step) by (nonlinear_arith)
        requires m <= len, step >= 0;
    assert(len * step <= 3_000_000_000 * 3_000_000_000) by (nonlinear_arith)
        requires len <= 3_000_000_000, step <= len;
    let q: u128 = (m * step as u128) / len;
    assert(q <= m) by (nonlinear_arith)
        requires q == (m * step) / (len as int), step <= len, len > 0, m >= 0;
    if d >= 0 {
        q as i128
    } else {
        assert(d * step == -(m * step)) by (nonlinear_arith)
            requires d == -m;
        -(q as i128)
    }
}

/// `a * m / q` rounded toward zero, for moderate `a` and `m`.
pub fn mul_div_trunc(a: i128, m: u128, q: u128) -> (r: i128)
    requires
        -4_000_000_000 <= a <= 4_000_000_000,
        m <= 4_000_000_000,
        q > 0,
    ensures
        r == div_trunc(a * m, q as int),
        a >= 0 ==> 0 <= r && r * q <= a * m,
        a < 0 ==> r <= 0 && -r * q <= -a * m,
{
    let mag: u128 = if a >= 0 { a as u128 } else { (-a) as u128 };
    assert(mag * m <= 4_000_000_000 * 4_000_000_000) by (nonlinear_arith)
        requires mag <= 4_000_000_000, m <= 4_000_000_000;
    let v: u128 = (mag * m) / q;
    assert(v * q <= mag * m) by (nonlinear_arith)
        requires v == (mag * m) / (q as int), q > 0, mag * m >= 0;
    assert(v <= mag * m) by (nonlinear_arith)
        requires v * q <= mag * m, q > 0, v >= 0;
    if a >= 0 {
        v as i128
    } else {
        assert(a * m == -(mag * m)) by (nonlinear_arith)
            requires a == -mag;
        -(v as i128)
    }
}

/// Integer square root by bisection.
pub fn isqrt(n: u128) -> (r: u128)
    requires
        n <= 0x1_0000_0000_0000_0000,
    ensures
        r * r <= n < (r + 1) * (r + 1),
        r == isqrt_spec_bound(n as int),
{
    let mut lo: u128 = 0;
    let mut hi: u128 = 0x1_0000_0001;
    assert(hi * hi > n) by (nonlinear_arith)
        requires hi == 0x1_0000_0001, n <= 0x1_0000_0000_0000_0000;
    while hi - lo > 1
        invariant
            lo < hi <= 0x1_0000_0001,
            lo * lo <= n,
            n < hi * hi,
        decreases hi - lo,
    {
        let mid: u128 = lo + (hi - lo) / 2;
        assert(mid * mid <= 0x1_0000_0001 * 0x1_0000_0001) by (nonlinear_arith)
            requires mid <= 0x1_0000_0001;
        if mid * mid <= n {
            lo = mid;
        } else {
            hi = mid;
        }
    }
    assert(hi == lo + 1);
    proof {
        lemma_isqrt_unique(n as int, lo as int);
    }
    lo
}

proof fn lemma_isqrt_unique(n: int, r: int)
    requires
        r >= 0,
        r * r <= n < (r + 1) * (r + 1),
    ensures
        isqrt_spec_bound(n) == r,
{
    assert(is_root(n, r));
    let c = isqrt_spec_bound(n);
    assert(c >= 0 && c * c <= n && n < (c + 1) * (c + 1));
    if c < r {
        assert((c + 1) * (c + 1) <= r * r) by (nonlinear_arith)
            requires c + 1 <= r, c >= 0;
    } else if c > r {
        assert((r + 1) * (r + 1) <= c * c) by (nonlinear_arith)
            requires r + 1 <= c, r >= 0;
    }
}

/// `1000 * sin(deg)` under the approximation of `sin_spec`.
pub fn sin_milli(deg: u32) -> (r: i64)
    ensures
        r == sin_spec((deg % 360) as int),
        -1000 <= r <= 1000,
{
    let d: i64 = (deg % 360) as i64;
    if d < 180 {
        assert(0 <= d * (180 - d) <= 8100) by (nonlinear_arith)
            requires 0 <= d < 180;
        let p: i64 = d * (180 - d);
        assert(0 <= p <= 8100) by (nonlinear_arith)
            requires p == d * (180 - d), 0 <= d < 180;
        let q = (4000 * p) / (40500 - p);
        assert(q <= 1000) by (nonlinear_arith)
            requires q == (4000 * p) / (40500 - p), 0 <= p <= 8100;
        assert(q >= 0) by (nonlinear_arith)
            requires q == (4000 * p) / (40500 - p), 0 <= p <= 8100;
        q
    } else {
        let e: i64 = d - 180;
        assert(0 <= e * (360 - d) <= 8100) by (nonlinear_arith)
            requires e == d - 180, 180 <= d < 360;
        let p: i64 = e * (360 - d);
        assert(0 <= p <= 8100) by (nonlinear_arith)
            requires p == e * (360 - d), e == d - 180, 180 <= d < 360;
        let q = (4000 * p) / (40500 - p);
        assert(q <= 1000) by (nonlinear_arith)
            requires q == (4000 * p) / (40500 - p), 0 <= p <= 8100;
        assert(q >= 0) by (nonlinear_arith)
            requires q == (4000 * p) / (40500 - p), 0 <= p <= 8100;
        -q
    }
}

/// How far the direction of heading `deg` goes along `(dx, dy)`.
pub open spec fn alignment(deg: int, dx: int, dy: int) -> int {
    sin_spec(((deg % 360) + 90) % 360) * dx + sin_spec(deg % 360) * dy
}

/// The whole-degree heading that points most nearly along `(dx, dy)`: the
/// first of those whose direction goes farthest along it.
pub fn heading_toward(dx: i64, dy: i64) -> (r: u32)
    requires
        -4_000_000_000 <= dx <= 4_000_000_000,
        -4_000_000_000 <= dy <= 4_000_000_000,
    ensures
        r < 360,
        forall|d: int| 0 <= d < 360 ==> #[trigger] alignment(d, dx as int, dy as int) <= alignment(r as int, dx as int, dy as int),
{
    let mut best: u32 = 0;
    let c0 = cos_milli(0);
    let s0 = sin_milli(0);
    assert(-4_000_000_000_000 <= c0 * dx <= 4_000_000_000_000) by (nonlinear_arith)
        requires -1000 <= c0 <= 1000, -4_000_000_000 <= dx <= 4_000_000_000;
    assert(-4_000_000_000_000 <= s0 * dy <= 4_000_000_000_000) by (nonlinear_arith)
        requires -1000 <= s0 <= 1000, -4_000_000_000 <= dy <= 4_000_000_000;
    let mut best_score: i128 = c0 as i128 * dx as i128 + s0 as i128 * dy as i128;
    let mut d: u32 = 1;
    while d < 360
        invariant
            1 <= d <= 360,
            best < d,
            -4_000_000_000 <= dx <= 4_000_000_000,
            -4_000_000_000 <= dy <= 4_000_000_000,
            best_score == alignment(best as int, dx as int, dy as int),
            forall|e: int| 0 <= e < d ==> #[trigger] alignment(e, dx as int, dy as int) <= best_score,
        decreases 360 - d,
    {
        let c = cos_milli(d);
        let s = sin_milli(d);
        assert(-4_000_000_000_000 <= c * dx <= 4_000_000_000_000) by (nonlinear_arith)
            requires -1000 <= c <= 1000, -4_000_000_000 <= dx <= 4_000_000_000;
        assert(-4_000_000_000_000 <= s * dy <= 4_000_000_000_000) by (nonlinear_arith)
            requires -1000 <= s <= 1000, -4_000_000_000 <= dy <= 4_000_000_000;
        let score: i128 = c as i128 * dx as i128 + s as i128 * dy as i128;
        if score > best_score {
            best = d;
            best_score = score;
        }
        d = d + 1;
    }
    best
}

/// `1000 * cos(deg)`, as the sine a quarter turn ahead.
pub fn cos_milli(deg: u32) -> (r: i64)
    ensures
        r == sin_spec(((deg % 360) + 90) % 360),
        -1000 <= r <= 1000,
{
    sin_milli(deg % 360 + 90)
}

} // verus!
