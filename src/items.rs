//! Health pickups that fall from the top of the field.

use crate::enemy::near;
use crate::geometry::{clamp_spec, Point};
use crate::particles::{ParticleEngine, Rgb};
use crate::player::Ship;
use crate::random::roll;
use crate::timer::Timer;
use rand::rngs::StdRng;
use vstd::prelude::*;

verus! {

/// A pickup worth one hit point; `fall_speed` is in units per second.
#[derive(Clone, Copy, Debug, PartialEq, Eq, Structural)]
pub struct HealthItem {
    pub position: Point,
    pub fall_speed: u64,
}

/// Pickup distance, in thousandths of a unit.
pub const PICKUP_RADIUS: u64 = 40_000;

/// Height under which a falling item is gone, in thousandths of a unit.
pub const FLOOR: i64 = -500_000;

impl HealthItem {
    pub open spec fn wf(self) -> bool {
        self.position.wf() && self.fall_speed <= 1_000_000
    }

    /// The item after falling for `dt` milliseconds.
    pub open spec fn fallen(self, dt: int) -> HealthItem {
        HealthItem {
            position: Point { y: clamp_spec(self.position.y - self.fall_speed * dt) as i64, ..self.position },
            ..self
        }
    }
}

pub open spec fn items_wf(items: Seq<HealthItem>) -> bool {
    forall|i: int| 0 <= i < items.len() ==> #[trigger] items[i].wf()
}

/// The items after falling for `dt`, without those then below the floor.
pub open spec fn fallen_items(items: Seq<HealthItem>, dt: int) -> Seq<HealthItem>
    decreases items.len(),
{
    if items.len() == 0 {
        items
    } else {
        let rest = fallen_items(items.drop_last(), dt);
        let f = items.last().fallen(dt);
        if f.position.y < FLOOR {
            rest
        } else {
            rest.push(f)
        }
    }
}

/// The items out of reach of a ship at `pos`.
pub open spec fn out_of_reach(items: Seq<HealthItem>, pos: Point) -> Seq<HealthItem>
    decreases items.len(),
{
    if items.len() == 0 {
        items
    } else {
        let rest = out_of_reach(items.drop_last(), pos);
        if near(items.last().position, pos, PICKUP_RADIUS as int) {
            rest
        } else {
            rest.push(items.last())
        }
    }
}

/// How many items are within reach of a ship at `pos`.
pub open spec fn reached(items: Seq<HealthItem>, pos: Point) -> nat
    decreases items.len(),
{
    if items.len() == 0 {
        0
    } else {
        reached(items.drop_last(), pos) + if near(items.last().position, pos, PICKUP_RADIUS as int) {
            1nat
        } else {
            0nat
        }
    }
}

/// Hit points after `n` pickups, at most `i32::MAX`.
pub open spec fn healed(hp: i32, n: nat) -> i32 {
    if hp + n > i32::MAX {
        i32::MAX
    } else {
        (hp + n) as i32
    }
}

/// Adds a pickup at `position`, falling at 120 units per second.
pub fn spawn_health_item(items: &mut Vec<HealthItem>, position: Point)
    requires
        position.wf(),
    ensures
        final(items)@ == old(items)@.push(HealthItem { position, fall_speed: 120 }),
{
    items.push(HealthItem { position, fall_speed: 120 });
}

/// Lets every item fall for `dt` milliseconds and removes those that drop
/// below the floor.
pub fn health_item_movement(items: &mut Vec<HealthItem>, dt: u64)
    requires
        items_wf(old(items)@),
    ensures
        items_wf(final(items)@),
        final(items)@ == fallen_items(old(items)@, dt as int),
{
    let mut kept: Vec<HealthItem> = Vec::new();
    let mut i: usize = 0;
    while i < items.len()
        invariant
            i <= items.len(),
            items_wf(items@),
            items_wf(kept@),
            kept@ == fallen_items(items@.take(i as int), dt as int),
        decreases items.len() - i,
    {
        let it = items[i];
        assert(items@.take(i + 1).drop_last() =~= items@.take(i as int));
        assert(it.wf());
        assert(it.fall_speed * dt <= 1_000_000 * 0xffff_ffff_ffff_ffff) by (nonlinear_arith)
            requires it.fall_speed <= 1_000_000, dt <= 0xffff_ffff_ffff_ffff;
        let drop: i128 = it.fall_speed as i128 * dt as i128;
        let y = crate::geometry::clamp_coord(it.position.y as i128 - drop);
        let f = HealthItem { position: Point { x: it.position.x, y }, fall_speed: it.fall_speed };
        if y >= FLOOR {
            kept.push(f);
        }
        i = i + 1;
    }
    assert(items@.take(items.len() as int) =~= items@);
    *items = kept;
}

/// Every item within reach of the ship is picked up: one hit point each,
/// and a green burst of twelve particles where it was.
pub fn health_item_collection(
    ship: &mut Ship,
    items: &mut Vec<HealthItem>,
    particles: &mut ParticleEngine,
    rng: &mut StdRng,
) -> (picked: usize)
    requires
        old(ship).wf(),
        items_wf(old(items)@),
        old(particles).wf(),
    ensures
        final(ship).wf(),
        items_wf(final(items)@),
        final(particles).wf(),
        picked == reached(old(items)@, old(ship).position),
        final(items)@ == out_of_reach(old(items)@, old(ship).position),
        *final(ship) == (Ship { hp: healed(old(ship).hp, picked as nat), ..*old(ship) }),
        final(particles).particles@.len() == old(particles).particles@.len() + 12 * picked,
{
    let ghost start = *ship;
    let ghost all = items@;
    let ghost n0 = particles.particles@.len();
    let pos = ship.position;
    let mut kept: Vec<HealthItem> = Vec::new();
    let mut picked: usize = 0;
    let mut i: usize = 0;
    while i < items.len()
        invariant
            i <= items.len(),
            items@ == all,
            pos == start.position,
            pos.wf(),
            items_wf(all),
            items_wf(kept@),
            particles.wf(),
            picked == reached(all.take(i as int), pos),
            picked <= i,
            kept@ == out_of_reach(all.take(i as int), pos),
            *ship == (Ship { hp: healed(start.hp, picked as nat), ..start }),
            particles.particles@.len() == n0 + 12 * picked,
        decreases items.len() - i,
    {
        let it = items[i];
        assert(all.take(i + 1).drop_last() =~= all.take(i as int));
        assert(it.wf());
        if it.position.is_within(&pos, PICKUP_RADIUS) {
            if ship.hp < i32::MAX {
                ship.hp = ship.hp + 1;
            }
            particles.spawn_explosion(rng, it.position, Rgb { r: 0, g: 255, b: 0 }, 12);
            picked = picked + 1;
        } else {
            kept.push(it);
        }
        i = i + 1;
    }
    assert(all.take(items.len() as int) =~= all);
    *items = kept;
    picked
}

/// Runs the pickup timer; when it fires, a pickup appears at a random
/// point between -300 and 300 units across, 450 units up. Returns whether
/// one appeared.
pub fn spawn_periodic_items(timer: &mut Timer, items: &mut Vec<HealthItem>, rng: &mut StdRng, dt: u64) -> (spawned: bool)
    requires
        old(timer).wf(),
        items_wf(old(items)@),
    ensures
        final(timer).wf(),
        *final(timer) == old(timer).ticked(dt as int),
        items_wf(final(items)@),
        spawned == old(timer).fires(dt as int),
        !spawned ==> final(items)@ == old(items)@,
        spawned ==> final(items)@.drop_last() == old(items)@ && final(items)@.len() == old(items)@.len() + 1
            && final(items)@.last().position.y == 450_000 && -300_000 <= final(items)@.last().position.x
            < 300_000 && final(items)@.last().fall_speed == 120,
{
    if !timer.tick(dt) {
        return false;
    }
    let x = roll(rng, 0, 600_000) as i64 - 300_000;
    let ghost before = items@;
    spawn_health_item(items, Point { x, y: 450_000 });
    assert(items@.drop_last() =~= before);
    proof {
        assert forall|k: int| 0 <= k < items@.len() implies #[trigger] items@[k].wf() by {
            if k < before.len() {
                assert(items@[k] == before[k]);
            }
        }
    }
    true
}

} // verus!
