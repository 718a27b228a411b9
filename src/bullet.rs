//! Projectiles, as far as the core sees them: the signal that a unit fired,
//! and the damage that a projectile deals where it meets a unit.
use vstd::prelude::*;

use crate::component::{ActorView, Body, Health};
use crate::geometry::{dist_sq, distance_squared, Point};
use crate::world::World;

verus! {

/// A projectile fired by a unit of owner `owner`.
#[derive(Clone, Copy, Debug, PartialEq, Eq, Structural)]
pub struct Bullet {
    pub owner: usize,
}

/// Damage that a projectile deals on impact.
#[derive(Clone, Copy, Debug, PartialEq, Eq, Structural)]
pub struct Damage {
    pub value: i32,
}

/// A unit of owner `.0` fired from `.1` while facing `.2` (milliradians).
#[derive(Clone, Copy, Debug, PartialEq, Eq, Structural)]
pub struct Fire(pub usize, pub Point, pub i64);

/// Health after losing `d` points, never below `i32::MIN`.
pub open spec fn lowered(h: Health, d: int) -> Health {
    Health {
        current: if h.current - d < i32::MIN { i32::MIN } else { (h.current - d) as i32 },
        ..h
    }
}

/// A body after a hit of `d` points; only active units take damage.
pub open spec fn damaged_body(b: Body, d: int) -> Body {
    if b.is_active() {
        Body { health: lowered(b.health, d), ..b }
    } else {
        b
    }
}

/// A projectile at `p` of radius `r` meets unit `b`.
pub open spec fn meets(b: Body, p: Point, r: int) -> bool {
    b.is_active() && dist_sq(b.position, p) < (r + b.radius.value) * (r + b.radius.value)
}

/// The arena after a hit of `d` points on unit `id`.
pub open spec fn damaged(w: Seq<ActorView>, id: int, d: int) -> Seq<ActorView> {
    if 0 <= id < w.len() {
        w.update(id, ActorView { body: damaged_body(w[id].body, d), timeline: w[id].timeline })
    } else {
        w
    }
}

/// Health lowered by `d`.
fn lower(h: Health, d: i32) -> (r: Health)
    requires
        d >= 0,
    ensures
        r == lowered(h, d as int),
        r.current <= h.current,
{
    let c = h.current as i64 - d as i64;
    Health { current: if c < i32::MIN as i64 { i32::MIN } else { c as i32 }, ..h }
}

impl World {
    /// A direct hit of `d` points on unit `id`. Units that are not active
    /// (dead, ghosts, despawned) take no damage.
    pub fn apply_damage(&mut self, id: usize, d: i32)
        requires
            old(self).wf(),
            d >= 0,
        ensures
            final(self).wf(),
            final(self).clock == old(self).clock,
            final(self)@ == damaged(old(self)@, id as int, d as int),
    {
        if id >= self.actors.len() {
            return;
        }
        let ghost w = self@;
        assert(w[id as int] == self.actors@[id as int]@);
        let b = self.actors[id].body;
        if b.spawned && b.state.value != crate::component::State::Dead && b.phantom.is_none() {
            self.actors[id].body.health = lower(b.health, d);
        }
        assert(self@ =~= damaged(w, id as int, d as int));
        assert forall|i: int| 0 <= i < self@.len() implies (#[trigger] self@[i]).wf(
            self@.len(),
            self.clock,
        ) by {
            assert(w[i].wf(w.len(), self.clock));
        }
    }
}

/// A projectile at `p` of radius `r` and damage `d`: every active unit it
/// meets loses `d` health. Returns whether it met any.
pub fn collision(world: &mut World, p: Point, r: i64, d: i32) -> (hit: bool)
    requires
        old(world).wf(),
        p.wf(),
        0 < r <= crate::component::RADIUS_LIMIT,
        d >= 0,
    ensures
        final(world).wf(),
        final(world).clock == old(world).clock,
        final(world)@ == Seq::new(
            old(world)@.len(),
            |i: int|
                if meets(old(world)@[i].body, p, r as int) {
                    ActorView {
                        body: damaged_body(old(world)@[i].body, d as int),
                        timeline: old(world)@[i].timeline,
                    }
                } else {
                    old(world)@[i]
                },
        ),
        hit == exists|i: int| 0 <= i < old(world)@.len() && meets(old(world)@[i].body, p, r as int),
{
    let n = world.actors.len();
    let ghost w = world@;
    let mut hit = false;
    let mut i: usize = 0;
    while i < n
        invariant
            world.wf(),
            world.clock == old(world).clock,
            old(world)@ == w,
            n == w.len(),
            n == world@.len(),
            0 <= i <= n,
            0 < r <= crate::component::RADIUS_LIMIT,
            p.wf(),
            d >= 0,
            forall|k: int|
                0 <= k < i ==> #[trigger] world@[k] == if meets(w[k].body, p, r as int) {
                    ActorView { body: damaged_body(w[k].body, d as int), timeline: w[k].timeline }
                } else {
                    w[k]
                },
            forall|k: int| i <= k < n ==> #[trigger] world@[k] == w[k],
            hit == exists|k: int| 0 <= k < i && meets(w[k].body, p, r as int),
        decreases n - i,
    {
        let b = world.actors[i].body;
        assert(world@[i as int] == w[i as int]);
        assert(w[i as int].wf(n as nat, world.clock));
        let ghost before = world@;
        let rr = (r + b.radius.value) as u64;
        assert(rr * rr <= 4_000_000_000_000) by (nonlinear_arith)
            requires rr <= 2_000_000;
        if b.spawned && b.state.value != crate::component::State::Dead && b.phantom.is_none()
            && distance_squared(b.position, p) < rr * rr {
            world.apply_damage(i, d);
            hit = true;
        }
        assert(forall|k: int| 0 <= k < n && k != i ==> world@[k] == before[k]);
        i = i + 1;
    }
    assert(world@ =~= Seq::new(
        w.len(),
        |i: int|
            if meets(w[i].body, p, r as int) {
                ActorView { body: damaged_body(w[i].body, d as int), timeline: w[i].timeline }
            } else {
                w[i]
            },
    ));
    hit
}

} // verus!
