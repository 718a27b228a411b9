//! Steering and collision: arrival at the target point, velocity toward it,
//! integration of velocity, and pairwise separation of overlapping units.
use vstd::prelude::*;

use crate::component::{ActorView, Body, Carry, CurrentState, State, Velocity, SPEED_LIMIT, SUBUNITS};
use crate::geometry::{
    clamp, clamped_point, dist_sq, distance, is_isqrt, root, tdiv, trunc_div, Point,
};
use crate::world::World;

verus! {

/// Distance below which a moving unit has arrived.
pub const ARRIVAL_DISTANCE: i64 = 5;

/// Longest frame that one integration step accepts, in microseconds.
pub const MAX_FRAME: u64 = 1_000_000_000;

/// The target point of a body.
pub open spec fn target_point(b: Body) -> Point {
    Point { x: b.target.x, y: b.target.y }
}

/// A body after the arrival check: a moving unit closer to its target point
/// than the arrival distance becomes idle and stops.
pub open spec fn arrived_body(b: Body) -> Body {
    if b.is_active() && b.state.value == State::Move && dist_sq(b.position, target_point(b))
        < ARRIVAL_DISTANCE * ARRIVAL_DISTANCE {
        Body { state: CurrentState { value: State::Idle }, velocity: Velocity { x: 0, y: 0 }, ..b }
    } else {
        b
    }
}

/// The velocity that takes a body straight toward its target point at its
/// move speed; zero on the point itself.
pub open spec fn seek_velocity(b: Body) -> Velocity {
    let dx = b.target.x - b.position.x;
    let dy = b.target.y - b.position.y;
    let d = root(dist_sq(b.position, target_point(b)));
    if d == 0 {
        Velocity { x: 0, y: 0 }
    } else {
        Velocity {
            x: tdiv(dx * b.move_speed.value, d) as i64,
            y: tdiv(dy * b.move_speed.value, d) as i64,
        }
    }
}

/// A body after steering: a moving unit heads for its target point.
pub open spec fn steered_body(b: Body) -> Body {
    if b.is_active() && b.state.value == State::Move {
        Body { velocity: seek_velocity(b), ..b }
    } else {
        b
    }
}

/// Motion over `dt` microseconds along one axis, in millionths of a world
/// unit, with the carry from earlier frames.
pub open spec fn travel(carry: int, v: int, dt: u64) -> int {
    carry + v * dt
}

/// The whole world units of a travel, rounded toward zero.
pub open spec fn whole(t: int) -> int {
    tdiv(t, SUBUNITS as int)
}

/// A body after integrating its velocity over `dt` microseconds: it moves
/// by its velocity times `dt`, the whole units into its position (which
/// stays in the arena) and the rest into its carry; its velocity is spent.
pub open spec fn integrated_body(b: Body, dt: u64) -> Body {
    if b.is_active() {
        let tx = travel(b.carry.x as int, b.velocity.x as int, dt);
        let ty = travel(b.carry.y as int, b.velocity.y as int, dt);
        Body {
            position: clamped_point(b.position.x + whole(tx), b.position.y + whole(ty)),
            carry: Carry {
                x: (tx - whole(tx) * SUBUNITS) as i64,
                y: (ty - whole(ty) * SUBUNITS) as i64,
            },
            velocity: Velocity { x: 0, y: 0 },
            ..b
        }
    } else {
        b
    }
}

/// Arrival happens once: a moving unit within the arrival distance of its
/// target point becomes idle and stops, and an idle unit stays idle through
/// arrival, steering and integration.
pub proof fn lemma_arrival_once(b: Body, dt: u64)
    ensures
        b.is_active() && b.state.value == State::Move && dist_sq(b.position, target_point(b))
            < ARRIVAL_DISTANCE * ARRIVAL_DISTANCE ==> arrived_body(b).state.value == State::Idle
            && arrived_body(b).velocity == (Velocity { x: 0, y: 0 }),
        b.state.value == State::Idle ==> {
            &&& arrived_body(b) == b
            &&& steered_body(b) == b
            &&& integrated_body(b, dt).state.value == State::Idle
        },
{
}

/// What is left of a travel after its whole units lies strictly within one
/// unit, on the travel's side of zero.
proof fn lemma_carry_bound(t: int)
    ensures
        -SUBUNITS < t - whole(t) * SUBUNITS < SUBUNITS,
        t >= 0 ==> 0 <= t - whole(t) * SUBUNITS,
        t < 0 ==> t - whole(t) * SUBUNITS <= 0,
{
    let s = SUBUNITS as int;
    if t >= 0 {
        vstd::arithmetic::div_mod::lemma_fundamental_div_mod(t, s);
        assert(whole(t) == t / s);
        assert(t - (t / s) * s == t % s) by (nonlinear_arith)
            requires t == s * (t / s) + t % s;
    } else {
        vstd::arithmetic::div_mod::lemma_fundamental_div_mod(-t, s);
        assert(whole(t) == -((-t) / s));
        assert(t - whole(t) * s == -((-t) % s)) by (nonlinear_arith)
            requires -t == s * ((-t) / s) + (-t) % s, whole(t) == -((-t) / s);
    }
}

/// Integration loses no motion: away from the arena's edges, position and
/// carry together advance by exactly velocity times `dt`, in millionths of
/// a world unit.
pub proof fn lemma_integration_exact(b: Body, dt: u64)
    requires
        b.is_active(),
        crate::geometry::in_arena(b.position.x + whole(travel(b.carry.x as int, b.velocity.x as int, dt))),
        crate::geometry::in_arena(b.position.y + whole(travel(b.carry.y as int, b.velocity.y as int, dt))),
    ensures
        ({
            let e = integrated_body(b, dt);
            &&& e.position.x * SUBUNITS + e.carry.x == b.position.x * SUBUNITS + b.carry.x + b.velocity.x * dt
            &&& e.position.y * SUBUNITS + e.carry.y == b.position.y * SUBUNITS + b.carry.y + b.velocity.y * dt
        }),
{
    let tx = travel(b.carry.x as int, b.velocity.x as int, dt);
    let ty = travel(b.carry.y as int, b.velocity.y as int, dt);
    lemma_carry_bound(tx);
    lemma_carry_bound(ty);
    let e = integrated_body(b, dt);
    assert(e.position.x == b.position.x + whole(tx));
    assert(e.position.y == b.position.y + whole(ty));
    assert(e.position.x * SUBUNITS == b.position.x * SUBUNITS + whole(tx) * SUBUNITS) by (nonlinear_arith)
        requires e.position.x == b.position.x + whole(tx);
    assert(e.position.y * SUBUNITS == b.position.y * SUBUNITS + whole(ty) * SUBUNITS) by (nonlinear_arith)
        requires e.position.y == b.position.y + whole(ty);
}

/// The arena with each body mapped by `f`.
pub open spec fn bodies_mapped(w: Seq<ActorView>, f: spec_fn(Body) -> Body) -> Seq<ActorView> {
    w.map_values(|a: ActorView| ActorView { body: f(a.body), timeline: a.timeline })
}

/// A coordinate difference scaled by `m / len`, rounded toward zero.
proof fn lemma_scaled_bound(c: int, m: int, len: int)
    requires
        0 < len,
        -len <= c <= len,
        0 <= m,
    ensures
        -m <= tdiv(c * m, len) <= m,
{
    if c >= 0 {
        assert(c * m <= len * m) by (nonlinear_arith)
            requires 0 <= c <= len, 0 <= m;
        assert((c * m) / len <= (len * m) / len) by (nonlinear_arith)
            requires c * m <= len * m, 0 < len;
        assert((len * m) / len == m) by (nonlinear_arith)
            requires 0 < len;
        assert(c * m >= 0) by (nonlinear_arith)
            requires 0 <= c, 0 <= m;
    } else {
        assert((-c) * m <= len * m) by (nonlinear_arith)
            requires 0 <= -c <= len, 0 <= m;
        assert(((-c) * m) / len <= (len * m) / len) by (nonlinear_arith)
            requires (-c) * m <= len * m, 0 < len;
        assert((len * m) / len == m) by (nonlinear_arith)
            requires 0 < len;
        assert(-(c * m) == (-c) * m) by (nonlinear_arith);
        assert((-c) * m >= 0) by (nonlinear_arith)
            requires 0 <= -c, 0 <= m;
    }
}

/// Each coordinate difference is at most the distance.
proof fn lemma_coord_within_root(dx: int, dy: int, d: int)
    requires
        is_isqrt(dx * dx + dy * dy, d),
    ensures
        -d <= dx <= d,
        -d <= dy <= d,
{
    assert(dx * dx >= 0) by (nonlinear_arith);
    assert(dy * dy >= 0) by (nonlinear_arith);
    assert(dx * dx < (d + 1) * (d + 1)) by (nonlinear_arith)
        requires dx * dx + dy * dy < (d + 1) * (d + 1), dy * dy >= 0;
    assert(dy * dy < (d + 1) * (d + 1)) by (nonlinear_arith)
        requires dx * dx + dy * dy < (d + 1) * (d + 1), dx * dx >= 0;
    assert(-d <= dx <= d) by (nonlinear_arith)
        requires dx * dx < (d + 1) * (d + 1), d >= 0;
    assert(-d <= dy <= d) by (nonlinear_arith)
        requires dy * dy < (d + 1) * (d + 1), d >= 0;
}

/// A body whose position, target point and speed are in range.
pub open spec fn seekable(b: Body) -> bool {
    &&& b.position.wf()
    &&& crate::geometry::in_arena(b.target.x as int)
    &&& crate::geometry::in_arena(b.target.y as int)
    &&& 0 <= b.move_speed.value <= SPEED_LIMIT
}

/// Heading for the target point never exceeds the move speed.
proof fn lemma_seek_bound(b: Body)
    requires
        seekable(b),
    ensures
        -b.move_speed.value <= seek_velocity(b).x <= b.move_speed.value,
        -b.move_speed.value <= seek_velocity(b).y <= b.move_speed.value,
{
    let t = target_point(b);
    let d = root(dist_sq(b.position, t));
    let dx = b.target.x - b.position.x;
    let dy = b.target.y - b.position.y;
    let s = b.move_speed.value as int;
    if d != 0 {
        let n = dist_sq(b.position, t);
        assert(n >= 0) by (nonlinear_arith)
            requires n == (b.position.x - t.x) * (b.position.x - t.x) + (b.position.y - t.y) * (b.position.y - t.y);
        assert(exists|r: int| is_isqrt(n, r)) by {
            crate::geometry::lemma_isqrt_exists(n);
        }
        assert(n == dx * dx + dy * dy) by (nonlinear_arith)
            requires n == (b.position.x - t.x) * (b.position.x - t.x) + (b.position.y - t.y) * (b.position.y - t.y),
                dx == t.x - b.position.x, dy == t.y - b.position.y;
        lemma_coord_within_root(dx, dy, d);
        lemma_scaled_bound(dx, s, d);
        lemma_scaled_bound(dy, s, d);
    }
}

/// How the overlap `o` of two units of radii `r1` and `r2` is split into
/// the lengths each is pushed: equal halves, rounded up, for equal radii;
/// otherwise the larger unit takes its share (the other's radius over the
/// combined radius), rounded down, and the smaller unit the rest.
pub open spec fn push_lengths(o: int, r1: int, r2: int) -> (int, int) {
    if r1 == r2 {
        ((o + 1) / 2, (o + 1) / 2)
    } else if r1 > r2 {
        let m1 = o * r2 / (r1 + r2);
        (m1, o - m1)
    } else {
        let m2 = o * r1 / (r1 + r2);
        (o - m2, m2)
    }
}

/// The distance between two points as collision counts it: at least 1.
pub open spec fn contact_distance(p1: Point, p2: Point) -> int {
    let d = root(dist_sq(p1, p2));
    if d < 1 { 1 } else { d }
}

/// How far two overlapping units are pushed apart: the displacement of the
/// first unit and of the second. The push runs along the line between the
/// centres (along the x axis where they coincide), its lengths split as
/// `push_lengths` says, so that together they close the overlap.
pub open spec fn separation(p1: Point, r1: int, p2: Point, r2: int) -> (int, int, int, int) {
    let dx = p1.x - p2.x;
    let dy = p1.y - p2.y;
    let dist = contact_distance(p1, p2);
    let combined = r1 + r2;
    if dist >= combined {
        (0, 0, 0, 0)
    } else {
        let m = push_lengths(combined - dist, r1, r2);
        let (nx, ny) = if dx == 0 && dy == 0 { (1int, 0int) } else { (dx, dy) };
        (tdiv(nx * m.0, dist), tdiv(ny * m.0, dist), -tdiv(nx * m.1, dist), -tdiv(ny * m.1, dist))
    }
}

/// Two overlapping units of equal radius are pushed apart by equal and
/// opposite displacements.
pub proof fn lemma_collision_symmetric(p1: Point, p2: Point, r: int)
    ensures
        ({
            let s = separation(p1, r, p2, r);
            s.0 == -s.2 && s.1 == -s.3
        }),
{
}

/// The push lengths of two units close the overlap, and the larger unit is
/// pushed strictly less far than the smaller one.
pub proof fn lemma_push_lengths(o: int, r1: int, r2: int)
    requires
        o > 0,
        0 < r2 < r1,
    ensures
        0 <= push_lengths(o, r1, r2).0 < push_lengths(o, r1, r2).1,
        push_lengths(o, r1, r2).0 + push_lengths(o, r1, r2).1 == o,
{
    let c = r1 + r2;
    let m1 = o * r2 / c;
    assert(o * r2 >= 0) by (nonlinear_arith)
        requires o > 0, r2 > 0;
    assert(m1 >= 0) by (nonlinear_arith)
        requires o * r2 >= 0, c > 0, m1 == o * r2 / c;
    assert(m1 * c <= o * r2) by (nonlinear_arith)
        requires m1 == o * r2 / c, c > 0, o * r2 >= 0;
    assert(2 * m1 < o) by (nonlinear_arith)
        requires m1 * c <= o * r2, c == r1 + r2, 0 < r2 < r1, o > 0, m1 >= 0;
}

/// Scaling by a smaller length never moves farther.
proof fn lemma_scaled_monotone(n: int, m1: int, m2: int, d: int)
    requires
        0 <= m1 <= m2,
        d >= 1,
    ensures
        abs(tdiv(n * m1, d)) <= abs(tdiv(n * m2, d)),
{
    if n >= 0 {
        assert(0 <= n * m1 <= n * m2) by (nonlinear_arith)
            requires n >= 0, 0 <= m1 <= m2;
        vstd::arithmetic::div_mod::lemma_div_is_ordered(n * m1, n * m2, d);
        vstd::arithmetic::div_mod::lemma_div_pos_is_pos(n * m1, d);
    } else {
        assert(0 <= (-n) * m1 <= (-n) * m2) by (nonlinear_arith)
            requires n < 0, 0 <= m1 <= m2;
        assert(n * m1 == -((-n) * m1)) by (nonlinear_arith);
        assert(n * m2 == -((-n) * m2)) by (nonlinear_arith);
        vstd::arithmetic::div_mod::lemma_div_is_ordered((-n) * m1, (-n) * m2, d);
        vstd::arithmetic::div_mod::lemma_div_pos_is_pos((-n) * m1, d);
        if n * m2 == 0 {
            assert((-n) * m2 == 0);
        }
        if n * m1 == 0 {
            assert((-n) * m1 == 0);
        }
    }
}

pub open spec fn abs(a: int) -> int {
    if a >= 0 { a } else { -a }
}

/// Larger units displace less: of two overlapping units, the one of larger
/// radius is pushed no farther along either axis than the other, and
/// strictly less far in length.
pub proof fn lemma_larger_displaces_less(p1: Point, r1: int, p2: Point, r2: int)
    requires
        0 < r2 < r1,
    ensures
        ({
            let s = separation(p1, r1, p2, r2);
            abs(s.0) <= abs(s.2) && abs(s.1) <= abs(s.3)
        }),
        contact_distance(p1, p2) < r1 + r2 ==> push_lengths(r1 + r2 - contact_distance(p1, p2), r1, r2).0
            < push_lengths(r1 + r2 - contact_distance(p1, p2), r1, r2).1,
{
    let dist = contact_distance(p1, p2);
    if dist < r1 + r2 {
        let m = push_lengths(r1 + r2 - dist, r1, r2);
        lemma_push_lengths(r1 + r2 - dist, r1, r2);
        let dx = p1.x - p2.x;
        let dy = p1.y - p2.y;
        let (nx, ny) = if dx == 0 && dy == 0 { (1int, 0int) } else { (dx, dy) };
        lemma_scaled_monotone(nx, m.0, m.1, dist);
        lemma_scaled_monotone(ny, m.0, m.1, dist);
    }
}

/// The arena after units `i` and `j` are separated, if both are active.
pub open spec fn pair_separated(w: Seq<ActorView>, i: int, j: int) -> Seq<ActorView> {
    let a = w[i].body;
    let b = w[j].body;
    if a.is_active() && b.is_active() {
        let s = separation(a.position, a.radius.value as int, b.position, b.radius.value as int);
        w.update(
            i,
            ActorView { body: Body { position: clamped_point(a.position.x + s.0, a.position.y + s.1), ..a }, timeline: w[i].timeline },
        ).update(
            j,
            ActorView { body: Body { position: clamped_point(b.position.x + s.2, b.position.y + s.3), ..b }, timeline: w[j].timeline },
        )
    } else {
        w
    }
}

/// Away from the arena's edges, separating two active units of equal radius
/// moves them by equal and opposite amounts.
pub proof fn lemma_pair_symmetric(w: Seq<ActorView>, i: int, j: int)
    requires
        0 <= i < w.len(),
        0 <= j < w.len(),
        i != j,
        w[i].body.is_active(),
        w[j].body.is_active(),
        w[i].body.radius == w[j].body.radius,
        ({
            let a = w[i].body;
            let b = w[j].body;
            let s = separation(a.position, a.radius.value as int, b.position, b.radius.value as int);
            &&& crate::geometry::in_arena(a.position.x + s.0)
            &&& crate::geometry::in_arena(a.position.y + s.1)
            &&& crate::geometry::in_arena(b.position.x + s.2)
            &&& crate::geometry::in_arena(b.position.y + s.3)
        }),
    ensures
        ({
            let v = pair_separated(w, i, j);
            &&& v[i].body.position.x - w[i].body.position.x == -(v[j].body.position.x - w[j].body.position.x)
            &&& v[i].body.position.y - w[i].body.position.y == -(v[j].body.position.y - w[j].body.position.y)
        }),
{
    let a = w[i].body;
    let b = w[j].body;
    lemma_collision_symmetric(a.position, b.position, a.radius.value as int);
}

/// The arena after the pairs `(i, i + 1)` up to `(i, j - 1)` are separated,
/// in order.
pub open spec fn row_separated(w: Seq<ActorView>, i: int, j: int) -> Seq<ActorView>
    decreases j - i,
{
    if j <= i + 1 {
        w
    } else {
        pair_separated(row_separated(w, i, j - 1), i, j - 1)
    }
}

/// The arena after every pair whose first unit is below `i` is separated,
/// pair by pair in order.
pub open spec fn all_separated(w: Seq<ActorView>, i: int) -> Seq<ActorView>
    decreases i,
{
    if i <= 0 {
        w
    } else {
        row_separated(all_separated(w, i - 1), i - 1, w.len() as int)
    }
}

/// Separation of two units of the arena.
pub fn separate(p1: Point, r1: i64, p2: Point, r2: i64) -> (r: (i64, i64, i64, i64))
    requires
        p1.wf(),
        p2.wf(),
        0 < r1 <= crate::component::RADIUS_LIMIT,
        0 < r2 <= crate::component::RADIUS_LIMIT,
    ensures
        r.0 == separation(p1, r1 as int, p2, r2 as int).0,
        r.1 == separation(p1, r1 as int, p2, r2 as int).1,
        r.2 == separation(p1, r1 as int, p2, r2 as int).2,
        r.3 == separation(p1, r1 as int, p2, r2 as int).3,
{
    let d = distance(p1, p2) as i128;
    let dist: i128 = if d < 1 { 1 } else { d };
    let combined: i128 = r1 as i128 + r2 as i128;
    if dist >= combined {
        return (0, 0, 0, 0);
    }
    let overlap: i128 = combined - dist;
    assert(0 < overlap <= 2_000_000);
    assert(overlap * r2 <= 2_000_000 * 1_000_000) by (nonlinear_arith)
        requires 0 < overlap <= 2_000_000, 0 < r2 <= 1_000_000;
    assert(overlap * r1 <= 2_000_000 * 1_000_000) by (nonlinear_arith)
        requires 0 < overlap <= 2_000_000, 0 < r1 <= 1_000_000;
    assert(overlap * r2 >= 0) by (nonlinear_arith)
        requires 0 < overlap, 0 < r2;
    assert(overlap * r1 >= 0) by (nonlinear_arith)
        requires 0 < overlap, 0 < r1;
    let (m1, m2): (i128, i128) = if r1 == r2 {
        ((overlap + 1) / 2, (overlap + 1) / 2)
    } else if r1 > r2 {
        let m = overlap * r2 as i128 / combined;
        (m, overlap - m)
    } else {
        let m = overlap * r1 as i128 / combined;
        (overlap - m, m)
    };
    proof {
        if r1 > r2 {
            lemma_push_lengths(overlap as int, r1 as int, r2 as int);
        } else if r2 > r1 {
            lemma_push_lengths(overlap as int, r2 as int, r1 as int);
        }
    }
    assert(0 <= m1 <= 2_000_000 && 0 <= m2 <= 2_000_000);
    let dx: i128 = p1.x as i128 - p2.x as i128;
    let dy: i128 = p1.y as i128 - p2.y as i128;
    let (nx, ny): (i128, i128) = if dx == 0 && dy == 0 { (1, 0) } else { (dx, dy) };
    assert(-2_000_000_000 <= nx <= 2_000_000_000);
    assert(-2_000_000_000 <= ny <= 2_000_000_000);
    assert(m1 >= 0 && m2 >= 0);
    assert(-4_000_000_000_000_000 <= nx * m1 <= 4_000_000_000_000_000) by (nonlinear_arith)
        requires -2_000_000_000 <= nx <= 2_000_000_000, 0 <= m1 <= 2_000_000;
    assert(-4_000_000_000_000_000 <= ny * m1 <= 4_000_000_000_000_000) by (nonlinear_arith)
        requires -2_000_000_000 <= ny <= 2_000_000_000, 0 <= m1 <= 2_000_000;
    assert(-4_000_000_000_000_000 <= nx * m2 <= 4_000_000_000_000_000) by (nonlinear_arith)
        requires -2_000_000_000 <= nx <= 2_000_000_000, 0 <= m2 <= 2_000_000;
    assert(-4_000_000_000_000_000 <= ny * m2 <= 4_000_000_000_000_000) by (nonlinear_arith)
        requires -2_000_000_000 <= ny <= 2_000_000_000, 0 <= m2 <= 2_000_000;
    let a = trunc_div(nx * m1, dist);
    let b = trunc_div(ny * m1, dist);
    let c = trunc_div(nx * m2, dist);
    let e = trunc_div(ny * m2, dist);
    proof {
        crate::geometry::lemma_tdiv_small(nx * m1, dist as int);
        crate::geometry::lemma_tdiv_small(ny * m1, dist as int);
        crate::geometry::lemma_tdiv_small(nx * m2, dist as int);
        crate::geometry::lemma_tdiv_small(ny * m2, dist as int);
    }
    (a as i64, b as i64, -c as i64, -e as i64)
}

impl World {
    /// Collision: every pair of active units closer than their combined
    /// radius is pushed apart, pair by pair in order of ids, each push
    /// seeing the positions the earlier ones left.
    pub fn collision(&mut self)
        requires
            old(self).wf(),
        ensures
            final(self).wf(),
            final(self).clock == old(self).clock,
            final(self)@ == all_separated(old(self)@, old(self)@.len() as int),
    {
        let n = self.actors.len();
        let ghost w = self@;
        let mut i: usize = 0;
        while i < n
            invariant
                n == w.len(),
                n == self@.len(),
                self.wf(),
                self.clock == old(self).clock,
                old(self)@ == w,
                0 <= i <= n,
                self@ == all_separated(w, i as int),
            decreases n - i,
        {
            let mut j: usize = i + 1;
            let ghost start = self@;
            while j < n
                invariant
                    n == w.len(),
                    n == self@.len(),
                    self.wf(),
                    self.clock == old(self).clock,
                    0 <= i < n,
                    i + 1 <= j <= n,
                    start == all_separated(w, i as int),
                    self@ == row_separated(start, i as int, j as int),
                decreases n - j,
            {
                let ghost before = self@;
                let ghost before_actors = self.actors@;
                let a = self.actors[i].body;
                let b = self.actors[j].body;
                assert(a == before[i as int].body);
                assert(b == before[j as int].body);
                assert(before[i as int].wf(n as nat, self.clock));
                assert(before[j as int].wf(n as nat, self.clock));
                if a.spawned && a.state.value != State::Dead && a.phantom.is_none() && b.spawned
                    && b.state.value != State::Dead && b.phantom.is_none() {
                    let s = separate(a.position, a.radius.value, b.position, b.radius.value);
                    let pa = Point {
                        x: clamp(a.position.x as i128 + s.0 as i128),
                        y: clamp(a.position.y as i128 + s.1 as i128),
                    };
                    let pb = Point {
                        x: clamp(b.position.x as i128 + s.2 as i128),
                        y: clamp(b.position.y as i128 + s.3 as i128),
                    };
                    self.actors[i].body.position = pa;
                    self.actors[j].body.position = pb;
                    assert(self@ =~= pair_separated(before, i as int, j as int));
                    assert forall|k: int| 0 <= k < self@.len() implies (#[trigger] self@[k]).wf(
                        self@.len(),
                        self.clock,
                    ) by {
                        assert(before[k].wf(n as nat, self.clock));
                    }
                } else {
                    assert(self@ =~= pair_separated(before, i as int, j as int));
                }
                j = j + 1;
            }
            i = i + 1;
        }
    }

    /// Arrival: every moving unit within the arrival distance of its target
    /// point becomes idle and stops.
    pub fn arrive(&mut self)
        requires
            old(self).wf(),
        ensures
            final(self).wf(),
            final(self).clock == old(self).clock,
            final(self)@ == bodies_mapped(old(self)@, |b: Body| arrived_body(b)),
    {
        let n = self.actors.len();
        let ghost w = self@;
        let mut i: usize = 0;
        while i < n
            invariant
                n == w.len(),
                n == self.actors@.len(),
                self.clock == old(self).clock,
                old(self)@ == w,
                old(self).wf(),
                0 <= i <= n,
                forall|j: int| 0 <= j < i ==> #[trigger] self.actors@[j]@ == (ActorView {
                    body: arrived_body(w[j].body),
                    timeline: w[j].timeline,
                }),
                forall|j: int| i <= j < n ==> #[trigger] self.actors@[j]@ == w[j],
            decreases n - i,
        {
            let ghost before = self.actors@;
            assert(before[i as int]@ == w[i as int]);
            assert(w[i as int].wf(n as nat, self.clock));
            let b = self.actors[i].body;
            if b.spawned && b.state.value != State::Dead && b.phantom.is_none() && b.state.value
                == State::Move {
                let t = Point { x: b.target.x, y: b.target.y };
                if crate::geometry::distance_squared(b.position, t) < (ARRIVAL_DISTANCE
                    * ARRIVAL_DISTANCE) as u64 {
                    self.actors[i].body = Body {
                        state: CurrentState { value: State::Idle },
                        velocity: Velocity { x: 0, y: 0 },
                        ..b
                    };
                }
            }
            assert(forall|j: int| 0 <= j < n && j != i ==> self.actors@[j] == before[j]);
            i = i + 1;
        }
        assert(self@ =~= bodies_mapped(w, |b: Body| arrived_body(b)));
        assert forall|k: int| 0 <= k < self@.len() implies (#[trigger] self@[k]).wf(
            self@.len(),
            self.clock,
        ) by {
            assert(w[k].wf(w.len(), self.clock));
        }
    }

    /// The velocity toward the target point at the body's move speed.
    fn seek(b: Body) -> (v: Velocity)
        requires
            seekable(b),
        ensures
            v == seek_velocity(b),
    {
        proof {
            lemma_seek_bound(b);
        }
        let t = Point { x: b.target.x, y: b.target.y };
        let d = distance(b.position, t);
        if d == 0 {
            return Velocity { x: 0, y: 0 };
        }
        let dx: i128 = b.target.x as i128 - b.position.x as i128;
        let dy: i128 = b.target.y as i128 - b.position.y as i128;
        let s: i128 = b.move_speed.value as i128;
        proof {
            assert(-4_000_000_000_000_000 <= dx * s <= 4_000_000_000_000_000) by (nonlinear_arith)
                requires -2_000_000_000 <= dx <= 2_000_000_000, 0 <= s <= 1_000_000;
            assert(-4_000_000_000_000_000 <= dy * s <= 4_000_000_000_000_000) by (nonlinear_arith)
                requires -2_000_000_000 <= dy <= 2_000_000_000, 0 <= s <= 1_000_000;
        }
        let vx = trunc_div(dx * s, d as i128);
        let vy = trunc_div(dy * s, d as i128);
        Velocity { x: vx as i64, y: vy as i64 }
    }

    /// Steering: every moving unit takes the velocity that heads straight
    /// for its target point at its move speed.
    pub fn calculate_direct_velocity(&mut self)
        requires
            old(self).wf(),
        ensures
            final(self).wf(),
            final(self).clock == old(self).clock,
            final(self)@ == bodies_mapped(old(self)@, |b: Body| steered_body(b)),
    {
        let n = self.actors.len();
        let ghost w = self@;
        let mut i: usize = 0;
        while i < n
            invariant
                n == w.len(),
                n == self.actors@.len(),
                self.clock == old(self).clock,
                old(self)@ == w,
                old(self).wf(),
                0 <= i <= n,
                forall|j: int| 0 <= j < i ==> #[trigger] self.actors@[j]@ == (ActorView {
                    body: steered_body(w[j].body),
                    timeline: w[j].timeline,
                }),
                forall|j: int| i <= j < n ==> #[trigger] self.actors@[j]@ == w[j],
            decreases n - i,
        {
            let ghost before = self.actors@;
            assert(before[i as int]@ == w[i as int]);
            assert(w[i as int].wf(n as nat, self.clock));
            let b = self.actors[i].body;
            if b.spawned && b.state.value != State::Dead && b.phantom.is_none() && b.state.value
                == State::Move {
                let v = Self::seek(b);
                self.actors[i].body = Body { velocity: v, ..b };
            }
            assert(forall|j: int| 0 <= j < n && j != i ==> self.actors@[j] == before[j]);
            i = i + 1;
        }
        assert(self@ =~= bodies_mapped(w, |b: Body| steered_body(b)));
        assert forall|k: int| 0 <= k < self@.len() implies (#[trigger] self@[k]).wf(
            self@.len(),
            self.clock,
        ) by {
            assert(w[k].wf(w.len(), self.clock));
            lemma_seek_bound(w[k].body);
        }
    }

    /// Integration over `dt` microseconds: every active unit moves by its
    /// velocity, staying in the arena, and its velocity is reset to zero.
    pub fn apply_velocity(&mut self, dt: u64)
        requires
            old(self).wf(),
            dt <= MAX_FRAME,
        ensures
            final(self).wf(),
            final(self).clock == old(self).clock,
            final(self)@ == bodies_mapped(old(self)@, |b: Body| integrated_body(b, dt)),
    {
        let n = self.actors.len();
        let ghost w = self@;
        let mut i: usize = 0;
        while i < n
            invariant
                n == w.len(),
                n == self.actors@.len(),
                dt <= MAX_FRAME,
                self.clock == old(self).clock,
                old(self)@ == w,
                old(self).wf(),
                0 <= i <= n,
                forall|j: int| 0 <= j < i ==> #[trigger] self.actors@[j]@ == (ActorView {
                    body: integrated_body(w[j].body, dt),
                    timeline: w[j].timeline,
                }),
                forall|j: int| i <= j < n ==> #[trigger] self.actors@[j]@ == w[j],
            decreases n - i,
        {
            let ghost before = self.actors@;
            assert(before[i as int]@ == w[i as int]);
            assert(w[i as int].wf(n as nat, self.clock));
            let b = self.actors[i].body;
            if b.spawned && b.state.value != State::Dead && b.phantom.is_none() {
                let vx = b.velocity.x as i128;
                let vy = b.velocity.y as i128;
                let t = dt as i128;
                assert(-SPEED_LIMIT * MAX_FRAME <= vx * t <= SPEED_LIMIT * MAX_FRAME) by (nonlinear_arith)
                    requires -SPEED_LIMIT <= vx <= SPEED_LIMIT, 0 <= t <= MAX_FRAME;
                assert(-SPEED_LIMIT * MAX_FRAME <= vy * t <= SPEED_LIMIT * MAX_FRAME) by (nonlinear_arith)
                    requires -SPEED_LIMIT <= vy <= SPEED_LIMIT, 0 <= t <= MAX_FRAME;
                let tx = b.carry.x as i128 + vx * t;
                let ty = b.carry.y as i128 + vy * t;
                let sx = trunc_div(tx, SUBUNITS as i128);
                let sy = trunc_div(ty, SUBUNITS as i128);
                proof {
                    lemma_carry_bound(tx as int);
                    lemma_carry_bound(ty as int);
                    crate::geometry::lemma_tdiv_small(tx as int, SUBUNITS as int);
                    crate::geometry::lemma_tdiv_small(ty as int, SUBUNITS as int);
                }
                let p = Point {
                    x: clamp(b.position.x as i128 + sx),
                    y: clamp(b.position.y as i128 + sy),
                };
                let c = Carry { x: (tx - sx * SUBUNITS as i128) as i64, y: (ty - sy * SUBUNITS as i128) as i64 };
                self.actors[i].body = Body { position: p, carry: c, velocity: Velocity { x: 0, y: 0 }, ..b };
            }
            assert(forall|j: int| 0 <= j < n && j != i ==> self.actors@[j] == before[j]);
            i = i + 1;
        }
        assert(self@ =~= bodies_mapped(w, |b: Body| integrated_body(b, dt)));
        assert forall|k: int| 0 <= k < self@.len() implies (#[trigger] self@[k]).wf(
            self@.len(),
            self.clock,
        ) by {
            assert(w[k].wf(w.len(), self.clock));
        }
    }
}

} // verus!
