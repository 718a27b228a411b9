//! The rules behind the player's input: picking units by click or box,
//! ordering the selection toward a point, and saved control groups.
use vstd::prelude::*;

use crate::action::Do;
use crate::component::{ActorView, Body, State, Target};
use crate::geometry::{dist_sq, distance_squared, Point};
use crate::world::World;

verus! {

/// How far the pointer may travel while pressed and still count as a click.
pub const CLICK_ACCURACY: i64 = 2;

/// A unit that can be picked by the player: present, alive and selectable.
pub open spec fn pickable(b: Body) -> bool {
    b.is_live() && b.selectable
}

/// `p` lies within distance `r` of `c`.
pub open spec fn within(c: Point, p: Point, r: int) -> bool {
    dist_sq(c, p) <= r * r
}

/// `p` lies in the box spanned by the corners `a` and `b`.
pub open spec fn in_box(p: Point, a: Point, b: Point) -> bool {
    &&& (if a.x <= b.x { a.x <= p.x <= b.x } else { b.x <= p.x <= a.x })
    &&& (if a.y <= b.y { a.y <= p.y <= b.y } else { b.y <= p.y <= a.y })
}

/// Whether `p` lies in the box spanned by `a` and `b`.
pub fn point_in_box(p: Point, a: Point, b: Point) -> (r: bool)
    ensures
        r == in_box(p, a, b),
{
    let (x0, x1) = if a.x <= b.x { (a.x, b.x) } else { (b.x, a.x) };
    let (y0, y1) = if a.y <= b.y { (a.y, b.y) } else { (b.y, a.y) };
    x0 <= p.x && p.x <= x1 && y0 <= p.y && p.y <= y1
}

/// A press turns into a drag once the pointer leaves the click accuracy.
pub fn is_drag(press: Point, now: Point) -> (r: bool)
    requires
        press.wf(),
        now.wf(),
    ensures
        r == (dist_sq(press, now) > CLICK_ACCURACY * CLICK_ACCURACY),
{
    distance_squared(press, now) > (CLICK_ACCURACY * CLICK_ACCURACY) as u64
}

/// What a release of the pointer at `release` does to unit `b`, selected
/// or not: `Some(true)` selects it, `Some(false)` deselects it. After a
/// drag from `press`, a unit in the box, or under the pointer, is selected,
/// and a selected unit outside the box deselected; after a click, the unit
/// under the pointer is selected and every other selected unit deselected.
pub open spec fn pick(b: Body, selected: bool, press: Point, release: Point, drag: bool) -> Option<bool> {
    if !pickable(b) {
        None
    } else if drag {
        if !selected {
            if in_box(b.position, press, release) || dist_sq(b.position, release) < b.radius.value
                * b.radius.value {
                Some(true)
            } else {
                None
            }
        } else if !in_box(b.position, press, release) {
            Some(false)
        } else {
            None
        }
    } else if selected {
        if dist_sq(b.position, release) > b.radius.value * b.radius.value {
            Some(false)
        } else {
            None
        }
    } else if within(b.position, release, b.radius.value as int) {
        Some(true)
    } else {
        None
    }
}

/// A unit under the pointer at `p` that the selection may target: present,
/// alive and not selected itself.
pub open spec fn targetable(b: Body, selected: bool, p: Point) -> bool {
    !selected && b.spawned && b.state.value != State::Dead && within(b.position, p, b.radius.value as int)
}

/// The last unit below `m` that the selection may target at `p`.
pub open spec fn target_under(w: Seq<ActorView>, sel: Seq<bool>, p: Point, m: int) -> Option<usize>
    decreases m,
{
    if m <= 0 {
        None
    } else if targetable(w[m - 1].body, sel[m - 1], p) {
        Some((m - 1) as usize)
    } else {
        target_under(w, sel, p, m - 1)
    }
}

/// The orders that a right click at `p` gives the selected units below `m`:
/// attack where a unit lies under the pointer, move otherwise.
pub open spec fn act_orders(w: Seq<ActorView>, sel: Seq<bool>, p: Point, m: int) -> Seq<Do>
    decreases m,
{
    if m <= 0 {
        Seq::empty()
    } else if sel[m - 1] && w[m - 1].body.is_controllable() {
        let st = if target_under(w, sel, p, w.len() as int).is_some() { State::Attack } else { State::Move };
        act_orders(w, sel, p, m - 1).push(Do((m - 1) as usize, st, p))
    } else {
        act_orders(w, sel, p, m - 1)
    }
}

/// An actor after a right click at `p`: a selected controllable unit
/// targets the unit under the pointer, if any, at that unit's position.
pub open spec fn acted(w: Seq<ActorView>, sel: Seq<bool>, p: Point, i: int) -> ActorView {
    match target_under(w, sel, p, w.len() as int) {
        Some(t) => if sel[i] && w[i].body.is_controllable() {
            ActorView {
                body: Body {
                    target: Target { entity: Some(t), x: w[t as int].body.position.x, y: w[t as int].body.position.y },
                    ..w[i].body
                },
                timeline: w[i].timeline,
            }
        } else {
            w[i]
        },
        None => w[i],
    }
}

proof fn lemma_target_under_bound(w: Seq<ActorView>, sel: Seq<bool>, p: Point, m: int)
    ensures
        target_under(w, sel, p, m) matches Some(t) ==> 0 <= t < m,
    decreases m,
{
    if m > 0 {
        lemma_target_under_bound(w, sel, p, m - 1);
    }
}

/// Saved selections, held in bevy's hash map, keyed by digit.
#[verifier::external_body]
pub struct GroupTable {
    map: bevy::utils::HashMap<usize, Vec<usize>>,
}

/// No selection saved under any key.
pub open spec fn no_groups() -> Map<usize, Seq<usize>> {
    Map::empty()
}

/// The selections that a table holds, by key.
pub uninterp spec fn saved_groups(t: GroupTable) -> Map<usize, Seq<usize>>;

/// Relies on `Default` for bevy::utils::HashMap (a hashbrown map): a map
/// with no entries.
#[verifier::external_body]
fn empty_table() -> (r: GroupTable)
    ensures
        saved_groups(r) == no_groups(),
{
    GroupTable { map: bevy::utils::HashMap::default() }
}

/// Relies on hashbrown's HashMap::entry and Entry::or_insert: the ids go in
/// under `key` only where nothing is saved there yet.
#[verifier::external_body]
fn insert_if_absent(t: &mut GroupTable, key: usize, ids: Vec<usize>)
    ensures
        saved_groups(*final(t)) == if saved_groups(*old(t)).contains_key(key) {
            saved_groups(*old(t))
        } else {
            saved_groups(*old(t)).insert(key, ids@)
        },
{
    t.map.entry(key).or_insert(ids);
}

/// Relies on hashbrown's HashMap::get: a copy of the ids saved under `key`,
/// if any.
#[verifier::external_body]
fn lookup(t: &GroupTable, key: usize) -> (r: Option<Vec<usize>>)
    ensures
        match r {
            Some(v) => saved_groups(*t).contains_key(key) && v@ == saved_groups(*t)[key],
            None => !saved_groups(*t).contains_key(key),
        },
{
    t.map.get(&key).cloned()
}

/// Saved selections by key; a key once filled keeps its units.
pub struct ControlGroups {
    pub table: GroupTable,
}

impl View for ControlGroups {
    type V = Map<usize, Seq<usize>>;

    open spec fn view(&self) -> Map<usize, Seq<usize>> {
        saved_groups(self.table)
    }
}

/// The pickable units below `m` that belong to group `g`, in id order.
pub open spec fn members(w: Seq<ActorView>, g: Seq<usize>, m: int) -> Seq<usize>
    decreases m,
{
    if m <= 0 {
        Seq::empty()
    } else if pickable(w[m - 1].body) && g.contains((m - 1) as usize) {
        members(w, g, m - 1).push((m - 1) as usize)
    } else {
        members(w, g, m - 1)
    }
}

/// Sum of the coordinates of the units `ids`.
pub open spec fn sum_x(w: Seq<ActorView>, ids: Seq<usize>) -> int
    decreases ids.len(),
{
    if ids.len() == 0 {
        0
    } else {
        sum_x(w, ids.drop_last()) + w[ids.last() as int].body.position.x
    }
}

pub open spec fn sum_y(w: Seq<ActorView>, ids: Seq<usize>) -> int
    decreases ids.len(),
{
    if ids.len() == 0 {
        0
    } else {
        sum_y(w, ids.drop_last()) + w[ids.last() as int].body.position.y
    }
}

proof fn lemma_sum_bound(w: Seq<ActorView>, ids: Seq<usize>, clock: u64)
    requires
        forall|i: int| 0 <= i < w.len() ==> (#[trigger] w[i]).wf(w.len(), clock),
        forall|k: int| 0 <= k < ids.len() ==> #[trigger] ids[k] < w.len(),
    ensures
        -1_000_000_000 * ids.len() <= sum_x(w, ids) <= 1_000_000_000 * ids.len(),
        -1_000_000_000 * ids.len() <= sum_y(w, ids) <= 1_000_000_000 * ids.len(),
    decreases ids.len(),
{
    if ids.len() > 0 {
        lemma_sum_bound(w, ids.drop_last(), clock);
        assert(w[ids.last() as int].wf(w.len(), clock));
    }
}

impl ControlGroups {
    /// No group saved yet.
    pub fn new() -> (r: ControlGroups)
        ensures
            r@ == no_groups(),
    {
        ControlGroups { table: empty_table() }
    }

    /// Saves `selected` under `key`, unless a group is saved there already.
    pub fn set_control_group(&mut self, key: usize, selected: Vec<usize>)
        ensures
            final(self)@ == if old(self)@.contains_key(key) {
                old(self)@
            } else {
                old(self)@.insert(key, selected@)
            },
    {
        insert_if_absent(&mut self.table, key, selected);
    }

    /// The pickable units of the group saved under `key`, in id order;
    /// `None` where no group is saved there.
    pub fn get_control_group(&self, key: usize, world: &World) -> (r: Option<Vec<usize>>)
        requires
            world.wf(),
        ensures
            match r {
                Some(v) => self@.contains_key(key) && v@ == members(world@, self@[key], world@.len() as int),
                None => !self@.contains_key(key),
            },
    {
        match lookup(&self.table, key) {
            None => None,
            Some(g) => {
                let n = world.actors.len();
                let mut r: Vec<usize> = Vec::new();
                let mut i: usize = 0;
                while i < n
                    invariant
                        n == world@.len(),
                        0 <= i <= n,
                        r@ == members(world@, g@, i as int),
                    decreases n - i,
                {
                    let b = world.actors[i].body;
                    assert(b == world@[i as int].body);
                    if b.spawned && b.state.value != State::Dead && b.selectable {
                        let mut found = false;
                        let mut j: usize = 0;
                        while j < g.len()
                            invariant
                                0 <= j <= g@.len(),
                                found == exists|k: int| 0 <= k < j && g@[k] == i,
                            decreases g@.len() - j,
                        {
                            if g[j] == i {
                                found = true;
                            }
                            j = j + 1;
                        }
                        if found {
                            r.push(i);
                        }
                    }
                    i = i + 1;
                }
                Some(r)
            },
        }
    }
}

/// The mean position of the units `ids`, rounded toward zero; the point the
/// camera centres on when a group is recalled twice in a row.
pub fn centroid(world: &World, ids: &Vec<usize>) -> (r: Option<Point>)
    requires
        world.wf(),
        forall|k: int| 0 <= k < ids@.len() ==> #[trigger] ids@[k] < world@.len(),
    ensures
        match r {
            Some(c) => ids@.len() > 0 && c.x == crate::geometry::tdiv(sum_x(world@, ids@), ids@.len() as int)
                && c.y == crate::geometry::tdiv(sum_y(world@, ids@), ids@.len() as int),
            None => ids@.len() == 0,
        },
{
    let n = ids.len();
    if n == 0 {
        return None;
    }
    let mut sx: i128 = 0;
    let mut sy: i128 = 0;
    let mut k: usize = 0;
    while k < n
        invariant
            world.wf(),
            n == ids@.len(),
            forall|j: int| 0 <= j < ids@.len() ==> #[trigger] ids@[j] < world@.len(),
            0 <= k <= n,
            sx == sum_x(world@, ids@.subrange(0, k as int)),
            sy == sum_y(world@, ids@.subrange(0, k as int)),
        decreases n - k,
    {
        let id = ids[k];
        proof {
            let pre = ids@.subrange(0, k as int);
            assert(ids@.subrange(0, k + 1).drop_last() == pre);
            lemma_sum_bound(world@, pre, world.clock);
            assert(n <= usize::MAX);
        }
        assert(id < world@.len());
        let b = world.actors[id].body;
        assert(b == world@[id as int].body);
        assert(world@[id as int].wf(world@.len(), world.clock));
        sx = sx + b.position.x as i128;
        sy = sy + b.position.y as i128;
        k = k + 1;
    }
    proof {
        assert(ids@.subrange(0, n as int) == ids@);
        lemma_sum_bound(world@, ids@, world.clock);
    }
    let cx = crate::geometry::trunc_div(sx, n as i128);
    let cy = crate::geometry::trunc_div(sy, n as i128);
    proof {
        lemma_mean_bound(sx as int, n as int);
        lemma_mean_bound(sy as int, n as int);
    }
    Some(Point { x: cx as i64, y: cy as i64 })
}

/// A mean of values in the arena lies in the arena.
proof fn lemma_mean_bound(s: int, n: int)
    requires
        n >= 1,
        -1_000_000_000 * n <= s <= 1_000_000_000 * n,
    ensures
        -1_000_000_000 <= crate::geometry::tdiv(s, n) <= 1_000_000_000,
{
    if s >= 0 {
        assert(s / n <= 1_000_000_000) by (nonlinear_arith)
            requires 0 <= s <= 1_000_000_000 * n, n >= 1;
        assert(s / n >= 0) by (nonlinear_arith)
            requires 0 <= s, n >= 1;
    } else {
        assert((-s) / n <= 1_000_000_000) by (nonlinear_arith)
            requires 0 <= -s <= 1_000_000_000 * n, n >= 1;
        assert((-s) / n >= 0) by (nonlinear_arith)
            requires 0 <= -s, n >= 1;
    }
}

/// The key last pressed and a short timer for noticing a second press.
#[derive(Clone, Copy, Debug, PartialEq, Eq, Structural)]
pub struct DoubleTap {
    pub key: Option<usize>,
    pub duration: u64,
    pub elapsed: u64,
}

/// Window for a second press, in microseconds.
pub const DOUBLE_TAP_WINDOW: u64 = 200_000;

impl DoubleTap {
    /// A timer that has run out, with no key pressed yet.
    pub fn new() -> (r: DoubleTap)
        ensures
            r == (DoubleTap { key: None, duration: DOUBLE_TAP_WINDOW, elapsed: DOUBLE_TAP_WINDOW }),
    {
        DoubleTap { key: None, duration: DOUBLE_TAP_WINDOW, elapsed: DOUBLE_TAP_WINDOW }
    }

    /// One frame of `dt` microseconds with the keys `pressed` pressed, in
    /// order. Once the timer has run out, a press remembers its key and
    /// restarts the timer; until then the timer runs.
    pub fn double_tap_timer(&mut self, pressed: &Vec<usize>, dt: u64)
        ensures
            *final(self) == if old(self).elapsed >= old(self).duration {
                if pressed@.len() > 0 {
                    DoubleTap { key: Some(pressed@.last()), elapsed: 0, ..*old(self) }
                } else {
                    *old(self)
                }
            } else {
                DoubleTap {
                    elapsed: if old(self).elapsed + dt >= old(self).duration {
                        old(self).duration
                    } else {
                        (old(self).elapsed + dt) as u64
                    },
                    ..*old(self)
                }
            },
    {
        if self.elapsed >= self.duration {
            let n = pressed.len();
            if n > 0 {
                self.key = Some(pressed[n - 1]);
                self.elapsed = 0;
            }
        } else if dt >= self.duration - self.elapsed {
            self.elapsed = self.duration;
        } else {
            self.elapsed = self.elapsed + dt;
        }
    }

    /// A recall of group `key` is a second press: the same key, within the
    /// window.
    pub fn is_double_tap(&self, key: usize) -> (r: bool)
        ensures
            r == (self.key == Some(key) && self.elapsed < self.duration),
    {
        match self.key {
            Some(k) => k == key && self.elapsed < self.duration,
            None => false,
        }
    }
}

impl World {
    /// What releasing the pointer does to each unit; `selected[i]` tells
    /// whether unit `i` is selected now.
    pub fn select_entities(&self, selected: &Vec<bool>, press: Point, release: Point, drag: bool) -> (r: Vec<Option<bool>>)
        requires
            self.wf(),
            selected@.len() == self@.len(),
            press.wf(),
            release.wf(),
        ensures
            r@ == Seq::new(self@.len(), |i: int| pick(self@[i].body, selected@[i], press, release, drag)),
    {
        let n = self.actors.len();
        let mut r: Vec<Option<bool>> = Vec::new();
        let mut i: usize = 0;
        while i < n
            invariant
                self.wf(),
                n == self@.len(),
                selected@.len() == n,
                press.wf(),
                release.wf(),
                0 <= i <= n,
                r@ == Seq::new(i as nat, |k: int| pick(self@[k].body, selected@[k], press, release, drag)),
            decreases n - i,
        {
            let b = self.actors[i].body;
            assert(b == self@[i as int].body);
            assert(self@[i as int].wf(n as nat, self.clock));
            assert(b.radius.value * b.radius.value <= 1_000_000_000_000) by (nonlinear_arith)
                requires 0 < b.radius.value <= 1_000_000;
            assert(b.radius.value * b.radius.value >= 0) by (nonlinear_arith);
            let rr = (b.radius.value * b.radius.value) as u64;
            let d = distance_squared(b.position, release);
            let v = if !(b.spawned && b.state.value != State::Dead && b.selectable) {
                None
            } else if drag {
                let inside = point_in_box(b.position, press, release);
                if !selected[i] {
                    if inside || d < rr { Some(true) } else { None }
                } else if !inside {
                    Some(false)
                } else {
                    None
                }
            } else if selected[i] {
                if d > rr { Some(false) } else { None }
            } else if d <= rr {
                Some(true)
            } else {
                None
            };
            r.push(v);
            assert(r@ =~= Seq::new((i + 1) as nat, |k: int| pick(self@[k].body, selected@[k], press, release, drag)));
            i = i + 1;
        }
        r
    }

    /// A right click at `p`: each selected controllable unit targets the
    /// last unit under the pointer that is alive and not selected, and is
    /// ordered to attack toward `p` if there is one, to move there if not.
    /// Returns the orders, in id order.
    pub fn act(&mut self, selected: &Vec<bool>, p: Point) -> (orders: Vec<Do>)
        requires
            old(self).wf(),
            selected@.len() == old(self)@.len(),
            p.wf(),
        ensures
            final(self).wf(),
            final(self).clock == old(self).clock,
            final(self)@ == Seq::new(old(self)@.len(), |i: int| acted(old(self)@, selected@, p, i)),
            orders@ == act_orders(old(self)@, selected@, p, old(self)@.len() as int),
    {
        let n = self.actors.len();
        let ghost w = self@;
        let mut found: Option<usize> = None;
        let mut k: usize = 0;
        while k < n
            invariant
                self@ == w,
                self.wf(),
                n == w.len(),
                selected@.len() == n,
                p.wf(),
                0 <= k <= n,
                found == target_under(w, selected@, p, k as int),
            decreases n - k,
        {
            let b = self.actors[k].body;
            assert(b == w[k as int].body);
            assert(w[k as int].wf(n as nat, self.clock));
            assert(b.radius.value * b.radius.value <= 1_000_000_000_000) by (nonlinear_arith)
                requires 0 < b.radius.value <= 1_000_000;
            assert(b.radius.value * b.radius.value >= 0) by (nonlinear_arith);
            let rr = (b.radius.value * b.radius.value) as u64;
            if !selected[k] && b.spawned && b.state.value != State::Dead && distance_squared(
                b.position,
                p,
            ) <= rr {
                found = Some(k);
            }
            k = k + 1;
        }
        proof {
            lemma_target_under_bound(w, selected@, p, n as int);
        }
        let goal = match found {
            Some(t) => Some((t, self.actors[t].body.position)),
            None => None,
        };
        let st = if found.is_some() { State::Attack } else { State::Move };
        let mut orders: Vec<Do> = Vec::new();
        let mut i: usize = 0;
        while i < n
            invariant
                n == w.len(),
                n == self.actors@.len(),
                selected@.len() == n,
                self.clock == old(self).clock,
                old(self)@ == w,
                old(self).wf(),
                found == target_under(w, selected@, p, n as int),
                found matches Some(t) ==> t < n && goal == Some((t, w[t as int].body.position)),
                found is None ==> goal is None,
                st == if found.is_some() { State::Attack } else { State::Move },
                0 <= i <= n,
                forall|j: int| 0 <= j < i ==> #[trigger] self.actors@[j]@ == acted(w, selected@, p, j),
                forall|j: int| i <= j < n ==> #[trigger] self.actors@[j]@ == w[j],
                orders@ == act_orders(w, selected@, p, i as int),
            decreases n - i,
        {
            let ghost before = self.actors@;
            assert(before[i as int]@ == w[i as int]);
            let b = self.actors[i].body;
            if selected[i] && b.spawned && b.state.value != State::Dead && b.phantom.is_none()
                && b.repeat.is_none() && b.reverse.is_none() {
                if let Some((t, q)) = goal {
                    self.actors[i].body.target = Target { entity: Some(t), x: q.x, y: q.y };
                }
                orders.push(Do(i, st, p));
            }
            assert(forall|j: int| 0 <= j < n && j != i ==> self.actors@[j] == before[j]);
            i = i + 1;
        }
        assert(self@ =~= Seq::new(w.len(), |i: int| acted(w, selected@, p, i)));
        assert forall|k: int| 0 <= k < self@.len() implies (#[trigger] self@[k]).wf(
            self@.len(),
            self.clock,
        ) by {
            assert(w[k].wf(w.len(), self.clock));
            if let Some(t) = found {
                assert(w[t as int].wf(w.len(), self.clock));
            }
        }
        orders
    }
}

} // verus!
