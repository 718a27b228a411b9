//! The action state machine: commands, engagement of enemies in range, and
//! the attack cycle.
use vstd::prelude::*;

use crate::bullet::Fire;
use crate::component::{Action, ActorView, Attack, Body, CurrentAction, CurrentState, State, Target};
use crate::geometry::{clamp, clamped_point, dist_sq, distance_squared, Point};
use crate::world::World;

verus! {

/// A command to unit `.0`: enter state `.1` toward point `.2`.
#[derive(Clone, Copy, Debug, PartialEq, Eq, Structural)]
pub struct Do(pub usize, pub State, pub Point);

/// A body after a command to enter state `st` toward `p`. Only `Move`,
/// `Attack` and `Idle` are commands; any other state leaves the body as it is.
pub open spec fn commanded_body(b: Body, st: State, p: Point) -> Body {
    let q = clamped_point(p.x as int, p.y as int);
    match st {
        State::Move => Body {
            target: Target { entity: None, x: q.x, y: q.y },
            state: CurrentState { value: State::Move },
            action: CurrentAction { value: Action::Idle },
            ..b
        },
        State::Attack => Body {
            target: Target { x: q.x, y: q.y, ..b.target },
            state: CurrentState { value: State::Attack },
            action: CurrentAction { value: Action::Attack },
            ..b
        },
        State::Idle => Body {
            target: Target { entity: None, x: q.x, y: q.y },
            state: CurrentState { value: State::Idle },
            action: CurrentAction { value: Action::Idle },
            ..b
        },
        _ => b,
    }
}

/// The arena after one command; a command to a unit that is missing or not
/// controllable (a ghost, dead, or replaying) is ignored.
pub open spec fn commanded(w: Seq<ActorView>, c: Do) -> Seq<ActorView> {
    if c.0 < w.len() && w[c.0 as int].body.is_controllable() {
        w.update(
            c.0 as int,
            ActorView { body: commanded_body(w[c.0 as int].body, c.1, c.2), timeline: w[c.0 as int].timeline },
        )
    } else {
        w
    }
}

/// The arena after a list of commands, applied in order.
pub open spec fn all_commanded(w: Seq<ActorView>, cs: Seq<Do>) -> Seq<ActorView>
    decreases cs.len(),
{
    if cs.len() == 0 {
        w
    } else {
        commanded(all_commanded(w, cs.drop_last()), cs.last())
    }
}

/// Unit `a` engages unit `o`: both are active and of different owners, `a`
/// is idle or attack-moving, and `o` lies within its attack range.
pub open spec fn engages(w: Seq<ActorView>, a: int, o: int) -> bool {
    let ba = w[a].body;
    let bo = w[o].body;
    &&& 0 <= a < w.len() && 0 <= o < w.len() && a != o
    &&& ba.is_active() && bo.is_active()
    &&& ba.unit.owner != bo.unit.owner
    &&& (ba.state.value == State::AttackMove || ba.state.value == State::Idle)
    &&& dist_sq(ba.position, bo.position) <= ba.attack.range * ba.attack.range
}

/// The commands that unit `a` issues against the units below `m`, in order.
pub open spec fn engage_row(w: Seq<ActorView>, a: int, m: int) -> Seq<Do>
    decreases m,
{
    if m <= 0 {
        Seq::empty()
    } else if engages(w, a, m - 1) {
        engage_row(w, a, m - 1).push(Do(a as usize, State::Attack, w[m - 1].body.position))
    } else {
        engage_row(w, a, m - 1)
    }
}

/// The commands that the units below `m` issue, unit by unit.
pub open spec fn engage_commands(w: Seq<ActorView>, m: int) -> Seq<Do>
    decreases m,
{
    if m <= 0 {
        Seq::empty()
    } else {
        engage_commands(w, m - 1) + engage_row(w, m - 1, w.len() as int)
    }
}

/// The last unit below `m` that unit `a` engages.
pub open spec fn engaged_target(w: Seq<ActorView>, a: int, m: int) -> Option<usize>
    decreases m,
{
    if m <= 0 {
        None
    } else if engages(w, a, m - 1) {
        Some((m - 1) as usize)
    } else {
        engaged_target(w, a, m - 1)
    }
}

/// An actor after engagement: it targets the last unit it engages, if any.
pub open spec fn engaged(w: Seq<ActorView>, a: int) -> ActorView {
    match engaged_target(w, a, w.len() as int) {
        Some(o) => ActorView {
            body: Body { target: Target { entity: Some(o), ..w[a].body.target }, ..w[a].body },
            timeline: w[a].timeline,
        },
        None => w[a],
    }
}

proof fn lemma_engaged_target_bound(w: Seq<ActorView>, a: int, m: int)
    ensures
        engaged_target(w, a, m) matches Some(o) ==> o < m && o < w.len(),
    decreases m,
{
    if m > 0 {
        lemma_engaged_target_bound(w, a, m - 1);
    }
}

/// An active unit ready to attack fires when it is aimed at its target.
pub open spec fn fires_now(b: Body, aimed: bool) -> bool {
    b.is_active() && b.action.value == Action::Attack && aimed
}

/// A body after one attack tick of `dt` microseconds. A unit that fires
/// clears its attack and restarts its cooldown; while in the attack state
/// its cooldown runs, and once it has run out the unit may attack again.
pub open spec fn attacked_body(b: Body, aimed: bool, dt: u64) -> Body {
    if !b.is_active() {
        b
    } else {
        let b1 = if fires_now(b, aimed) {
            Body {
                action: CurrentAction { value: Action::Idle },
                attack: Attack { elapsed: 0, ..b.attack },
                ..b
            }
        } else {
            b
        };
        if b1.state.value == State::Attack {
            let e = if b1.attack.elapsed + dt >= b1.attack.cooldown {
                b1.attack.cooldown
            } else {
                (b1.attack.elapsed + dt) as u64
            };
            Body {
                attack: Attack { elapsed: e, ..b1.attack },
                action: if e >= b1.attack.cooldown {
                    CurrentAction { value: Action::Attack }
                } else {
                    b1.action
                },
                ..b1
            }
        } else {
            b1
        }
    }
}

/// The shots fired by the units below `m`, in id order.
pub open spec fn fires(w: Seq<ActorView>, aimed: Seq<bool>, m: int) -> Seq<Fire>
    decreases m,
{
    if m <= 0 {
        Seq::empty()
    } else if fires_now(w[m - 1].body, aimed[m - 1]) {
        let b = w[m - 1].body;
        fires(w, aimed, m - 1).push(Fire(b.unit.owner, b.position, b.facing.value))
    } else {
        fires(w, aimed, m - 1)
    }
}

impl World {
    /// One attack tick of `dt` microseconds; `aimed[i]` tells whether unit
    /// `i` faces its target. Returns the shots fired, in id order.
    pub fn attack(&mut self, aimed: &Vec<bool>, dt: u64) -> (shots: Vec<Fire>)
        requires
            old(self).wf(),
            aimed@.len() == old(self)@.len(),
        ensures
            final(self).wf(),
            final(self).clock == old(self).clock,
            final(self)@ == Seq::new(
                old(self)@.len(),
                |i: int|
                    ActorView {
                        body: attacked_body(old(self)@[i].body, aimed@[i], dt),
                        timeline: old(self)@[i].timeline,
                    },
            ),
            shots@ == fires(old(self)@, aimed@, old(self)@.len() as int),
    {
        let n = self.actors.len();
        let ghost w = self@;
        let mut shots: Vec<Fire> = Vec::new();
        let mut i: usize = 0;
        while i < n
            invariant
                n == w.len(),
                n == self.actors@.len(),
                n == aimed@.len(),
                self.clock == old(self).clock,
                old(self)@ == w,
                old(self).wf(),
                0 <= i <= n,
                forall|j: int| 0 <= j < i ==> #[trigger] self.actors@[j]@ == (ActorView {
                    body: attacked_body(w[j].body, aimed@[j], dt),
                    timeline: w[j].timeline,
                }),
                forall|j: int| i <= j < n ==> #[trigger] self.actors@[j]@ == w[j],
                shots@ == fires(w, aimed@, i as int),
            decreases n - i,
        {
            let ghost before = self.actors@;
            assert(before[i as int]@ == w[i as int]);
            assert(w[i as int].wf(n as nat, self.clock));
            let b = self.actors[i].body;
            if b.spawned && b.state.value != State::Dead && b.phantom.is_none() {
                let mut nb = b;
                if b.action.value == Action::Attack && aimed[i] {
                    shots.push(Fire(b.unit.owner, b.position, b.facing.value));
                    nb = Body {
                        action: CurrentAction { value: Action::Idle },
                        attack: Attack { elapsed: 0, ..b.attack },
                        ..b
                    };
                }
                if nb.state.value == State::Attack {
                    let e = if dt >= nb.attack.cooldown - nb.attack.elapsed {
                        nb.attack.cooldown
                    } else {
                        nb.attack.elapsed + dt
                    };
                    nb = Body {
                        attack: Attack { elapsed: e, ..nb.attack },
                        action: if e >= nb.attack.cooldown {
                            CurrentAction { value: Action::Attack }
                        } else {
                            nb.action
                        },
                        ..nb
                    };
                }
                self.actors[i].body = nb;
            }
            assert(forall|j: int| 0 <= j < n && j != i ==> self.actors@[j] == before[j]);
            i = i + 1;
        }
        assert(self@ =~= Seq::new(
            w.len(),
            |i: int|
                ActorView { body: attacked_body(w[i].body, aimed@[i], dt), timeline: w[i].timeline },
        ));
        assert forall|k: int| 0 <= k < self@.len() implies (#[trigger] self@[k]).wf(
            self@.len(),
            self.clock,
        ) by {
            assert(w[k].wf(w.len(), self.clock));
        }
        shots
    }

    /// Whether unit `a` engages unit `o`.
    fn engages_exec(&self, a: usize, o: usize) -> (r: bool)
        requires
            self.wf(),
            a < self@.len(),
            o < self@.len(),
        ensures
            r == engages(self@, a as int, o as int),
    {
        if a == o {
            return false;
        }
        let ba = self.actors[a].body;
        let bo = self.actors[o].body;
        proof {
            assert(self@[a as int].wf(self@.len(), self.clock));
            assert(self@[o as int].wf(self@.len(), self.clock));
        }
        if !(ba.spawned && ba.state.value != State::Dead && ba.phantom.is_none()) {
            return false;
        }
        if !(bo.spawned && bo.state.value != State::Dead && bo.phantom.is_none()) {
            return false;
        }
        if ba.unit.owner == bo.unit.owner {
            return false;
        }
        if !(ba.state.value == State::AttackMove || ba.state.value == State::Idle) {
            return false;
        }
        let d = distance_squared(ba.position, bo.position);
        let r = ba.attack.range as u64;
        assert(r * r <= 1_000_000_000_000_000_000) by (nonlinear_arith)
            requires r <= 1_000_000_000;
        d <= r * r
    }

    /// Engagement: every active unit that is idle or attack-moving targets
    /// each active unit of another owner within its attack range, and
    /// issues an attack command toward it. The commands come unit by unit,
    /// in id order; a unit keeps the last unit it engaged as its target.
    pub fn engage(&mut self) -> (cmds: Vec<Do>)
        requires
            old(self).wf(),
        ensures
            final(self).wf(),
            final(self).clock == old(self).clock,
            final(self)@ == Seq::new(old(self)@.len(), |a: int| engaged(old(self)@, a)),
            cmds@ == engage_commands(old(self)@, old(self)@.len() as int),
    {
        let n = self.actors.len();
        let ghost w = self@;
        let mut cmds: Vec<Do> = Vec::new();
        let mut found: Vec<Option<usize>> = Vec::new();
        let mut a: usize = 0;
        while a < n
            invariant
                self@ == w,
                self.wf(),
                n == w.len(),
                n == self.actors@.len(),
                0 <= a <= n,
                cmds@ == engage_commands(w, a as int),
                found@.len() == a,
                forall|k: int| 0 <= k < a ==> #[trigger] found@[k] == engaged_target(w, k, n as int),
            decreases n - a,
        {
            let mut last: Option<usize> = None;
            let mut row: Vec<Do> = Vec::new();
            let mut o: usize = 0;
            while o < n
                invariant
                    self@ == w,
                    self.wf(),
                    n == w.len(),
                    n == self.actors@.len(),
                    0 <= a < n,
                    0 <= o <= n,
                    row@ == engage_row(w, a as int, o as int),
                    last == engaged_target(w, a as int, o as int),
                decreases n - o,
            {
                if self.engages_exec(a, o) {
                    row.push(Do(a, State::Attack, self.actors[o].body.position));
                    last = Some(o);
                }
                o = o + 1;
            }
            cmds.append(&mut row);
            assert(cmds@ == engage_commands(w, a + 1));
            found.push(last);
            a = a + 1;
        }
        let mut k: usize = 0;
        while k < n
            invariant
                n == w.len(),
                n == self.actors@.len(),
                found@.len() == n,
                forall|j: int| 0 <= j < n ==> #[trigger] found@[j] == engaged_target(w, j, n as int),
                self.clock == old(self).clock,
                old(self)@ == w,
                old(self).wf(),
                0 <= k <= n,
                forall|j: int| 0 <= j < k ==> #[trigger] self.actors@[j]@ == engaged(w, j),
                forall|j: int| k <= j < n ==> #[trigger] self.actors@[j]@ == w[j],
            decreases n - k,
        {
            let ghost before = self.actors@;
            assert(before[k as int]@ == w[k as int]);
            if let Some(o) = found[k] {
                self.actors[k].body.target.entity = Some(o);
            }
            assert(forall|j: int| 0 <= j < n && j != k ==> self.actors@[j] == before[j]);
            assert(self.actors@[k as int]@ == engaged(w, k as int));
            k = k + 1;
        }
        assert(self@ =~= Seq::new(w.len(), |a: int| engaged(w, a)));
        assert forall|i: int| 0 <= i < self@.len() implies (#[trigger] self@[i]).wf(
            self@.len(),
            self.clock,
        ) by {
            assert(w[i].wf(w.len(), self.clock));
            lemma_engaged_target_bound(w, i, n as int);
        }
        cmds
    }

    /// Applies one command. The target point is moved into the arena.
    pub fn apply_command(&mut self, c: Do)
        requires
            old(self).wf(),
        ensures
            final(self).wf(),
            final(self).clock == old(self).clock,
            final(self)@ == commanded(old(self)@, c),
    {
        let id = c.0;
        if id >= self.actors.len() {
            return;
        }
        let b = self.actors[id].body;
        if !(b.spawned && b.state.value != State::Dead && b.phantom.is_none() && b.repeat.is_none()
            && b.reverse.is_none()) {
            return;
        }
        let ghost w = self@;
        assert(w[id as int] == self.actors@[id as int]@);
        let q = Point { x: clamp(c.2.x as i128), y: clamp(c.2.y as i128) };
        let nb = match c.1 {
            State::Move => Body {
                target: Target { entity: None, x: q.x, y: q.y },
                state: CurrentState { value: State::Move },
                action: CurrentAction { value: Action::Idle },
                ..b
            },
            State::Attack => Body {
                target: Target { x: q.x, y: q.y, ..b.target },
                state: CurrentState { value: State::Attack },
                action: CurrentAction { value: Action::Attack },
                ..b
            },
            State::Idle => Body {
                target: Target { entity: None, x: q.x, y: q.y },
                state: CurrentState { value: State::Idle },
                action: CurrentAction { value: Action::Idle },
                ..b
            },
            _ => b,
        };
        self.actors[id].body = nb;
        assert(self@ =~= commanded(w, c));
        assert forall|i: int| 0 <= i < self@.len() implies (#[trigger] self@[i]).wf(
            self@.len(),
            self.clock,
        ) by {
            assert(w[i].wf(w.len(), self.clock));
        }
    }

    /// Applies a list of commands in order.
    pub fn read_action(&mut self, cs: &Vec<Do>)
        requires
            old(self).wf(),
        ensures
            final(self).wf(),
            final(self).clock == old(self).clock,
            final(self)@ == all_commanded(old(self)@, cs@),
    {
        let mut i: usize = 0;
        while i < cs.len()
            invariant
                self.wf(),
                self.clock == old(self).clock,
                0 <= i <= cs@.len(),
                self@ == all_commanded(old(self)@, cs@.subrange(0, i as int)),
            decreases cs@.len() - i,
        {
            self.apply_command(cs[i]);
            assert(cs@.subrange(0, i + 1).drop_last() == cs@.subrange(0, i as int));
            i = i + 1;
        }
        assert(cs@.subrange(0, cs@.len() as int) == cs@);
    }
}

} // verus!
