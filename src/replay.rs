//! The replay engine: repeat and reverse requests, and per-tick playback of
//! a recorded timeline by a ghost actor.
use std::collections::VecDeque;

use vstd::prelude::*;

use crate::component::{
    Actor, ActorView, Body, Carry, History, Phantom, Repeat, Reverse, Snapshot, State, Target, Velocity,
};
use crate::geometry::Point;
use crate::world::World;

verus! {

/// Which end of the timeline a playback consumes.
#[derive(Clone, Copy, Debug, PartialEq, Eq, Structural)]
pub enum Direction {
    /// From the oldest snapshot on.
    Forward,
    /// From the newest snapshot back.
    Backward,
}

/// A body that has taken on what a snapshot recorded.
pub open spec fn applied(b: Body, s: Snapshot) -> Body {
    Body {
        position: s.position,
        carry: Carry { x: 0, y: 0 },
        direction: s.direction,
        state: crate::component::CurrentState { value: s.state },
        action: crate::component::CurrentAction { value: s.action },
        atlas_index: s.atlas_index,
        facing: crate::component::Facing { value: s.facing },
        ..b
    }
}

/// A body whose replay has ended: no longer a ghost, no longer replaying; a
/// replica is despawned, and a unit of the player is selectable again.
pub open spec fn finished(b: Body) -> Body {
    Body {
        phantom: None,
        repeat: None,
        reverse: None,
        spawned: b.spawned && !b.replica,
        selectable: if b.enemy.is_none() && !b.replica { true } else { b.selectable },
        ..b
    }
}

/// The body shows exactly what the snapshot recorded.
pub open spec fn shows(b: Body, s: Snapshot) -> bool {
    &&& b.position == s.position
    &&& b.direction == s.direction
    &&& b.state.value == s.state
    &&& b.action.value == s.action
    &&& b.atlas_index == s.atlas_index
    &&& b.facing.value == s.facing
}

/// The actor is a ghost that plays its timeline back.
pub open spec fn is_playing(b: Body) -> bool {
    b.spawned && b.phantom.is_some() && (b.repeat.is_some() || b.reverse.is_some())
}

/// An actor after one playback tick: a forward replay takes the oldest
/// snapshot, a backward one the newest; once the timeline is empty the
/// replay ends.
pub open spec fn played(a: ActorView) -> ActorView {
    if !is_playing(a.body) {
        a
    } else {
        let t = a.timeline;
        let (body, rest) = if t.len() == 0 {
            (a.body, t)
        } else if a.body.repeat.is_some() {
            (applied(a.body, t.first()), t.drop_first())
        } else {
            (applied(a.body, t.last()), t.drop_last())
        };
        if rest.len() == 0 {
            ActorView { body: finished(body), timeline: rest }
        } else {
            ActorView { body, timeline: rest }
        }
    }
}

/// An actor after `k` playback ticks.
pub open spec fn played_n(a: ActorView, k: nat) -> ActorView
    decreases k,
{
    if k == 0 {
        a
    } else {
        played(played_n(a, (k - 1) as nat))
    }
}

/// The body of the unit itself once it starts to replay: parked, a ghost,
/// not selectable, steering toward `goal`.
pub open spec fn parked(b: Body, goal: Point, dir: Direction, clock: u64) -> Body {
    Body {
        phantom: Some(Phantom),
        selectable: false,
        target: Target { x: goal.x, y: goal.y, ..b.target },
        repeat: if dir == Direction::Forward { Some(Repeat { timestamp: clock }) } else { None },
        reverse: if dir == Direction::Backward { Some(Reverse { timestamp: clock }) } else { None },
        ..b
    }
}

/// The body of a replica spawned at `start` from the unit's body `b`.
pub open spec fn replica_of(b: Body, start: Point, goal: Point, dir: Direction, clock: u64) -> Body {
    Body {
        phantom: Some(Phantom),
        replica: true,
        spawned: true,
        selectable: false,
        position: start,
        carry: Carry { x: 0, y: 0 },
        direction: 0,
        velocity: Velocity { x: 0, y: 0 },
        target: Target { entity: None, x: goal.x, y: goal.y },
        atlas_index: 0,
        repeat: if dir == Direction::Forward { Some(Repeat { timestamp: clock }) } else { None },
        reverse: if dir == Direction::Backward { Some(Reverse { timestamp: clock }) } else { None },
        ..b
    }
}

/// Where a playback in direction `dir` starts and where it ends.
pub open spec fn start_of(t: Seq<Snapshot>, dir: Direction) -> Point {
    if dir == Direction::Forward { t.first().position } else { t.last().position }
}

pub open spec fn end_of(t: Seq<Snapshot>, dir: Direction) -> Point {
    if dir == Direction::Forward { t.last().position } else { t.first().position }
}

/// A replay request is served: the unit exists, is controllable and has a
/// timeline to play.
pub open spec fn serves(w: Seq<ActorView>, id: usize) -> bool {
    id < w.len() && w[id as int].body.is_controllable() && w[id as int].timeline.len() > 0
}

/// The arena after a replay request on unit `id`: in direct mode the unit
/// itself becomes the ghost; in clone mode a replica with a copy of its
/// timeline is appended, and the unit stays as it was.
pub open spec fn requested(w: Seq<ActorView>, id: usize, clone: bool, dir: Direction, clock: u64) -> Seq<ActorView> {
    if !serves(w, id) {
        w
    } else {
        let a = w[id as int];
        let t = a.timeline;
        if clone {
            w.push(ActorView {
                body: replica_of(a.body, start_of(t, dir), end_of(t, dir), dir, clock),
                timeline: t,
            })
        } else {
            w.update(id as int, ActorView { body: parked(a.body, end_of(t, dir), dir, clock), timeline: t })
        }
    }
}

/// The id of the actor that plays back after a request, if it is served.
pub open spec fn requested_actor(w: Seq<ActorView>, id: usize, clone: bool) -> Option<usize> {
    if !serves(w, id) {
        None
    } else if clone {
        Some(w.len() as usize)
    } else {
        Some(id)
    }
}

/// Forward playback, tick by tick: after `k` ticks the ghost holds the
/// timeline without its `k` oldest snapshots and, while any remain, is still
/// replaying forward.
proof fn lemma_forward_steps(a: ActorView, k: nat)
    requires
        is_playing(a.body),
        a.body.repeat.is_some(),
        k <= a.timeline.len(),
    ensures
        played_n(a, k).timeline == a.timeline.subrange(k as int, a.timeline.len() as int),
        k < a.timeline.len() ==> {
            let b = played_n(a, k).body;
            b.spawned == a.body.spawned && b.phantom == a.body.phantom && b.repeat == a.body.repeat
                && b.reverse == a.body.reverse && b.replica == a.body.replica && b.enemy
                == a.body.enemy && b.selectable == a.body.selectable
        },
        k >= 1 ==> shows(played_n(a, k).body, a.timeline[k - 1]),
    decreases k,
{
    let t = a.timeline;
    if k == 0 {
        assert(t.subrange(0, t.len() as int) == t);
    } else {
        lemma_forward_steps(a, (k - 1) as nat);
        let p = played_n(a, (k - 1) as nat);
        assert(p.timeline.first() == t[k - 1]);
        assert(p.timeline.drop_first() == t.subrange(k as int, t.len() as int));
    }
}

/// Backward playback, tick by tick: after `k` ticks the ghost holds the
/// timeline without its `k` newest snapshots and, while any remain, is
/// still replaying backward.
proof fn lemma_backward_steps(a: ActorView, k: nat)
    requires
        is_playing(a.body),
        a.body.repeat.is_none(),
        k <= a.timeline.len(),
    ensures
        played_n(a, k).timeline == a.timeline.subrange(0, a.timeline.len() - k),
        k < a.timeline.len() ==> {
            let b = played_n(a, k).body;
            b.spawned == a.body.spawned && b.phantom == a.body.phantom && b.repeat == a.body.repeat
                && b.reverse == a.body.reverse && b.replica == a.body.replica && b.enemy
                == a.body.enemy && b.selectable == a.body.selectable
        },
        k >= 1 ==> shows(played_n(a, k).body, a.timeline[a.timeline.len() - k]),
    decreases k,
{
    let t = a.timeline;
    if k == 0 {
        assert(t.subrange(0, t.len() as int) == t);
    } else {
        lemma_backward_steps(a, (k - 1) as nat);
        let p = played_n(a, (k - 1) as nat);
        assert(p.timeline.last() == t[t.len() - k]);
        assert(p.timeline.drop_last() == t.subrange(0, t.len() - k));
    }
}

/// Replay fidelity: a forward replay shows the recorded snapshots verbatim,
/// one per tick, in the order they were recorded; until the last one it
/// holds the snapshots still to come and stays a forward-replaying ghost.
pub proof fn lemma_repeat_fidelity(a: ActorView, k: nat)
    requires
        is_playing(a.body),
        a.body.repeat.is_some(),
        1 <= k <= a.timeline.len(),
    ensures
        shows(played_n(a, k).body, a.timeline[k - 1]),
        played_n(a, k).timeline == a.timeline.subrange(k as int, a.timeline.len() as int),
        k < a.timeline.len() ==> {
            let b = played_n(a, k).body;
            b.spawned == a.body.spawned && b.phantom == a.body.phantom && b.repeat == a.body.repeat
                && b.reverse == a.body.reverse
        },
{
    lemma_forward_steps(a, k);
}

/// Reverse mirrors repeat: on two copies of one timeline of `n` snapshots,
/// the snapshot that a backward replay shows at tick `k` is the one that a
/// forward replay shows at tick `n + 1 - k`.
pub proof fn lemma_reverse_mirrors_repeat(fwd: ActorView, bwd: ActorView, k: nat)
    requires
        is_playing(fwd.body),
        fwd.body.repeat.is_some(),
        is_playing(bwd.body),
        bwd.body.repeat.is_none(),
        fwd.timeline == bwd.timeline,
        1 <= k <= bwd.timeline.len(),
    ensures
        ({
            let s = bwd.timeline[bwd.timeline.len() - k];
            shows(played_n(bwd, k).body, s) && shows(
                played_n(fwd, (fwd.timeline.len() + 1 - k) as nat).body,
                s,
            )
        }),
{
    lemma_backward_steps(bwd, k);
    lemma_forward_steps(fwd, (fwd.timeline.len() + 1 - k) as nat);
}

/// Exhaustion ends a replay exactly once: once a ghost has played all `n`
/// snapshots of its timeline, it is no longer a ghost nor replaying, a
/// replica is despawned, and later ticks change nothing.
pub proof fn lemma_exhaustion(a: ActorView)
    requires
        is_playing(a.body),
        a.timeline.len() >= 1,
    ensures
        ({
            let e = played_n(a, a.timeline.len());
            &&& e.timeline.len() == 0
            &&& e.body.phantom.is_none()
            &&& e.body.repeat.is_none()
            &&& e.body.reverse.is_none()
            &&& e.body.spawned == (a.body.spawned && !a.body.replica)
            &&& (a.body.enemy.is_none() && !a.body.replica ==> e.body.selectable)
            &&& played(e) == e
        }),
{
    let n = a.timeline.len();
    if a.body.repeat.is_some() {
        lemma_forward_steps(a, (n - 1) as nat);
        lemma_forward_steps(a, n);
    } else {
        lemma_backward_steps(a, (n - 1) as nat);
        lemma_backward_steps(a, n);
    }
}

/// Number of actors present in the arena.
pub open spec fn spawned_count(w: Seq<ActorView>) -> nat
    decreases w.len(),
{
    if w.len() == 0 {
        0
    } else {
        spawned_count(w.drop_last()) + if w.last().body.spawned { 1nat } else { 0nat }
    }
}

/// The arena after `k` playback ticks.
pub open spec fn ticks(w: Seq<ActorView>, k: nat) -> Seq<ActorView>
    decreases k,
{
    if k == 0 {
        w
    } else {
        ticks(w, (k - 1) as nat).map_values(|a: ActorView| played(a))
    }
}

proof fn lemma_ticks_pointwise(w: Seq<ActorView>, k: nat)
    ensures
        ticks(w, k).len() == w.len(),
        forall|i: int| 0 <= i < w.len() ==> #[trigger] ticks(w, k)[i] == played_n(w[i], k),
    decreases k,
{
    if k > 0 {
        lemma_ticks_pointwise(w, (k - 1) as nat);
    }
}

proof fn lemma_idle_stays(a: ActorView, k: nat)
    requires
        !is_playing(a.body),
    ensures
        played_n(a, k) == a,
    decreases k,
{
    if k > 0 {
        lemma_idle_stays(a, (k - 1) as nat);
    }
}

/// A clone-mode replay leaves the arena as it found it: the request spawns
/// one replica holding a copy of the unit's timeline; once the replica has
/// played that whole timeline it is empty and despawned, the count of
/// actors present is back to its value before the request, every other
/// actor (the unit included) is as it was, and further ticks change nothing.
pub proof fn lemma_replica_count_restored(
    w: Seq<ActorView>,
    id: usize,
    dir: Direction,
    clock: u64,
)
    requires
        serves(w, id),
        forall|i: int| 0 <= i < w.len() ==> !is_playing(#[trigger] w[i].body),
    ensures
        ({
            let w1 = requested(w, id, true, dir, clock);
            let n = w[id as int].timeline.len();
            let w2 = ticks(w1, n);
            &&& spawned_count(w1) == spawned_count(w) + 1
            &&& w1.last().timeline == w[id as int].timeline
            &&& spawned_count(w2) == spawned_count(w)
            &&& w2.len() == w.len() + 1
            &&& w2.last().timeline.len() == 0
            &&& !w2.last().body.spawned
            &&& forall|i: int| 0 <= i < w.len() ==> #[trigger] w2[i] == w[i]
            &&& ticks(w2, 1) == w2
        }),
{
    let w1 = requested(w, id, true, dir, clock);
    let n = w[id as int].timeline.len();
    let r = w1.last();
    assert(w1.drop_last() == w);
    assert(is_playing(r.body));
    lemma_exhaustion(r);
    lemma_ticks_pointwise(w1, n);
    let w2 = ticks(w1, n);
    assert forall|i: int| 0 <= i < w.len() implies #[trigger] w2[i] == w[i] by {
        assert(w1[i] == w[i]);
        lemma_idle_stays(w[i], n);
    }
    assert(w2.drop_last() =~= w);
    assert(w2.last() == played_n(r, n));
    assert forall|i: int| 0 <= i < w2.len() implies #[trigger] played(w2[i]) == w2[i] by {
        if i < w.len() {
            assert(!is_playing(w[i].body));
        }
    }
    assert(ticks(w2, 0) == w2);
    assert(ticks(w2, 1) == w2.map_values(|a: ActorView| played(a)));
    assert(w2.map_values(|a: ActorView| played(a)) =~= w2);
}

/// No actor is ever flagged to replay both forward and backward: a replay
/// request keeps every actor to at most one of the two.
pub proof fn lemma_single_drain(w: Seq<ActorView>, id: usize, clone: bool, dir: Direction, clock: u64)
    requires
        forall|i: int| 0 <= i < w.len() ==> (#[trigger] w[i]).body.wf(w.len()),
    ensures
        forall|i: int|
            0 <= i < requested(w, id, clone, dir, clock).len() ==> !(#[trigger] requested(
                w,
                id,
                clone,
                dir,
                clock,
            )[i].body.repeat.is_some() && requested(w, id, clone, dir, clock)[i].body.reverse.is_some()),
{
}

/// A copy of a timeline, snapshot by snapshot.
fn copy_timeline(src: &VecDeque<Snapshot>) -> (r: VecDeque<Snapshot>)
    ensures
        r@ == src@,
{
    let mut r: VecDeque<Snapshot> = VecDeque::new();
    let n = src.len();
    let mut j: usize = 0;
    while j < n
        invariant
            n == src@.len(),
            0 <= j <= n,
            r@ == src@.subrange(0, j as int),
        decreases n - j,
    {
        r.push_back(src[j]);
        assert(src@.subrange(0, j + 1) == src@.subrange(0, j as int).push(src@[j as int]));
        j = j + 1;
    }
    assert(src@.subrange(0, n as int) == src@);
    r
}

impl World {
    /// Starts a replay of unit `id` in direction `dir`. In direct mode
    /// (`clone` false) the unit itself is parked and becomes the ghost; in
    /// clone mode a replica with a copy of the timeline is spawned and the
    /// unit stays controllable. A request on a unit that is missing, not
    /// controllable, or has no timeline changes nothing.
    /// Returns the id of the actor that plays back.
    pub fn request_replay(&mut self, id: usize, clone: bool, dir: Direction) -> (r: Option<usize>)
        requires
            old(self).wf(),
        ensures
            final(self).wf(),
            final(self).clock == old(self).clock,
            final(self)@ == requested(old(self)@, id, clone, dir, old(self).clock),
            r == requested_actor(old(self)@, id, clone),
    {
        let n = self.actors.len();
        if id >= n {
            return None;
        }
        let b = self.actors[id].body;
        let len = self.actors[id].history.snapshots.len();
        if !(b.spawned && b.state.value != State::Dead && b.phantom.is_none() && b.repeat.is_none()
            && b.reverse.is_none()) || len == 0 {
            return None;
        }
        let ghost w = self@;
        assert(w[id as int] == self.actors@[id as int]@);
        let first = self.actors[id].history.snapshots[0];
        let last = self.actors[id].history.snapshots[len - 1];
        let forward = dir == Direction::Forward;
        let (start, goal) = if forward {
            (first.position, last.position)
        } else {
            (last.position, first.position)
        };
        let clock = self.clock;
        let repeat = if forward { Some(Repeat { timestamp: clock }) } else { None };
        let reverse = if forward { None } else { Some(Reverse { timestamp: clock }) };
        assert(start == start_of(w[id as int].timeline, dir));
        assert(goal == end_of(w[id as int].timeline, dir));
        assert(w[id as int].wf(n as nat, clock));
        assert(goal.wf());
        assert(start.wf());
        if clone {
            let snapshots = copy_timeline(&self.actors[id].history.snapshots);
            let body = Body {
                phantom: Some(Phantom),
                replica: true,
                spawned: true,
                selectable: false,
                position: start,
                carry: Carry { x: 0, y: 0 },
                direction: 0,
                velocity: Velocity { x: 0, y: 0 },
                target: Target { entity: None, x: goal.x, y: goal.y },
                atlas_index: 0,
                repeat,
                reverse,
                ..b
            };
            self.actors.push(Actor { body, history: History { snapshots } });
            assert(self@ =~= requested(w, id, clone, dir, clock));
            assert forall|i: int| 0 <= i < self@.len() implies (#[trigger] self@[i]).wf(
                self@.len(),
                self.clock,
            ) by {
                if i < n {
                    assert(w[i].wf(n as nat, clock));
                }
            }
            Some(n)
        } else {
            let body = Body {
                phantom: Some(Phantom),
                selectable: false,
                target: Target { x: goal.x, y: goal.y, ..b.target },
                repeat,
                reverse,
                ..b
            };
            self.actors[id].body = body;
            assert(self@ =~= requested(w, id, clone, dir, clock));
            assert forall|i: int| 0 <= i < self@.len() implies (#[trigger] self@[i]).wf(
                self@.len(),
                self.clock,
            ) by {
                assert(w[i].wf(n as nat, clock));
            }
            Some(id)
        }
    }

    /// One playback tick: every ghost takes the next snapshot of its
    /// timeline (the oldest for a forward replay, the newest for a backward
    /// one) verbatim; a ghost whose timeline is then empty ends its replay.
    pub fn repeat_history(&mut self)
        requires
            old(self).wf(),
        ensures
            final(self).wf(),
            final(self).clock == old(self).clock,
            final(self)@ == old(self)@.map_values(|a: ActorView| played(a)),
    {
        let n = self.actors.len();
        let ghost old_view = self@;
        let mut i: usize = 0;
        while i < n
            invariant
                n == self.actors@.len(),
                n == old_view.len(),
                old_view == old(self)@,
                old(self).wf(),
                self.clock == old(self).clock,
                0 <= i <= n,
                forall|k: int| 0 <= k < i ==> #[trigger] self.actors@[k]@ == played(old_view[k]),
                forall|k: int| i <= k < n ==> #[trigger] self.actors@[k]@ == old_view[k],
            decreases n - i,
        {
            let ghost before = self.actors@;
            assert(before[i as int]@ == old_view[i as int]);
            let b = self.actors[i].body;
            if b.spawned && b.phantom.is_some() && (b.repeat.is_some() || b.reverse.is_some()) {
                let popped = if b.repeat.is_some() {
                    self.actors[i].history.snapshots.pop_front()
                } else {
                    self.actors[i].history.snapshots.pop_back()
                };
                let mut nb = b;
                if let Some(s) = popped {
                    nb = Body {
                        position: s.position,
                        carry: Carry { x: 0, y: 0 },
                        direction: s.direction,
                        state: crate::component::CurrentState { value: s.state },
                        action: crate::component::CurrentAction { value: s.action },
                        atlas_index: s.atlas_index,
                        facing: crate::component::Facing { value: s.facing },
                        ..b
                    };
                }
                if self.actors[i].history.snapshots.len() == 0 {
                    nb = Body {
                        phantom: None,
                        repeat: None,
                        reverse: None,
                        spawned: nb.spawned && !nb.replica,
                        selectable: if nb.enemy.is_none() && !nb.replica { true } else { nb.selectable },
                        ..nb
                    };
                }
                self.actors[i].body = nb;
            }
            assert(forall|k: int| 0 <= k < n && k != i ==> self.actors@[k] == before[k]);
            assert(self.actors@[i as int]@ == played(old_view[i as int]));
            i = i + 1;
        }
        assert(self@ =~= old_view.map_values(|a: ActorView| played(a)));
        assert forall|k: int| 0 <= k < self@.len() implies (#[trigger] self@[k]).wf(
            self@.len(),
            self.clock,
        ) by {
            assert(old_view[k].wf(n as nat, self.clock));
            let t0 = old_view[k].timeline;
            let t = self@[k].timeline;
            if is_playing(old_view[k].body) && t0.len() > 0 {
                if old_view[k].body.repeat.is_some() {
                    assert(t == t0.drop_first());
                    assert(forall|j: int| 0 <= j < t.len() ==> t[j] == t0[j + 1]);
                    assert(t0[0].position.wf());
                } else {
                    assert(t == t0.drop_last());
                    assert(forall|j: int| 0 <= j < t.len() ==> t[j] == t0[j]);
                    assert(t0[t0.len() - 1].position.wf());
                }
            }
        }
    }

    /// Starts a forward replay of unit `id`.
    pub fn start_repeat(&mut self, id: usize, clone: bool) -> (r: Option<usize>)
        requires
            old(self).wf(),
        ensures
            final(self).wf(),
            final(self).clock == old(self).clock,
            final(self)@ == requested(old(self)@, id, clone, Direction::Forward, old(self).clock),
            r == requested_actor(old(self)@, id, clone),
    {
        self.request_replay(id, clone, Direction::Forward)
    }

    /// Starts a backward replay of unit `id`.
    pub fn start_reverse(&mut self, id: usize, clone: bool) -> (r: Option<usize>)
        requires
            old(self).wf(),
        ensures
            final(self).wf(),
            final(self).clock == old(self).clock,
            final(self)@ == requested(old(self)@, id, clone, Direction::Backward, old(self).clock),
            r == requested_actor(old(self)@, id, clone),
    {
        self.request_replay(id, clone, Direction::Backward)
    }
}

} // verus!
