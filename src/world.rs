//! The arena: every actor, indexed by a stable id, and the simulation clock.
use vstd::prelude::*;

use crate::component::{Actor, ActorView, Body, Snapshot, State};

verus! {

/// All actors of the arena. An actor's id is its index; a despawned actor
/// keeps its slot, so ids stay valid.
pub struct World {
    pub actors: Vec<Actor>,
    /// Microseconds of simulated time.
    pub clock: u64,
}

impl View for World {
    type V = Seq<ActorView>;

    open spec fn view(&self) -> Seq<ActorView> {
        self.actors@.map_values(|a: Actor| a@)
    }
}

/// The snapshot that a body yields at time `clock`.
pub open spec fn snapshot_of(b: Body, clock: u64) -> Snapshot {
    Snapshot {
        atlas_index: b.atlas_index,
        action: b.action.value,
        state: b.state.value,
        timestamp: clock,
        position: b.position,
        facing: b.facing.value,
        direction: b.direction,
    }
}

/// Most snapshots a timeline holds: a round's worth of fixed ticks.
pub const TIMELINE_CAP: usize = 1024;

/// A timeline with room for one more snapshot: the oldest goes once the
/// timeline is full.
pub open spec fn with_room(t: Seq<Snapshot>) -> Seq<Snapshot> {
    if t.len() >= TIMELINE_CAP {
        t.drop_first()
    } else {
        t
    }
}

/// An actor after one recording tick at time `clock`: a controllable unit
/// appends its snapshot.
pub open spec fn recorded(a: ActorView, clock: u64) -> ActorView {
    if a.body.is_controllable() {
        ActorView { body: a.body, timeline: with_room(a.timeline).push(snapshot_of(a.body, clock)) }
    } else {
        a
    }
}

/// Recording keeps a timeline in time order: a snapshot stamped with the
/// clock goes after every snapshot taken up to then.
pub proof fn lemma_record_keeps_order(a: ActorView, clock: u64)
    requires
        crate::component::timeline_ordered(a.timeline, clock),
    ensures
        crate::component::timeline_ordered(recorded(a, clock).timeline, clock),
{
    let t = a.timeline;
    if a.body.is_controllable() {
        let r = with_room(t);
        let t1 = r.push(snapshot_of(a.body, clock));
        if t.len() >= TIMELINE_CAP {
            assert(forall|j: int| 0 <= j < r.len() ==> r[j] == t[j + 1]);
        }
        assert(forall|j: int| 0 <= j < r.len() ==> t1[j] == r[j]);
    }
}

impl World {
    pub open spec fn wf(&self) -> bool {
        forall|i: int| 0 <= i < self@.len() ==> (#[trigger] self@[i]).wf(self@.len(), self.clock)
    }

    /// An empty arena at time zero.
    pub fn new() -> (w: World)
        ensures
            w.wf(),
            w@.len() == 0,
            w.clock == 0,
    {
        World { actors: Vec::new(), clock: 0 }
    }

    /// Number of actor slots, despawned ones included.
    pub fn len(&self) -> (r: usize)
        ensures
            r == self@.len(),
    {
        self.actors.len()
    }

    /// Moves the clock forward by `dt` microseconds.
    pub fn advance_clock(&mut self, dt: u64)
        requires
            old(self).wf(),
            old(self).clock + dt <= u64::MAX,
        ensures
            final(self).wf(),
            final(self)@ == old(self)@,
            final(self).clock == old(self).clock + dt,
    {
        self.clock = self.clock + dt;
        assert forall|i: int| 0 <= i < self@.len() implies (#[trigger] self@[i]).wf(
            self@.len(),
            self.clock,
        ) by {
            assert(old(self)@[i].wf(self@.len(), old(self).clock));
        }
    }

    /// Appends one snapshot, stamped with the clock, to the timeline of each
    /// controllable unit; a full timeline first drops its oldest snapshot.
    pub fn track_history(&mut self)
        requires
            old(self).wf(),
        ensures
            final(self).wf(),
            final(self).clock == old(self).clock,
            final(self)@ == old(self)@.map_values(|a: ActorView| recorded(a, old(self).clock)),
    {
        let n = self.actors.len();
        let clock = self.clock;
        let ghost old_view = self@;
        let mut i: usize = 0;
        while i < n
            invariant
                n == self.actors@.len(),
                n == old_view.len(),
                clock == self.clock,
                old_view == old(self)@,
                old(self).wf(),
                old(self).clock == clock,
                0 <= i <= n,
                forall|k: int| 0 <= k < i ==> #[trigger] self.actors@[k]@ == recorded(old_view[k], clock),
                forall|k: int| i <= k < n ==> #[trigger] self.actors@[k]@ == old_view[k],
            decreases n - i,
        {
            let ghost before = self.actors@;
            assert(before[i as int]@ == old_view[i as int]);
            let b = self.actors[i].body;
            if b.spawned && b.state.value != State::Dead && b.phantom.is_none() && b.repeat.is_none()
                && b.reverse.is_none() {
                let s = Snapshot {
                    atlas_index: b.atlas_index,
                    action: b.action.value,
                    state: b.state.value,
                    timestamp: clock,
                    position: b.position,
                    facing: b.facing.value,
                    direction: b.direction,
                };
                if self.actors[i].history.snapshots.len() >= TIMELINE_CAP {
                    self.actors[i].history.snapshots.pop_front();
                }
                self.actors[i].history.snapshots.push_back(s);
                assert(self.actors@[i as int].body == before[i as int].body);
                assert(self.actors@[i as int].history.snapshots@ == with_room(before[i as int].history.snapshots@).push(s));
                assert(s == snapshot_of(b, clock));
            }
            assert(forall|k: int| 0 <= k < n && k != i ==> self.actors@[k] == before[k]);
            assert(self.actors@[i as int]@ == recorded(old_view[i as int], clock));
            i = i + 1;
        }
        assert(self@ =~= old_view.map_values(|a: ActorView| recorded(a, clock)));
        assert forall|k: int| 0 <= k < self@.len() implies (#[trigger] self@[k]).wf(
            self@.len(),
            self.clock,
        ) by {
            assert(old_view[k].wf(n as nat, clock));
            lemma_record_keeps_order(old_view[k], clock);
            let t = self@[k].timeline;
            let t0 = old_view[k].timeline;
            if old_view[k].body.is_controllable() {
                let r = with_room(t0);
                if t0.len() >= TIMELINE_CAP {
                    assert(forall|j: int| 0 <= j < r.len() ==> r[j] == t0[j + 1]);
                }
                assert(forall|j: int| 0 <= j < r.len() ==> t[j] == r[j]);
            }
        }
    }
}

} // verus!
