//! Death: units whose health has run out become inert corpses, and every
//! reference to them as a target is dropped.
use rand::Rng;

use vstd::prelude::*;

use crate::bullet::damaged;
use crate::component::{ActorView, Body, CurrentState, State, Target, Velocity};
use crate::world::World;

verus! {

/// First and one past the last atlas frame of a corpse.
pub const CORPSE_FIRST_FRAME: usize = 80;
pub const CORPSE_END_FRAME: usize = 83;

/// Relies on rand::thread_rng and rand::Rng::gen_range: a value drawn from
/// `low..high`, which must not be empty.
#[verifier::external_body]
fn random_in(low: usize, high: usize) -> (r: usize)
    requires
        low < high,
    ensures
        low <= r < high,
{
    rand::thread_rng().gen_range(low..high)
}

/// A present unit whose health has run out.
pub open spec fn dying(b: Body) -> bool {
    b.spawned && b.health.current <= 0
}

/// The body of actor `a` after deaths are resolved: a target that is dying
/// is dropped (its point stays), and a dying unit that was not dead yet
/// dies, showing corpse frame `frame`.
pub open spec fn died_body(w: Seq<ActorView>, a: int, frame: usize) -> Body {
    let b = w[a].body;
    let b1 = match b.target.entity {
        Some(e) => if e < w.len() && dying(w[e as int].body) {
            Body { target: Target { entity: None, ..b.target }, ..b }
        } else {
            b
        },
        None => b,
    };
    if dying(b) && b.state.value != State::Dead {
        Body {
            state: CurrentState { value: State::Dead },
            atlas_index: frame,
            velocity: Velocity { x: 0, y: 0 },
            ..b1
        }
    } else {
        b1
    }
}

/// The arena after deaths are resolved, actor `a` showing `frames[a]` if it
/// dies now.
pub open spec fn deaths(w: Seq<ActorView>, frames: Seq<usize>) -> Seq<ActorView> {
    Seq::new(w.len(), |a: int| ActorView { body: died_body(w, a, frames[a]), timeline: w[a].timeline })
}

/// Death happens once: resolving deaths again changes nothing, whatever
/// frames are offered, and a unit that died takes no further damage.
pub proof fn lemma_death_idempotent(
    w: Seq<ActorView>,
    f1: Seq<usize>,
    f2: Seq<usize>,
    id: int,
    d: int,
)
    requires
        f1.len() == w.len(),
        f2.len() == w.len(),
        0 <= id < w.len(),
        dying(w[id].body),
    ensures
        ({
            let w1 = deaths(w, f1);
            &&& w1[id].body.state.value == State::Dead
            &&& deaths(w1, f2) == w1
            &&& damaged(w1, id, d) == w1
        }),
{
    let w1 = deaths(w, f1);
    assert forall|a: int| 0 <= a < w.len() implies #[trigger] dying(w1[a].body) == dying(w[a].body) by {}
    assert(deaths(w1, f2) =~= w1);
    assert(damaged(w1, id, d) =~= w1);
}

impl World {
    /// Resolves deaths, actor `a` showing corpse frame `frames[a]` if it
    /// dies now.
    pub fn resolve_deaths(&mut self, frames: &Vec<usize>)
        requires
            old(self).wf(),
            frames@.len() == old(self)@.len(),
        ensures
            final(self).wf(),
            final(self).clock == old(self).clock,
            final(self)@ == deaths(old(self)@, frames@),
    {
        let n = self.actors.len();
        let ghost w = self@;
        let mut doomed: Vec<bool> = Vec::new();
        let mut k: usize = 0;
        while k < n
            invariant
                self@ == w,
                n == w.len(),
                n == self.actors@.len(),
                0 <= k <= n,
                doomed@.len() == k,
                forall|j: int| 0 <= j < k ==> #[trigger] doomed@[j] == dying(w[j].body),
            decreases n - k,
        {
            let b = self.actors[k].body;
            doomed.push(b.spawned && b.health.current <= 0);
            k = k + 1;
        }
        let mut a: usize = 0;
        while a < n
            invariant
                n == w.len(),
                n == self.actors@.len(),
                n == frames@.len(),
                doomed@.len() == n,
                forall|j: int| 0 <= j < n ==> #[trigger] doomed@[j] == dying(w[j].body),
                self.clock == old(self).clock,
                old(self)@ == w,
                old(self).wf(),
                0 <= a <= n,
                forall|j: int| 0 <= j < a ==> #[trigger] self.actors@[j]@ == (ActorView {
                    body: died_body(w, j, frames@[j]),
                    timeline: w[j].timeline,
                }),
                forall|j: int| a <= j < n ==> #[trigger] self.actors@[j]@ == w[j],
            decreases n - a,
        {
            let ghost before = self.actors@;
            assert(before[a as int]@ == w[a as int]);
            let b = self.actors[a].body;
            let mut nb = b;
            if let Some(e) = b.target.entity {
                if e < n && doomed[e] {
                    nb = Body { target: Target { entity: None, ..b.target }, ..b };
                }
            }
            if doomed[a] && b.state.value != State::Dead {
                nb = Body {
                    state: CurrentState { value: State::Dead },
                    atlas_index: frames[a],
                    velocity: Velocity { x: 0, y: 0 },
                    ..nb
                };
            }
            self.actors[a].body = nb;
            assert(forall|j: int| 0 <= j < n && j != a ==> self.actors@[j] == before[j]);
            a = a + 1;
        }
        assert(self@ =~= deaths(w, frames@));
        assert forall|i: int| 0 <= i < self@.len() implies (#[trigger] self@[i]).wf(
            self@.len(),
            self.clock,
        ) by {
            assert(w[i].wf(w.len(), self.clock));
        }
    }

    /// Resolves deaths; each unit that dies now shows a corpse frame drawn
    /// at random. Returns the frames offered, one per actor.
    pub fn health(&mut self) -> (frames: Vec<usize>)
        requires
            old(self).wf(),
        ensures
            final(self).wf(),
            final(self).clock == old(self).clock,
            frames@.len() == old(self)@.len(),
            forall|i: int| 0 <= i < frames@.len() ==> CORPSE_FIRST_FRAME <= #[trigger] frames@[i] < CORPSE_END_FRAME,
            final(self)@ == deaths(old(self)@, frames@),
    {
        let n = self.actors.len();
        let mut frames: Vec<usize> = Vec::new();
        let mut k: usize = 0;
        while k < n
            invariant
                0 <= k <= n,
                frames@.len() == k,
                forall|i: int| 0 <= i < k ==> CORPSE_FIRST_FRAME <= #[trigger] frames@[i] < CORPSE_END_FRAME,
            decreases n - k,
        {
            frames.push(random_in(CORPSE_FIRST_FRAME, CORPSE_END_FRAME));
            k = k + 1;
        }
        self.resolve_deaths(&frames);
        frames
    }
}

} // verus!
