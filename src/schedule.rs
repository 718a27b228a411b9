//! The order in which the systems run: once per frame for commands,
//! engagement, steering, collision and integration; once per fixed tick for
//! attack, death, recording and playback.
use vstd::prelude::*;

use crate::action::{all_commanded, attacked_body, engage_commands, engaged, fires, Do};
use crate::animation::animated_body;
use crate::bullet::Fire;
use crate::component::{ActorView, Body};
use crate::health::{deaths, CORPSE_END_FRAME, CORPSE_FIRST_FRAME};
use crate::movement::{
    all_separated, arrived_body, bodies_mapped, integrated_body, steered_body, MAX_FRAME,
};
use crate::replay::{is_playing, played};
use crate::world::{recorded, World};

verus! {

/// The arena after the attack step.
pub open spec fn attacked(w: Seq<ActorView>, aimed: Seq<bool>, dt: u64) -> Seq<ActorView> {
    Seq::new(
        w.len(),
        |i: int| ActorView { body: attacked_body(w[i].body, aimed[i], dt), timeline: w[i].timeline },
    )
}

/// The arena after the engagement step.
pub open spec fn engaged_all(w: Seq<ActorView>) -> Seq<ActorView> {
    Seq::new(w.len(), |a: int| engaged(w, a))
}

/// The arena after a frame's steering: arrival, heading for the target
/// point, collision, integration over `dt` and animation.
pub open spec fn steered(w: Seq<ActorView>, dt: u64) -> Seq<ActorView> {
    let w1 = bodies_mapped(w, |b: Body| arrived_body(b));
    let w2 = bodies_mapped(w1, |b: Body| steered_body(b));
    let w3 = all_separated(w2, w2.len() as int);
    let w4 = bodies_mapped(w3, |b: Body| integrated_body(b, dt));
    bodies_mapped(w4, |b: Body| animated_body(b, dt))
}

/// Recording and playback never touch one actor in the same tick: an actor
/// that records is not replaying, and one that replays does not record.
pub proof fn lemma_record_or_play(a: ActorView, clock: u64)
    ensures
        a.body.is_controllable() ==> !is_playing(a.body) && played(a) == a,
        is_playing(a.body) ==> recorded(a, clock) == a,
{
}

impl World {
    /// One frame of `dt` microseconds: the pending commands are applied in
    /// order, then engagement, then steering, collision and integration.
    /// Returns the attack commands that engagement issued, for the next
    /// frame.
    pub fn update(&mut self, cmds: &Vec<Do>, dt: u64) -> (next: Vec<Do>)
        requires
            old(self).wf(),
            dt <= MAX_FRAME,
        ensures
            final(self).wf(),
            final(self).clock == old(self).clock,
            ({
                let w1 = all_commanded(old(self)@, cmds@);
                &&& next@ == engage_commands(w1, w1.len() as int)
                &&& final(self)@ == steered(engaged_all(w1), dt)
            }),
    {
        self.read_action(cmds);
        let next = self.engage();
        self.arrive();
        self.calculate_direct_velocity();
        self.collision();
        self.apply_velocity(dt);
        self.animate_texture_atlas(dt);
        next
    }

    /// One fixed tick of `dt` microseconds: the attack cycle, then death,
    /// then the clock moves on and every controllable unit records while
    /// every ghost plays back. `aimed[i]` tells whether unit `i` faces its
    /// target. Returns the shots fired and the corpse frames offered.
    pub fn fixed_update(&mut self, aimed: &Vec<bool>, dt: u64) -> (r: (Vec<Fire>, Vec<usize>))
        requires
            old(self).wf(),
            aimed@.len() == old(self)@.len(),
            old(self).clock + dt <= u64::MAX,
        ensures
            final(self).wf(),
            final(self).clock == old(self).clock + dt,
            r.0@ == fires(old(self)@, aimed@, old(self)@.len() as int),
            r.1@.len() == old(self)@.len(),
            forall|i: int| 0 <= i < r.1@.len() ==> CORPSE_FIRST_FRAME <= #[trigger] r.1@[i] < CORPSE_END_FRAME,
            final(self)@ == deaths(attacked(old(self)@, aimed@, dt), r.1@).map_values(
                |a: ActorView| recorded(a, (old(self).clock + dt) as u64),
            ).map_values(|a: ActorView| played(a)),
    {
        let shots = self.attack(aimed, dt);
        let frames = self.health();
        self.advance_clock(dt);
        self.track_history();
        self.repeat_history();
        (shots, frames)
    }
}

} // verus!
