//! Frame selection for a unit's sprite sheet: eight headings, a walk cycle,
//! aiming and firing frames.
use vstd::prelude::*;

use crate::component::{Action, ActorView, AnimationIndices, AnimationTimer, Body, State};
use crate::spawn::TAU_MRAD;
use crate::world::World;

verus! {

/// Frames per heading in the walk rows of the sheet.
pub const FRAMES_PER_HEADING: usize = 8;
/// First frame of the aiming and firing rows.
pub const ATTACK_FRAMES: usize = 64;

/// The heading, out of eight, that a facing (milliradians) points to; each
/// heading covers an eighth of a turn centred on its direction.
pub open spec fn heading_of(facing: int) -> int {
    ((facing % (TAU_MRAD as int) + 393) % (TAU_MRAD as int)) * 8 / (TAU_MRAD as int)
}

/// The heading, out of eight, that a facing points to.
pub fn angle_to_direction(facing: i64) -> (r: usize)
    ensures
        r == heading_of(facing as int),
        r < 8,
{
    let t: i64 = TAU_MRAD;
    let m: i64 = if facing >= 0 {
        facing % t
    } else {
        let k: i64 = (-(facing as i128) % (t as i128)) as i64;
        if k == 0 { 0 } else { t - k }
    };
    assert(m == facing as int % (TAU_MRAD as int)) by {
        if facing < 0 {
            let k = (-(facing as int)) % (TAU_MRAD as int);
            let q = (-(facing as int)) / (TAU_MRAD as int);
            assert(-(facing as int) == q * TAU_MRAD + k);
            if k == 0 {
                assert(facing as int == (-q) * TAU_MRAD);
                vstd::arithmetic::div_mod::lemma_mod_multiples_basic(-q, TAU_MRAD as int);
            } else {
                assert(facing as int == (-q - 1) * TAU_MRAD + (TAU_MRAD - k));
                vstd::arithmetic::div_mod::lemma_fundamental_div_mod_converse(
                    facing as int,
                    TAU_MRAD as int,
                    -q - 1,
                    TAU_MRAD - k,
                );
            }
        }
    }
    let a: i64 = (m + 393) % t;
    assert(a * 8 < 8 * 6283);
    (a * 8 / t) as usize
}

/// The animation of a body after `dt` microseconds. A moving unit steps
/// through its walk cycle whenever its frame timer runs out; an attacking
/// unit shows its aiming frame, or its firing frame while it may fire; a
/// dead unit keeps its frame; any other unit stands facing its heading.
pub open spec fn animated_body(b: Body, dt: u64) -> Body {
    let dir = heading_of(b.facing.value as int);
    if !b.is_active() {
        b
    } else {
        match b.state.value {
            State::Move => {
                let e = b.animation_timer.elapsed + dt;
                let d = b.animation_timer.duration as int;
                if e >= d {
                    let cur = if b.animation.current >= b.animation.last {
                        b.animation.first
                    } else {
                        (b.animation.current + 1) as usize
                    };
                    Body {
                        animation_timer: AnimationTimer { elapsed: (e % d) as u64, ..b.animation_timer },
                        animation: AnimationIndices { current: cur, ..b.animation },
                        atlas_index: (dir * 8 + cur) as usize,
                        ..b
                    }
                } else {
                    Body {
                        animation_timer: AnimationTimer { elapsed: e as u64, ..b.animation_timer },
                        ..b
                    }
                }
            },
            State::Attack => Body {
                atlas_index: (ATTACK_FRAMES + 2 * dir + if b.action.value == Action::Attack {
                    1int
                } else {
                    0int
                }) as usize,
                ..b
            },
            State::Dead => b,
            _ => Body { atlas_index: (dir * 8) as usize, ..b },
        }
    }
}

impl World {
    /// Advances the animation of every active unit by `dt` microseconds.
    pub fn animate_texture_atlas(&mut self, dt: u64)
        requires
            old(self).wf(),
        ensures
            final(self).wf(),
            final(self).clock == old(self).clock,
            final(self)@ == crate::movement::bodies_mapped(old(self)@, |b: Body| animated_body(b, dt)),
    {
        let n = self.actors.len();
        let ghost w = self@;
        let mut i: usize = 0;
        while i < n
            invariant
                n == w.len(),
                n == self.actors@.len(),
                self.clock == old(self).clock,
                old(self)@ == w,
                old(self).wf(),
                0 <= i <= n,
                forall|j: int| 0 <= j < i ==> #[trigger] self.actors@[j]@ == (ActorView {
                    body: animated_body(w[j].body, dt),
                    timeline: w[j].timeline,
                }),
                forall|j: int| i <= j < n ==> #[trigger] self.actors@[j]@ == w[j],
            decreases n - i,
        {
            let ghost before = self.actors@;
            assert(before[i as int]@ == w[i as int]);
            assert(w[i as int].wf(n as nat, self.clock));
            let b = self.actors[i].body;
            if b.spawned && b.state.value != State::Dead && b.phantom.is_none() {
                let dir = angle_to_direction(b.facing.value);
                match b.state.value {
                    State::Move => {
                        let e: u128 = b.animation_timer.elapsed as u128 + dt as u128;
                        let d: u128 = b.animation_timer.duration as u128;
                        if e >= d {
                            let cur = if b.animation.current >= b.animation.last {
                                b.animation.first
                            } else {
                                b.animation.current + 1
                            };
                            self.actors[i].body = Body {
                                animation_timer: AnimationTimer { elapsed: (e % d) as u64, ..b.animation_timer },
                                animation: AnimationIndices { current: cur, ..b.animation },
                                atlas_index: dir * FRAMES_PER_HEADING + cur,
                                ..b
                            };
                        } else {
                            self.actors[i].body = Body {
                                animation_timer: AnimationTimer { elapsed: e as u64, ..b.animation_timer },
                                ..b
                            };
                        }
                    },
                    State::Attack => {
                        let fire: usize = if b.action.value == Action::Attack { 1 } else { 0 };
                        self.actors[i].body = Body { atlas_index: ATTACK_FRAMES + 2 * dir + fire, ..b };
                    },
                    State::Dead => {},
                    _ => {
                        self.actors[i].body = Body { atlas_index: dir * FRAMES_PER_HEADING, ..b };
                    },
                }
            }
            assert(forall|j: int| 0 <= j < n && j != i ==> self.actors@[j] == before[j]);
            assert(self.actors@[i as int]@.body == animated_body(w[i as int].body, dt));
            i = i + 1;
        }
        assert(self@ =~= crate::movement::bodies_mapped(w, |b: Body| animated_body(b, dt)));
        assert forall|k: int| 0 <= k < self@.len() implies (#[trigger] self@[k]).wf(
            self@.len(),
            self.clock,
        ) by {
            assert(w[k].wf(w.len(), self.clock));
        }
    }
}

} // verus!
