//! The flow of a session: which screen follows which, and the round timer.
use vstd::prelude::*;

verus! {

/// The screens of a session.
#[derive(Clone, Copy, Debug, PartialEq, Eq, Structural, Hash, Default)]
pub enum AppState {
    #[default]
    Start,
    RoundStart,
    RoundEnd,
    InGame,
    Pause,
    Win,
    Loss,
}

/// The screen that a released key or button leads to from `s`, if any.
pub open spec fn advanced(s: AppState) -> Option<AppState> {
    match s {
        AppState::Start => Some(AppState::RoundStart),
        AppState::RoundStart => Some(AppState::InGame),
        AppState::RoundEnd => Some(AppState::RoundStart),
        _ => None,
    }
}

/// The screen that follows `current` after this frame's key and button
/// events (`true` for a release, `false` for a press): the session moves on
/// when there was at least one event and every one was a release.
pub fn next_state(current: AppState, released: &Vec<bool>) -> (r: Option<AppState>)
    ensures
        r == if released@.len() > 0 && forall|i: int| 0 <= i < released@.len() ==> #[trigger] released@[i] {
            advanced(current)
        } else {
            None
        },
{
    let mut input = false;
    let mut i: usize = 0;
    while i < released.len()
        invariant
            0 <= i <= released@.len(),
            forall|k: int| 0 <= k < i ==> #[trigger] released@[k],
            input == (i > 0),
        decreases released@.len() - i,
    {
        if !released[i] {
            return None;
        }
        input = true;
        i = i + 1;
    }
    if !input {
        return None;
    }
    match current {
        AppState::Start => Some(AppState::RoundStart),
        AppState::RoundStart => Some(AppState::InGame),
        AppState::RoundEnd => Some(AppState::RoundStart),
        _ => None,
    }
}

/// Length of a round, in microseconds.
pub const ROUND_DURATION: u64 = 15_000_000;

/// The round timer and the number of rounds started; times in microseconds.
#[derive(Clone, Copy, Debug, PartialEq, Eq, Structural)]
pub struct Round {
    pub duration: u64,
    pub elapsed: u64,
    pub attempts: u32,
}

impl Round {
    /// A round timer that has not started yet.
    pub fn new() -> (r: Round)
        ensures
            r == (Round { duration: ROUND_DURATION, elapsed: 0, attempts: 0 }),
    {
        Round { duration: ROUND_DURATION, elapsed: 0, attempts: 0 }
    }

    /// Starts a new round: the timer restarts and one more attempt counts.
    pub fn start_round(&mut self)
        requires
            old(self).attempts < u32::MAX,
        ensures
            *final(self) == (Round { elapsed: 0, attempts: (old(self).attempts + 1) as u32, ..*old(self) }),
    {
        self.elapsed = 0;
        self.attempts = self.attempts + 1;
    }

    /// Runs the timer for `dt` microseconds; it stops at the round's length.
    pub fn count_round_time(&mut self, dt: u64)
        ensures
            *final(self) == (Round {
                elapsed: if old(self).elapsed as int + dt >= old(self).duration {
                    old(self).duration
                } else {
                    (old(self).elapsed + dt) as u64
                },
                ..*old(self)
            }),
    {
        if self.elapsed >= self.duration || dt >= self.duration - self.elapsed {
            self.elapsed = self.duration;
        } else {
            self.elapsed = self.elapsed + dt;
        }
    }

    /// The round is over once its timer has run out.
    pub fn end_round(&self) -> (r: bool)
        ensures
            r == (self.elapsed >= self.duration),
    {
        self.elapsed >= self.duration
    }
}

} // verus!
