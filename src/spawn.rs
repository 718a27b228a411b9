//! New units: the stats every unit starts with, and the two opening squads.
use vstd::prelude::*;

use crate::component::{
    Action, ActorView, AnimationIndices, Carry, AnimationTimer, Attack, Body, CurrentAction, CurrentState,
    Enemy, Facing, Health, History, MoveSpeed, Radius, Snapshot, State, Target, TurnRate, Unit,
    Velocity, Actor,
};
use crate::geometry::Point;
use crate::world::World;
use std::collections::VecDeque;

verus! {

pub const UNIT_RADIUS: i64 = 20;
/// World units per second.
pub const UNIT_MOVE_SPEED: i64 = 200;
/// Milliradians per second.
pub const UNIT_TURN_RATE: i64 = 10_000;
pub const UNIT_ATTACK_RANGE: i64 = 500;
/// Cooldown between shots, in microseconds.
pub const UNIT_ATTACK_TIMER: u64 = 1_000_000;
pub const UNIT_HEALTH: i32 = 100;
/// Time a frame of the animation shows, in microseconds.
pub const UNIT_ANIMATION_TIMER: u64 = 80_000;
/// A full turn, in milliradians.
pub const TAU_MRAD: i64 = 6283;
/// Units in a squad.
pub const SQUAD_SIZE: usize = 10;
/// Spacing of the player's squad along the diagonal.
pub const SQUAD_SPACING: i64 = 30;
/// Where the enemy squad gathers.
pub const ENEMY_RALLY: i64 = -100;

/// The body of a unit just spawned at `position`, facing `facing`.
pub open spec fn fresh_body(owner: usize, enemy: bool, position: Point, facing: i64) -> Body {
    Body {
        unit: Unit { owner },
        enemy: if enemy { Some(Enemy) } else { None },
        phantom: None,
        replica: false,
        spawned: true,
        selectable: !enemy,
        position,
        carry: Carry { x: 0, y: 0 },
        direction: 0,
        radius: Radius { value: UNIT_RADIUS },
        velocity: Velocity { x: 0, y: 0 },
        move_speed: MoveSpeed { value: UNIT_MOVE_SPEED },
        facing: Facing { value: facing },
        turn_rate: TurnRate { value: UNIT_TURN_RATE },
        target: Target { entity: None, x: 0, y: 0 },
        attack: Attack { range: UNIT_ATTACK_RANGE, cooldown: UNIT_ATTACK_TIMER, elapsed: 0 },
        state: CurrentState { value: State::Idle },
        action: CurrentAction { value: Action::Idle },
        health: Health { current: UNIT_HEALTH, max: UNIT_HEALTH },
        animation: AnimationIndices { current: 0, first: 0, last: 7 },
        animation_timer: AnimationTimer { duration: UNIT_ANIMATION_TIMER, elapsed: 0 },
        atlas_index: 0,
        repeat: None,
        reverse: None,
    }
}

/// A fresh unit with an empty timeline.
pub open spec fn fresh_actor(owner: usize, enemy: bool, position: Point, facing: i64) -> ActorView {
    ActorView { body: fresh_body(owner, enemy, position, facing), timeline: Seq::empty() }
}

/// The `k`-th unit of the player's squad: on the diagonal, facings spread
/// over a full turn.
pub open spec fn squad_member(k: int) -> ActorView {
    fresh_actor(
        0,
        false,
        Point { x: (SQUAD_SPACING * k) as i64, y: (SQUAD_SPACING * k) as i64 },
        (TAU_MRAD * k / 10) as i64,
    )
}

/// A unit of the enemy squad.
pub open spec fn enemy_member() -> ActorView {
    fresh_actor(1, true, Point { x: ENEMY_RALLY, y: ENEMY_RALLY }, 0)
}

impl World {
    /// Spawns a unit of `owner` at `position`, facing `facing`; `enemy`
    /// marks the opposing faction. Returns its id.
    pub fn spawn_unit(&mut self, owner: usize, enemy: bool, position: Point, facing: i64) -> (id: usize)
        requires
            old(self).wf(),
            position.wf(),
        ensures
            final(self).wf(),
            final(self).clock == old(self).clock,
            final(self)@ == old(self)@.push(fresh_actor(owner, enemy, position, facing)),
            id == old(self)@.len(),
    {
        let n = self.actors.len();
        let ghost w = self@;
        let body = Body {
            unit: Unit { owner },
            enemy: if enemy { Some(Enemy) } else { None },
            phantom: None,
            replica: false,
            spawned: true,
            selectable: !enemy,
            position,
            carry: Carry { x: 0, y: 0 },
            direction: 0,
            radius: Radius { value: UNIT_RADIUS },
            velocity: Velocity { x: 0, y: 0 },
            move_speed: MoveSpeed { value: UNIT_MOVE_SPEED },
            facing: Facing { value: facing },
            turn_rate: TurnRate { value: UNIT_TURN_RATE },
            target: Target { entity: None, x: 0, y: 0 },
            attack: Attack { range: UNIT_ATTACK_RANGE, cooldown: UNIT_ATTACK_TIMER, elapsed: 0 },
            state: CurrentState { value: State::Idle },
            action: CurrentAction { value: Action::Idle },
            health: Health { current: UNIT_HEALTH, max: UNIT_HEALTH },
            animation: AnimationIndices { current: 0, first: 0, last: 7 },
            animation_timer: AnimationTimer { duration: UNIT_ANIMATION_TIMER, elapsed: 0 },
            atlas_index: 0,
            repeat: None,
            reverse: None,
        };
        let snapshots: VecDeque<Snapshot> = VecDeque::new();
        self.actors.push(Actor { body, history: History { snapshots } });
        assert(self@ =~= w.push(fresh_actor(owner, enemy, position, facing)));
        assert forall|i: int| 0 <= i < self@.len() implies (#[trigger] self@[i]).wf(
            self@.len(),
            self.clock,
        ) by {
            if i < n {
                assert(w[i].wf(n as nat, self.clock));
            }
        }
        n
    }

    /// Spawns the player's squad: ten units on the diagonal, thirty units
    /// apart, their facings spread over a full turn. Returns their ids.
    pub fn spawn(&mut self) -> (ids: Vec<usize>)
        requires
            old(self).wf(),
        ensures
            final(self).wf(),
            final(self).clock == old(self).clock,
            final(self)@ == old(self)@ + Seq::new(SQUAD_SIZE as nat, |k: int| squad_member(k)),
            ids@ == Seq::new(SQUAD_SIZE as nat, |k: int| (old(self)@.len() + k) as usize),
    {
        let ghost w = self@;
        let mut ids: Vec<usize> = Vec::new();
        let mut k: usize = 0;
        while k < SQUAD_SIZE
            invariant
                self.wf(),
                self.clock == old(self).clock,
                old(self)@ == w,
                0 <= k <= SQUAD_SIZE,
                self@ == w + Seq::new(k as nat, |j: int| squad_member(j)),
                ids@ == Seq::new(k as nat, |j: int| (w.len() + j) as usize),
            decreases SQUAD_SIZE - k,
        {
            let c = SQUAD_SPACING * k as i64;
            let facing = TAU_MRAD * k as i64 / 10;
            let id = self.spawn_unit(0, false, Point { x: c, y: c }, facing);
            ids.push(id);
            assert(self@ =~= w + Seq::new((k + 1) as nat, |j: int| squad_member(j)));
            assert(ids@ =~= Seq::new((k + 1) as nat, |j: int| (w.len() + j) as usize));
            k = k + 1;
        }
        ids
    }

    /// Spawns the enemy squad: ten units of the second owner, gathered at
    /// one point. Returns their ids.
    pub fn spawn_enemy(&mut self) -> (ids: Vec<usize>)
        requires
            old(self).wf(),
        ensures
            final(self).wf(),
            final(self).clock == old(self).clock,
            final(self)@ == old(self)@ + Seq::new(SQUAD_SIZE as nat, |k: int| enemy_member()),
            ids@ == Seq::new(SQUAD_SIZE as nat, |k: int| (old(self)@.len() + k) as usize),
    {
        let ghost w = self@;
        let mut ids: Vec<usize> = Vec::new();
        let mut k: usize = 0;
        while k < SQUAD_SIZE
            invariant
                self.wf(),
                self.clock == old(self).clock,
                old(self)@ == w,
                0 <= k <= SQUAD_SIZE,
                self@ == w + Seq::new(k as nat, |j: int| enemy_member()),
                ids@ == Seq::new(k as nat, |j: int| (w.len() + j) as usize),
            decreases SQUAD_SIZE - k,
        {
            let id = self.spawn_unit(1, true, Point { x: ENEMY_RALLY, y: ENEMY_RALLY }, 0);
            ids.push(id);
            assert(self@ =~= w + Seq::new((k + 1) as nat, |j: int| enemy_member()));
            assert(ids@ =~= Seq::new((k + 1) as nat, |j: int| (w.len() + j) as usize));
            k = k + 1;
        }
        ids
    }
}

} // verus!
