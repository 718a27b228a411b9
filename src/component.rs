//! The data a unit carries: its kinematics, action state, combat stats and
//! its recorded timeline.
use std::collections::VecDeque;

use vstd::prelude::*;

use crate::geometry::{in_arena, Point};

verus! {

/// Largest radius of a unit.
pub const RADIUS_LIMIT: i64 = 1_000_000;

/// Millionths of a world unit in a world unit: a speed in world units per
/// second times a time in microseconds.
pub const SUBUNITS: i64 = 1_000_000;

/// Largest speed, in world units per second.
pub const SPEED_LIMIT: i64 = 1_000_000;

/// Largest frame index of an animation.
pub const FRAME_LIMIT: usize = 1_000_000;

/// Largest attack range.
pub const RANGE_LIMIT: i64 = 1_000_000_000;

/// Action state of a unit.
#[derive(Clone, Copy, Debug, PartialEq, Eq, Structural)]
pub enum State {
    Idle,
    Move,
    AttackMove,
    Attack,
    Dead,
    Stop,
    Halt,
}

/// Micro-action of a unit: what it is doing within its state.
#[derive(Clone, Copy, Debug, PartialEq, Eq, Structural)]
pub enum Action {
    /// No micro-action under way.
    Idle,
    Attack,
    Target,
    Stop,
    Halt,
}

/// Ownership of a unit by a faction.
#[derive(Clone, Copy, Debug, PartialEq, Eq, Structural)]
pub struct Unit {
    pub owner: usize,
}

/// Marks a unit of the opposing faction.
#[derive(Clone, Copy, Debug, PartialEq, Eq, Structural)]
pub struct Enemy;

/// Marks a non-interactive actor driven by timeline playback.
#[derive(Clone, Copy, Debug, PartialEq, Eq, Structural)]
pub struct Phantom;

/// Collision extent of a unit.
#[derive(Clone, Copy, Debug, PartialEq, Eq, Structural)]
pub struct Radius {
    pub value: i64,
}

/// Heading of a unit, in milliradians.
#[derive(Clone, Copy, Debug, PartialEq, Eq, Structural)]
pub struct Facing {
    pub value: i64,
}

#[derive(Clone, Copy, Debug, PartialEq, Eq, Structural)]
pub struct CurrentState {
    pub value: State,
}

/// Velocity, in world units per second.
#[derive(Clone, Copy, Debug, PartialEq, Eq, Structural)]
pub struct Velocity {
    pub x: i64,
    pub y: i64,
}

/// Sub-unit offset of a position, in millionths of a world unit: the part of
/// the motion that has not yet added up to a whole unit.
#[derive(Clone, Copy, Debug, PartialEq, Eq, Structural)]
pub struct Carry {
    pub x: i64,
    pub y: i64,
}

/// Turn rate, in milliradians per second.
#[derive(Clone, Copy, Debug, PartialEq, Eq, Structural)]
pub struct TurnRate {
    pub value: i64,
}

/// Move speed, in world units per second.
#[derive(Clone, Copy, Debug, PartialEq, Eq, Structural)]
pub struct MoveSpeed {
    pub value: i64,
}

/// What a unit steers toward: an optional unit and a point. The point is
/// authoritative for steering, even after the unit has gone.
#[derive(Clone, Copy, Debug, PartialEq, Eq, Structural)]
pub struct Target {
    pub entity: Option<usize>,
    pub x: i64,
    pub y: i64,
}

/// Forward playback, started at `timestamp` (microseconds).
#[derive(Clone, Copy, Debug, PartialEq, Eq, Structural)]
pub struct Repeat {
    pub timestamp: u64,
}

/// Backward playback, started at `timestamp` (microseconds).
#[derive(Clone, Copy, Debug, PartialEq, Eq, Structural)]
pub struct Reverse {
    pub timestamp: u64,
}

#[derive(Clone, Copy, Debug, PartialEq, Eq, Structural)]
pub struct CurrentAction {
    pub value: Action,
}

/// Attack range and cooldown timer; times in microseconds. The timer has
/// finished once `elapsed` reaches `cooldown`.
#[derive(Clone, Copy, Debug, PartialEq, Eq, Structural)]
pub struct Attack {
    pub range: i64,
    pub cooldown: u64,
    pub elapsed: u64,
}

/// Frames of the running animation.
#[derive(Clone, Copy, Debug, PartialEq, Eq, Structural)]
pub struct AnimationIndices {
    pub current: usize,
    pub first: usize,
    pub last: usize,
}

/// Repeating frame timer of the animation; times in microseconds.
#[derive(Clone, Copy, Debug, PartialEq, Eq, Structural)]
pub struct AnimationTimer {
    pub duration: u64,
    pub elapsed: u64,
}

#[derive(Clone, Copy, Debug, PartialEq, Eq, Structural)]
pub struct Health {
    pub current: i32,
    pub max: i32,
}

/// One recorded instant of a unit.
#[derive(Clone, Copy, Debug, PartialEq, Eq, Structural)]
pub struct Snapshot {
    pub atlas_index: usize,
    pub action: Action,
    pub state: State,
    pub timestamp: u64,
    pub position: Point,
    pub facing: i64,
    pub direction: i64,
}

/// Everything a unit is, but its timeline.
#[derive(Clone, Copy, Debug, PartialEq, Eq, Structural)]
pub struct Body {
    pub unit: Unit,
    pub enemy: Option<Enemy>,
    pub phantom: Option<Phantom>,
    /// Set on an actor spawned to replay another unit's timeline.
    pub replica: bool,
    /// Cleared once the actor has been despawned; its slot stays.
    pub spawned: bool,
    pub selectable: bool,
    pub position: Point,
    pub carry: Carry,
    /// Rotation of the sprite, in milliradians.
    pub direction: i64,
    pub radius: Radius,
    pub velocity: Velocity,
    pub move_speed: MoveSpeed,
    pub facing: Facing,
    pub turn_rate: TurnRate,
    pub target: Target,
    pub attack: Attack,
    pub state: CurrentState,
    pub action: CurrentAction,
    pub health: Health,
    pub animation: AnimationIndices,
    pub animation_timer: AnimationTimer,
    pub atlas_index: usize,
    pub repeat: Option<Repeat>,
    pub reverse: Option<Reverse>,
}

/// The recorded timeline of a unit, oldest snapshot first.
pub struct History {
    pub snapshots: VecDeque<Snapshot>,
}

/// A unit: its body and its timeline.
pub struct Actor {
    pub body: Body,
    pub history: History,
}

/// The mathematical value of an actor.
pub struct ActorView {
    pub body: Body,
    pub timeline: Seq<Snapshot>,
}

impl View for Actor {
    type V = ActorView;

    open spec fn view(&self) -> ActorView {
        ActorView { body: self.body, timeline: self.history.snapshots@ }
    }
}

impl Body {
    /// Present in the arena and not dead.
    pub open spec fn is_live(self) -> bool {
        self.spawned && self.state.value != State::Dead
    }

    /// Takes part in engagement, steering and collision.
    pub open spec fn is_active(self) -> bool {
        self.is_live() && self.phantom.is_none()
    }

    /// Accepts commands and replay requests.
    pub open spec fn is_controllable(self) -> bool {
        self.is_active() && self.repeat.is_none() && self.reverse.is_none()
    }

    /// Well-formed in a world of `n` actors.
    pub open spec fn wf(self, n: nat) -> bool {
        &&& self.position.wf()
        &&& -SUBUNITS < self.carry.x < SUBUNITS
        &&& -SUBUNITS < self.carry.y < SUBUNITS
        &&& in_arena(self.target.x as int) && in_arena(self.target.y as int)
        &&& (self.target.entity matches Some(e) ==> e < n)
        &&& 0 < self.radius.value <= RADIUS_LIMIT
        &&& 0 <= self.move_speed.value <= SPEED_LIMIT
        &&& -SPEED_LIMIT <= self.velocity.x <= SPEED_LIMIT
        &&& -SPEED_LIMIT <= self.velocity.y <= SPEED_LIMIT
        &&& 0 <= self.attack.range <= RANGE_LIMIT
        &&& self.health.current <= self.health.max
        &&& self.attack.elapsed <= self.attack.cooldown
        &&& self.animation.first <= self.animation.current <= self.animation.last <= FRAME_LIMIT
        &&& self.animation_timer.elapsed < self.animation_timer.duration
        &&& !(self.repeat.is_some() && self.reverse.is_some())
    }
}

/// Timestamps never decrease along a timeline, and none lies after `clock`.
pub open spec fn timeline_ordered(t: Seq<Snapshot>, clock: u64) -> bool {
    &&& forall|j: int, k: int| 0 <= j <= k < t.len() ==> t[j].timestamp <= t[k].timestamp
    &&& forall|j: int| 0 <= j < t.len() ==> t[j].timestamp <= clock
}

/// Every recorded position lies in the arena.
pub open spec fn timeline_in_arena(t: Seq<Snapshot>) -> bool {
    forall|j: int| 0 <= j < t.len() ==> (#[trigger] t[j]).position.wf()
}

impl ActorView {
    pub open spec fn wf(self, n: nat, clock: u64) -> bool {
        &&& self.body.wf(n)
        &&& timeline_ordered(self.timeline, clock)
        &&& timeline_in_arena(self.timeline)
    }
}

} // verus!
