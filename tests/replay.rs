use skirmish::action::Do;
use skirmish::component::State;
use skirmish::geometry::Point;
use skirmish::replay::Direction;
use skirmish::world::World;

fn world_with_unit() -> (World, usize) {
    let mut w = World::new();
    let id = w.spawn_unit(0, false, Point::new(0, 0), 0);
    (w, id)
}

/// Records `n` ticks, one millisecond apart, moving the unit one unit along x
/// each tick.
fn record(w: &mut World, id: usize, n: usize) {
    for _ in 0..n {
        w.track_history();
        w.actors[id].body.position.x += 1;
        w.advance_clock(1);
    }
}

fn live_count(w: &World) -> usize {
    w.actors.iter().filter(|a| a.body.spawned).count()
}

#[test]
fn record_appends_one_snapshot_per_tick_in_order() {
    let (mut w, id) = world_with_unit();
    record(&mut w, id, 5);
    let t: Vec<_> = w.actors[id].history.snapshots.iter().copied().collect();
    assert_eq!(t.len(), 5);
    for k in 0..5 {
        assert_eq!(t[k].timestamp, k as u64);
        assert_eq!(t[k].position, Point::new(k as i64, 0));
    }
    for k in 1..5 {
        assert!(t[k - 1].timestamp <= t[k].timestamp);
    }
}

#[test]
fn replaying_units_do_not_record() {
    let (mut w, id) = world_with_unit();
    record(&mut w, id, 3);
    assert_eq!(w.start_repeat(id, false), Some(id));
    w.track_history();
    assert_eq!(w.actors[id].history.snapshots.len(), 3);
}

#[test]
fn clone_repeat_spawns_ghost_that_replays_and_despawns() {
    let (mut w, id) = world_with_unit();
    record(&mut w, id, 10);
    let before = live_count(&w);
    let ghost = w.start_repeat(id, true).expect("served");
    assert_eq!(ghost, 1);
    assert_eq!(live_count(&w), before + 1);
    assert_eq!(w.actors[ghost].history.snapshots.len(), 10);
    assert!(w.actors[ghost].body.phantom.is_some());
    assert!(w.actors[ghost].body.repeat.is_some());
    assert_eq!(w.actors[ghost].body.position, Point::new(0, 0));
    assert_eq!(w.actors[ghost].body.target.x, 9);
    // the unit itself keeps its timeline and stays controllable
    assert_eq!(w.actors[id].history.snapshots.len(), 10);
    assert!(w.actors[id].body.selectable);
    for k in 0..10 {
        w.repeat_history();
        assert_eq!(w.actors[ghost].history.snapshots.len(), 9 - k);
        assert_eq!(w.actors[ghost].body.position, Point::new(k as i64, 0));
    }
    assert!(!w.actors[ghost].body.spawned);
    assert!(w.actors[ghost].body.phantom.is_none());
    assert!(w.actors[ghost].body.repeat.is_none());
    assert_eq!(live_count(&w), before);
    assert!(w.actors[id].body.selectable);
}

#[test]
fn direct_repeat_replays_forward_and_restores_control() {
    let (mut w, id) = world_with_unit();
    record(&mut w, id, 4);
    assert_eq!(w.start_repeat(id, false), Some(id));
    assert!(!w.actors[id].body.selectable);
    assert_eq!(w.actors[id].body.target.x, 3);
    let mut seen = Vec::new();
    for _ in 0..4 {
        w.repeat_history();
        seen.push(w.actors[id].body.position.x);
    }
    assert_eq!(seen, vec![0, 1, 2, 3]);
    assert!(w.actors[id].body.spawned);
    assert!(w.actors[id].body.selectable);
    assert!(w.actors[id].body.phantom.is_none());
    assert!(w.actors[id].body.repeat.is_none());
    // a further tick changes nothing
    w.repeat_history();
    assert_eq!(w.actors[id].body.position.x, 3);
}

#[test]
fn reverse_drains_in_opposite_order_of_repeat() {
    let (mut w, id) = world_with_unit();
    record(&mut w, id, 6);
    let fwd = w.start_repeat(id, true).unwrap();
    let bwd = w.start_reverse(id, true).unwrap();
    assert!(w.actors[bwd].body.reverse.is_some());
    assert!(w.actors[bwd].body.repeat.is_none());
    assert_eq!(w.actors[bwd].body.position, Point::new(5, 0));
    let mut f = Vec::new();
    let mut b = Vec::new();
    for _ in 0..6 {
        w.repeat_history();
        f.push(w.actors[fwd].body.position.x);
        b.push(w.actors[bwd].body.position.x);
    }
    let mut rf = f.clone();
    rf.reverse();
    assert_eq!(b, rf);
    assert_eq!(f, vec![0, 1, 2, 3, 4, 5]);
}

#[test]
fn never_flagged_repeat_and_reverse_together() {
    let (mut w, id) = world_with_unit();
    record(&mut w, id, 3);
    assert_eq!(w.start_repeat(id, false), Some(id));
    assert_eq!(w.start_reverse(id, false), None);
    assert!(w.actors[id].body.repeat.is_some());
    assert!(w.actors[id].body.reverse.is_none());
}

#[test]
fn replay_request_without_history_is_a_no_op() {
    let (mut w, id) = world_with_unit();
    assert_eq!(w.start_reverse(id, true), None);
    assert_eq!(w.start_repeat(id, false), None);
    assert_eq!(w.len(), 1);
    assert!(w.actors[id].body.phantom.is_none());
}

#[test]
fn replay_request_on_missing_or_dead_unit_is_ignored() {
    let (mut w, id) = world_with_unit();
    record(&mut w, id, 2);
    assert_eq!(w.request_replay(7, true, Direction::Forward), None);
    w.actors[id].body.state.value = State::Dead;
    assert_eq!(w.request_replay(id, true, Direction::Forward), None);
    assert_eq!(w.len(), 1);
}

#[test]
fn ghost_ignores_commands() {
    let (mut w, id) = world_with_unit();
    record(&mut w, id, 2);
    w.start_repeat(id, false);
    w.apply_command(Do(id, State::Move, Point::new(50, 50)));
    assert_ne!(w.actors[id].body.state.value, State::Move);
}

#[test]
fn replay_restores_recorded_state_and_facing() {
    let (mut w, id) = world_with_unit();
    w.actors[id].body.facing.value = 700;
    w.actors[id].body.state.value = State::Move;
    w.actors[id].body.atlas_index = 12;
    w.track_history();
    w.actors[id].body.facing.value = 0;
    w.actors[id].body.state.value = State::Idle;
    w.actors[id].body.atlas_index = 0;
    let g = w.start_repeat(id, true).unwrap();
    w.repeat_history();
    let b = w.actors[g].body;
    assert_eq!(b.facing.value, 700);
    assert_eq!(b.atlas_index, 12);
    assert!(!b.spawned);
}

#[test]
fn timeline_keeps_the_newest_snapshots_up_to_its_cap() {
    let (mut w, id) = world_with_unit();
    record(&mut w, id, skirmish::world::TIMELINE_CAP + 6);
    let t = &w.actors[id].history.snapshots;
    assert_eq!(t.len(), skirmish::world::TIMELINE_CAP);
    assert_eq!(t.front().unwrap().timestamp, 6);
    assert_eq!(t.back().unwrap().timestamp, (skirmish::world::TIMELINE_CAP + 5) as u64);
}
