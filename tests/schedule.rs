use skirmish::action::Do;
use skirmish::component::State;
use skirmish::geometry::Point;
use skirmish::world::World;

#[test]
fn frame_applies_orders_then_moves() {
    let mut w = World::new();
    let a = w.spawn_unit(0, false, Point::new(0, 0), 0);
    let e = w.spawn_unit(1, true, Point::new(2000, 0), 0);
    let next = w.update(&vec![Do(a, State::Move, Point::new(1000, 0))], 100_000);
    assert!(next.is_empty());
    assert_eq!(w.actors[a].body.position, Point::new(20, 0));
    assert_eq!(w.actors[a].body.state.value, State::Move);
    // the idle enemy engages once the unit is within its range
    w.actors[a].body.position = Point::new(1600, 0);
    let next = w.update(&vec![], 0);
    assert_eq!(next, vec![Do(e, State::Attack, Point::new(1600, 0))]);
    assert_eq!(w.actors[e].body.target.entity, Some(a));
    w.update(&next, 0);
    assert_eq!(w.actors[e].body.state.value, State::Attack);
}

#[test]
fn fixed_tick_records_then_replays() {
    let mut w = World::new();
    let a = w.spawn_unit(0, false, Point::new(7, 8), 0);
    for _ in 0..3 {
        let (shots, frames) = w.fixed_update(&vec![false; w.len()], 10);
        assert!(shots.is_empty());
        assert_eq!(frames.len(), w.len());
    }
    assert_eq!(w.clock, 30);
    let stamps: Vec<u64> = w.actors[a].history.snapshots.iter().map(|s| s.timestamp).collect();
    assert_eq!(stamps, vec![10, 20, 30]);
    let g = w.start_reverse(a, true).unwrap();
    let n = w.len();
    w.fixed_update(&vec![false; n], 10);
    assert_eq!(w.actors[g].history.snapshots.len(), 2);
    assert_eq!(w.actors[a].history.snapshots.len(), 4);
    w.fixed_update(&vec![false; n], 10);
    w.fixed_update(&vec![false; n], 10);
    assert!(!w.actors[g].body.spawned);
}

#[test]
fn fixed_tick_kills_before_recording() {
    let mut w = World::new();
    let a = w.spawn_unit(0, false, Point::new(0, 0), 0);
    w.apply_damage(a, 100);
    w.fixed_update(&vec![false], 10);
    assert_eq!(w.actors[a].body.state.value, State::Dead);
    assert_eq!(w.actors[a].history.snapshots.len(), 0);
}
