use skirmish::animation::angle_to_direction;
use skirmish::component::State;
use skirmish::game::{next_state, AppState, Round};
use skirmish::geometry::Point;
use skirmish::world::World;

#[test]
fn released_input_advances_the_session() {
    assert_eq!(next_state(AppState::Start, &vec![true]), Some(AppState::RoundStart));
    assert_eq!(next_state(AppState::RoundStart, &vec![true, true]), Some(AppState::InGame));
    assert_eq!(next_state(AppState::RoundEnd, &vec![true]), Some(AppState::RoundStart));
    assert_eq!(next_state(AppState::InGame, &vec![true]), None);
    assert_eq!(next_state(AppState::Start, &vec![]), None);
    assert_eq!(next_state(AppState::Start, &vec![true, false]), None);
}

#[test]
fn round_timer_runs_out() {
    let mut r = Round::new();
    r.start_round();
    assert_eq!(r.attempts, 1);
    r.count_round_time(14_000_000);
    assert!(!r.end_round());
    r.count_round_time(2_000_000);
    assert!(r.end_round());
    assert_eq!(r.elapsed, 15_000_000);
    r.start_round();
    assert_eq!((r.elapsed, r.attempts), (0, 2));
}

#[test]
fn headings_of_facings() {
    assert_eq!(angle_to_direction(0), 0);
    assert_eq!(angle_to_direction(785), 1);
    assert_eq!(angle_to_direction(3141), 4);
    assert_eq!(angle_to_direction(-785), 7);
    assert_eq!(angle_to_direction(6283 + 1571), 2);
}

#[test]
fn squads_spawn_with_their_stats() {
    let mut w = World::new();
    let ids = w.spawn();
    assert_eq!(ids, (0..10).collect::<Vec<_>>());
    assert_eq!(w.actors[3].body.position, Point::new(90, 90));
    assert_eq!(w.actors[5].body.facing.value, 3141);
    let e = w.spawn_enemy();
    assert_eq!(e.len(), 10);
    let b = w.actors[e[0]].body;
    assert_eq!(b.position, Point::new(-100, -100));
    assert!(b.enemy.is_some());
    assert_eq!(b.unit.owner, 1);
    assert_eq!(b.health.current, 100);
    assert_eq!(b.radius.value, 20);
}

#[test]
fn walk_cycle_and_attack_frames() {
    let mut w = World::new();
    let u = w.spawn_unit(0, false, Point::new(0, 0), 1571);
    w.actors[u].body.state.value = State::Move;
    w.animate_texture_atlas(50_000);
    assert_eq!(w.actors[u].body.atlas_index, 0);
    w.animate_texture_atlas(50_000);
    assert_eq!(w.actors[u].body.animation.current, 1);
    assert_eq!(w.actors[u].body.atlas_index, 17);
    assert_eq!(w.actors[u].body.animation_timer.elapsed, 20_000);
    w.actors[u].body.state.value = State::Attack;
    w.animate_texture_atlas(10);
    assert_eq!(w.actors[u].body.atlas_index, 68);
    w.actors[u].body.state.value = State::Idle;
    w.animate_texture_atlas(10);
    assert_eq!(w.actors[u].body.atlas_index, 16);
}
