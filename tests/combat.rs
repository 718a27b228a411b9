use skirmish::action::Do;
use skirmish::bullet::collision;
use skirmish::component::{Action, State};
use skirmish::geometry::Point;
use skirmish::world::World;

#[test]
fn commands_set_target_state_and_action() {
    let mut w = World::new();
    let u = w.spawn_unit(0, false, Point::new(0, 0), 0);
    w.actors[u].body.target.entity = Some(u);
    w.read_action(&vec![Do(u, State::Move, Point::new(10, 20))]);
    let b = w.actors[u].body;
    assert_eq!((b.target.x, b.target.y, b.target.entity), (10, 20, None));
    assert_eq!(b.state.value, State::Move);
    assert_eq!(b.action.value, Action::Idle);
    w.apply_command(Do(u, State::Attack, Point::new(5, 6)));
    let b = w.actors[u].body;
    assert_eq!((b.target.x, b.target.y), (5, 6));
    assert_eq!(b.state.value, State::Attack);
    assert_eq!(b.action.value, Action::Attack);
    w.apply_command(Do(u, State::Idle, Point::new(1, 2)));
    assert_eq!(w.actors[u].body.state.value, State::Idle);
    w.apply_command(Do(u, State::Stop, Point::new(9, 9)));
    assert_eq!(w.actors[u].body.target.x, 1);
}

#[test]
fn command_point_is_clamped_into_arena() {
    let mut w = World::new();
    let u = w.spawn_unit(0, false, Point::new(0, 0), 0);
    w.apply_command(Do(u, State::Move, Point::new(i64::MAX, i64::MIN)));
    assert_eq!(w.actors[u].body.target.x, 1_000_000_000);
    assert_eq!(w.actors[u].body.target.y, -1_000_000_000);
}

#[test]
fn enemies_in_range_are_engaged() {
    let mut w = World::new();
    let a = w.spawn_unit(0, false, Point::new(0, 0), 0);
    let b = w.spawn_unit(1, true, Point::new(300, 400), 0);
    let c = w.spawn_unit(1, true, Point::new(1000, 0), 0);
    let d = w.spawn_unit(0, false, Point::new(10, 0), 0);
    let cmds = w.engage();
    assert_eq!(
        cmds,
        vec![
            Do(a, State::Attack, Point::new(300, 400)),
            Do(b, State::Attack, Point::new(0, 0)),
            Do(b, State::Attack, Point::new(10, 0)),
            Do(d, State::Attack, Point::new(300, 400)),
        ]
    );
    assert_eq!(w.actors[a].body.target.entity, Some(b));
    assert_eq!(w.actors[b].body.target.entity, Some(d));
    assert_eq!(w.actors[c].body.target.entity, None);
}

#[test]
fn attack_fires_when_aimed_and_waits_for_cooldown() {
    let mut w = World::new();
    let u = w.spawn_unit(3, false, Point::new(4, 5), 250);
    w.apply_command(Do(u, State::Attack, Point::new(100, 0)));
    let shots = w.attack(&vec![false], 100_000);
    assert!(shots.is_empty());
    let shots = w.attack(&vec![true], 100_000);
    assert_eq!(shots.len(), 1);
    assert_eq!((shots[0].0, shots[0].1, shots[0].2), (3, Point::new(4, 5), 250));
    assert_eq!(w.actors[u].body.action.value, Action::Idle);
    assert_eq!(w.actors[u].body.attack.elapsed, 100_000);
    let shots = w.attack(&vec![true], 800_000);
    assert!(shots.is_empty());
    w.attack(&vec![true], 100_000);
    assert_eq!(w.actors[u].body.action.value, Action::Attack);
    assert_eq!(w.actors[u].body.attack.elapsed, 1_000_000);
}

#[test]
fn death_happens_once() {
    let mut w = World::new();
    let a = w.spawn_unit(0, false, Point::new(0, 0), 0);
    let b = w.spawn_unit(1, true, Point::new(50, 0), 0);
    w.actors[a].body.target.entity = Some(b);
    w.apply_damage(b, 60);
    w.apply_damage(b, 60);
    assert_eq!(w.actors[b].body.health.current, -20);
    let frames = w.health();
    assert_eq!(frames.len(), 2);
    let frame = w.actors[b].body.atlas_index;
    assert!((80..83).contains(&frame));
    assert_eq!(frame, frames[b]);
    assert_eq!(w.actors[b].body.state.value, State::Dead);
    assert_eq!(w.actors[a].body.target.entity, None);
    assert_eq!(w.actors[a].body.target.x, 0);
    w.apply_damage(b, 60);
    assert_eq!(w.actors[b].body.health.current, -20);
    w.resolve_deaths(&vec![81, 81]);
    assert_eq!(w.actors[b].body.atlas_index, frame);
    assert_eq!(w.actors[a].body.state.value, State::Idle);
}

#[test]
fn projectile_damages_units_it_meets() {
    let mut w = World::new();
    let a = w.spawn_unit(0, false, Point::new(0, 0), 0);
    let b = w.spawn_unit(1, true, Point::new(24, 0), 0);
    let c = w.spawn_unit(1, true, Point::new(100, 0), 0);
    let hit = collision(&mut w, Point::new(20, 0), 5, 10);
    assert!(hit);
    assert_eq!(w.actors[a].body.health.current, 90);
    assert_eq!(w.actors[b].body.health.current, 90);
    assert_eq!(w.actors[c].body.health.current, 100);
    assert!(!collision(&mut w, Point::new(500, 500), 5, 10));
}

#[test]
fn damage_saturates() {
    let mut w = World::new();
    let a = w.spawn_unit(0, false, Point::new(0, 0), 0);
    w.apply_damage(a, i32::MAX);
    w.apply_damage(a, i32::MAX);
    assert_eq!(w.actors[a].body.health.current, i32::MIN);
}

#[test]
fn corpse_frames_are_drawn_at_random() {
    let mut w = World::new();
    for k in 0..60 {
        let u = w.spawn_unit(0, false, Point::new(50 * k, 0), 0);
        w.apply_damage(u, 100);
    }
    let frames = w.health();
    assert!(frames.iter().all(|f| (80..83).contains(f)));
    let first = w.actors[0].body.atlas_index;
    assert!(w.actors.iter().any(|a| a.body.atlas_index != first));
    assert!(w.actors.iter().all(|a| a.body.state.value == State::Dead));
}
