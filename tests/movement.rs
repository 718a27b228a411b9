use skirmish::action::Do;
use skirmish::component::State;
use skirmish::geometry::{distance, isqrt, Point};
use skirmish::movement::separate;
use skirmish::world::World;

#[test]
fn overlapping_equal_units_are_pushed_apart_evenly() {
    let mut w = World::new();
    let a = w.spawn_unit(0, false, Point::new(0, 0), 0);
    let b = w.spawn_unit(0, false, Point::new(30, 0), 0);
    w.collision();
    let pa = w.actors[a].body.position;
    let pb = w.actors[b].body.position;
    assert_eq!(pa, Point::new(-5, 0));
    assert_eq!(pb, Point::new(35, 0));
    assert!(distance(pa, pb) >= 40);
}

#[test]
fn separation_is_equal_and_opposite_for_equal_radii() {
    let s = separate(Point::new(3, 4), 20, Point::new(10, -2), 20);
    assert_eq!(s.0, -s.2);
    assert_eq!(s.1, -s.3);
    assert!(s.0 < 0 && s.1 > 0);
}

#[test]
fn larger_unit_moves_less() {
    let s = separate(Point::new(0, 0), 30, Point::new(20, 0), 10);
    // overlap 20: the unit of radius 30 takes a quarter, the other three quarters
    assert_eq!(s, (-5, 0, 15, 0));
}

#[test]
fn coincident_units_are_pushed_along_x() {
    let s = separate(Point::new(7, 7), 20, Point::new(7, 7), 20);
    assert_eq!(s, (20, 0, -20, 0));
}

#[test]
fn distant_units_do_not_move() {
    assert_eq!(separate(Point::new(0, 0), 20, Point::new(40, 0), 20), (0, 0, 0, 0));
}

#[test]
fn moving_unit_arrives_and_becomes_idle() {
    let mut w = World::new();
    let u = w.spawn_unit(0, false, Point::new(0, 0), 0);
    w.apply_command(Do(u, State::Move, Point::new(100, 0)));
    let mut idles = 0;
    let mut frames = 0;
    for _ in 0..100 {
        let was = w.actors[u].body.state.value;
        w.arrive();
        if was == State::Move && w.actors[u].body.state.value == State::Idle {
            idles += 1;
        }
        w.calculate_direct_velocity();
        w.apply_velocity(16_000);
        if w.actors[u].body.state.value == State::Move {
            frames += 1;
        }
    }
    assert_eq!(idles, 1);
    assert_eq!(frames, 30);
    let p = w.actors[u].body.position;
    assert_eq!(p, Point::new(96, 0));
    assert!(distance(p, Point::new(100, 0)) < 5);
}

#[test]
fn velocity_points_at_the_target_at_move_speed() {
    let mut w = World::new();
    let u = w.spawn_unit(0, false, Point::new(0, 0), 0);
    w.apply_command(Do(u, State::Move, Point::new(300, 400)));
    w.calculate_direct_velocity();
    let v = w.actors[u].body.velocity;
    assert_eq!((v.x, v.y), (120, 160));
    w.apply_velocity(500_000);
    assert_eq!(w.actors[u].body.position, Point::new(60, 80));
    assert_eq!(w.actors[u].body.velocity.x, 0);
}

#[test]
fn integer_square_root() {
    assert_eq!(isqrt(0), 0);
    assert_eq!(isqrt(24), 4);
    assert_eq!(isqrt(25), 5);
    assert_eq!(isqrt(u64::MAX), 4_294_967_295);
}

#[test]
fn positions_stay_in_the_arena() {
    let mut w = World::new();
    let u = w.spawn_unit(0, false, Point::new(999_999_990, 0), 0);
    w.actors[u].body.velocity.x = 1_000_000;
    w.apply_velocity(1_000_000);
    assert_eq!(w.actors[u].body.position.x, 1_000_000_000);
}

#[test]
fn short_frames_add_up() {
    let mut w = World::new();
    let u = w.spawn_unit(0, false, Point::new(0, 0), 0);
    w.apply_command(Do(u, State::Move, Point::new(1000, 0)));
    for _ in 0..5 {
        w.calculate_direct_velocity();
        w.apply_velocity(4_000);
    }
    assert_eq!(w.actors[u].body.position, Point::new(4, 0));
    assert_eq!(w.actors[u].body.carry.x, 0);
    for _ in 0..3 {
        w.calculate_direct_velocity();
        w.apply_velocity(4_000);
    }
    assert_eq!(w.actors[u].body.position, Point::new(6, 0));
    assert_eq!(w.actors[u].body.carry.x, 400_000);
}

#[test]
fn larger_unit_never_moves_farther() {
    let s = separate(Point::new(0, 0), 20, Point::new(29, 0), 10);
    assert_eq!(s, (0, 0, 1, 0));
    let s = separate(Point::new(29, 0), 10, Point::new(0, 0), 20);
    assert_eq!(s, (1, 0, 0, 0));
}
