use skirmish::action::Do;
use skirmish::component::State;
use skirmish::geometry::Point;
use skirmish::input::{centroid, is_drag, point_in_box, ControlGroups, DoubleTap};
use skirmish::world::World;

#[test]
fn click_selects_unit_under_pointer_and_deselects_others() {
    let mut w = World::new();
    let a = w.spawn_unit(0, false, Point::new(0, 0), 0);
    let b = w.spawn_unit(0, false, Point::new(100, 0), 0);
    let e = w.spawn_unit(1, true, Point::new(5, 0), 0);
    let r = w.select_entities(&vec![false, true, false], Point::new(3, 0), Point::new(3, 0), false);
    assert_eq!(r[a], Some(true));
    assert_eq!(r[b], Some(false));
    assert_eq!(r[e], None);
}

#[test]
fn drag_selects_units_in_box() {
    let mut w = World::new();
    let a = w.spawn_unit(0, false, Point::new(10, 10), 0);
    let b = w.spawn_unit(0, false, Point::new(200, 200), 0);
    let c = w.spawn_unit(0, false, Point::new(60, 60), 0);
    let r = w.select_entities(&vec![false, true, true], Point::new(50, 50), Point::new(0, 0), true);
    assert_eq!(r[a], Some(true));
    assert_eq!(r[b], Some(false));
    assert_eq!(r[c], Some(false));
    assert!(point_in_box(Point::new(1, 1), Point::new(2, 0), Point::new(0, 2)));
    assert!(!point_in_box(Point::new(3, 1), Point::new(2, 0), Point::new(0, 2)));
    assert!(!is_drag(Point::new(0, 0), Point::new(1, 1)));
    assert!(is_drag(Point::new(0, 0), Point::new(2, 1)));
}

#[test]
fn right_click_on_enemy_orders_attack() {
    let mut w = World::new();
    let a = w.spawn_unit(0, false, Point::new(0, 0), 0);
    let e = w.spawn_unit(1, true, Point::new(300, 0), 0);
    let orders = w.act(&vec![true, false], Point::new(310, 5));
    assert_eq!(orders, vec![Do(a, State::Attack, Point::new(310, 5))]);
    assert_eq!(w.actors[a].body.target.entity, Some(e));
    assert_eq!(w.actors[a].body.target.x, 300);
    let orders = w.act(&vec![true, false], Point::new(-50, 0));
    assert_eq!(orders, vec![Do(a, State::Move, Point::new(-50, 0))]);
}

#[test]
fn control_groups_keep_first_assignment() {
    let mut w = World::new();
    let ids = w.spawn();
    let mut g = ControlGroups::new();
    assert_eq!(g.get_control_group(1, &w), None);
    g.set_control_group(1, vec![ids[2], ids[4]]);
    g.set_control_group(1, vec![ids[0]]);
    assert_eq!(g.get_control_group(1, &w), Some(vec![ids[2], ids[4]]));
    w.actors[ids[4]].body.selectable = false;
    assert_eq!(g.get_control_group(1, &w), Some(vec![ids[2]]));
    assert_eq!(g.get_control_group(12, &w), None);
    assert_eq!(centroid(&w, &vec![ids[2], ids[4]]), Some(Point::new(90, 90)));
    assert_eq!(centroid(&w, &vec![]), None);
}

#[test]
fn double_tap_needs_same_key_within_window() {
    let mut t = DoubleTap::new();
    assert!(!t.is_double_tap(3));
    t.double_tap_timer(&vec![3], 16_000);
    assert_eq!(t.key, Some(3));
    assert_eq!(t.elapsed, 0);
    t.double_tap_timer(&vec![4], 100_000);
    assert_eq!(t.key, Some(3));
    assert!(t.is_double_tap(3));
    assert!(!t.is_double_tap(4));
    t.double_tap_timer(&vec![], 150_000);
    assert!(!t.is_double_tap(3));
}

#[test]
fn corpses_cannot_be_picked() {
    let mut w = World::new();
    let a = w.spawn_unit(0, false, Point::new(0, 0), 0);
    w.apply_damage(a, 100);
    w.health();
    let r = w.select_entities(&vec![false], Point::new(0, 0), Point::new(0, 0), false);
    assert_eq!(r[a], None);
    let mut g = ControlGroups::new();
    g.set_control_group(0, vec![a]);
    assert_eq!(g.get_control_group(0, &w), Some(vec![]));
}
