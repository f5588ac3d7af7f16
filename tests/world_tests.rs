use ecs_grid::{
    draw_list, initial_world, screen_position, tick, wrap_axis, wrap_position, GameWorld,
    Lifetime, LifetimeSystem, MovementSystem, Position, Sprite, Velocity, GRID_SIZE, INITIAL_TAIL,
};

fn pos(x: i32, y: i32) -> Position {
    Position { x, y }
}

fn vel(x: i32, y: i32) -> Velocity {
    Velocity { x, y }
}

#[test]
fn wrap_axis_values() {
    assert_eq!(wrap_axis(0, 1), 1);
    assert_eq!(wrap_axis(19, 1), 0);
    assert_eq!(wrap_axis(0, -1), 19);
    assert_eq!(wrap_axis(5, -7), 18);
    assert_eq!(wrap_axis(-25, 0), 15);
    assert_eq!(wrap_axis(i32::MAX, i32::MAX), 14);
    assert_eq!(wrap_axis(i32::MIN, i32::MIN), 4);
}

#[test]
fn wrap_position_stays_on_grid() {
    let samples = [i32::MIN, -1000, -21, -20, -1, 0, 1, 19, 20, 21, 1000, i32::MAX];
    for &a in samples.iter() {
        for &d in samples.iter() {
            let p = wrap_position(pos(a, d), vel(d, a));
            assert!(0 <= p.x && p.x < GRID_SIZE);
            assert!(0 <= p.y && p.y < GRID_SIZE);
        }
    }
}

#[test]
fn movement_keeps_every_moved_position_on_grid() {
    let mut w = GameWorld::new();
    let a = w.spawn(Some(pos(i32::MAX, i32::MIN)), Some(vel(i32::MAX, i32::MIN)), None, None);
    let b = w.spawn(Some(pos(-45, 300)), Some(vel(-3, 7)), None, None);
    tick(&mut w);
    assert_eq!(w.position(a), Some(pos(14, 4)));
    assert_eq!(w.position(b), Some(pos(12, 7)));
}

#[test]
fn wrap_around_right_edge() {
    let mut w = GameWorld::new();
    let e = w.spawn(Some(pos(GRID_SIZE - 1, 0)), Some(vel(1, 0)), None, None);
    tick(&mut w);
    assert_eq!(w.position(e), Some(pos(0, 0)));
}

#[test]
fn wrap_around_left_and_top_edges() {
    let mut w = GameWorld::new();
    let e = w.spawn(Some(pos(0, 0)), Some(vel(-1, -1)), None, None);
    MovementSystem.run(&mut w);
    assert_eq!(w.position(e), Some(pos(19, 19)));
}

#[test]
fn lifetime_counts_down_then_destroys() {
    let n: usize = 3;
    let mut w = GameWorld::new();
    let e = w.spawn(Some(pos(0, 0)), None, Some(Lifetime(n)), None);
    for k in 0..n {
        assert!(w.is_alive(e));
        assert_eq!(w.lifetime(e), Some(Lifetime(n - k)));
        tick(&mut w);
    }
    assert!(w.is_alive(e));
    assert_eq!(w.lifetime(e), Some(Lifetime(0)));
    tick(&mut w);
    assert!(!w.is_alive(e));
    assert_eq!(w.lifetime(e), None);
    assert_eq!(w.position(e), None);
}

#[test]
fn lifetime_zero_is_destroyed_on_first_pass() {
    let mut w = GameWorld::new();
    let e = w.spawn(Some(pos(1, 1)), Some(vel(1, 1)), Some(Lifetime(0)), None);
    LifetimeSystem.run(&mut w);
    assert!(!w.is_alive(e));
    assert_eq!(w.position(e), None);
    assert_eq!(w.velocity(e), None);
    assert!(w.entities().is_empty());
}

#[test]
fn entity_without_velocity_is_not_moved() {
    let mut w = GameWorld::new();
    let still = w.spawn(Some(pos(7, 3)), None, Some(Lifetime(10)), None);
    let mover = w.spawn(Some(pos(7, 3)), Some(vel(2, 2)), None, None);
    for _ in 0..5 {
        tick(&mut w);
        assert_eq!(w.position(still), Some(pos(7, 3)));
    }
    assert_eq!(w.position(mover), Some(pos(17, 13)));
}

#[test]
fn destroying_one_entity_keeps_the_others() {
    let mut w = GameWorld::new();
    let s = Sprite { x: 0, y: 1, width: 1, height: 1 };
    let a = w.spawn(Some(pos(1, 2)), Some(vel(3, 4)), Some(Lifetime(9)), Some(s));
    let b = w.spawn(Some(pos(5, 6)), Some(vel(7, 8)), Some(Lifetime(2)), Some(s));
    assert!(w.destroy(a));
    assert!(!w.is_alive(a));
    assert_eq!(w.position(a), None);
    assert_eq!(w.sprite(a), None);
    assert!(w.is_alive(b));
    assert_eq!(w.position(b), Some(pos(5, 6)));
    assert_eq!(w.velocity(b), Some(vel(7, 8)));
    assert_eq!(w.lifetime(b), Some(Lifetime(2)));
    assert_eq!(w.sprite(b), Some(s));
    assert!(!w.destroy(a));
    assert!(w.is_alive(b));
}

#[test]
fn expiry_in_lifetime_pass_keeps_the_others() {
    let mut w = GameWorld::new();
    let dying = w.spawn(Some(pos(0, 0)), None, Some(Lifetime(0)), None);
    let other = w.spawn(Some(pos(4, 4)), None, Some(Lifetime(1)), None);
    tick(&mut w);
    assert!(!w.is_alive(dying));
    assert_eq!(w.position(other), Some(pos(4, 4)));
    assert_eq!(w.lifetime(other), Some(Lifetime(0)));
}

#[test]
fn spawn_without_components() {
    let mut w = GameWorld::new();
    let e = w.spawn(None, None, None, None);
    assert!(w.is_alive(e));
    assert_eq!(w.position(e), None);
    assert_eq!(w.velocity(e), None);
    assert_eq!(w.lifetime(e), None);
    assert_eq!(w.sprite(e), None);
    assert_eq!(w.entities(), vec![e]);
}

#[test]
fn set_position_and_lifetime() {
    let mut w = GameWorld::new();
    let e = w.spawn(Some(pos(0, 0)), None, Some(Lifetime(1)), None);
    w.set_position(e, pos(3, 9));
    w.set_lifetime(e, Lifetime(8));
    assert_eq!(w.position(e), Some(pos(3, 9)));
    assert_eq!(w.lifetime(e), Some(Lifetime(8)));
}

#[test]
fn initial_world_scenario() {
    let (mut w, mover, still) = initial_world();
    assert_eq!(w.position(mover), Some(pos(0, 0)));
    assert_eq!(w.velocity(mover), Some(vel(1, 0)));
    assert_eq!(w.lifetime(mover), Some(Lifetime(INITIAL_TAIL)));
    assert_eq!(w.velocity(still), None);
    assert_eq!(w.lifetime(still), None);
    for k in 1..=5 {
        tick(&mut w);
        assert_eq!(w.position(still), Some(pos(2, 0)));
        assert_eq!(w.position(mover), Some(pos(k, 0)));
    }
    assert!(w.is_alive(mover));
    assert_eq!(w.lifetime(mover), Some(Lifetime(0)));
    tick(&mut w);
    assert!(!w.is_alive(mover));
    assert!(w.is_alive(still));
    assert_eq!(w.position(still), Some(pos(2, 0)));
    assert_eq!(w.entities(), vec![still]);
}

#[test]
fn draw_list_holds_entities_with_position_and_sprite() {
    let (mut w, mover, still) = initial_world();
    let bare = w.spawn(Some(pos(9, 9)), None, None, None);
    let list = draw_list(&w);
    assert_eq!(list.len(), 2);
    assert!(list.contains(&(mover, pos(0, 0), Sprite { x: 0, y: 0, width: 1, height: 1 })));
    assert!(list.contains(&(still, pos(2, 0), Sprite { x: 0, y: 1, width: 1, height: 1 })));
    assert!(list.iter().all(|item| item.0 != bare));
}

#[test]
fn screen_position_scales_by_tile() {
    assert_eq!(screen_position(pos(0, 0)), (0, 0));
    assert_eq!(screen_position(pos(2, 19)), (40, 380));
    assert_eq!(screen_position(pos(i32::MAX, -1)), (i32::MAX as i64 * 20, -20));
}
