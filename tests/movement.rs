use boom::fixed::{Turn, Vec2, ONE};
use boom::game::{GameLoop, LoopPhase};
use boom::input::{InputAction, InputEvent, InputState, Key};
use boom::map::TileMap;
use boom::world::{Bullet, Mob, Player, World, START_PLANE};

fn room(w: usize, h: usize) -> Vec<Vec<u8>> {
    (0..w)
        .map(|x| (0..h).map(|y| if x == 0 || y == 0 || x == w - 1 || y == h - 1 { 1 } else { 0 }).collect())
        .collect()
}

fn world_in_room(pos: Vec2) -> World {
    let mut world = World::new();
    world.map = TileMap::from_columns(room(6, 6)).unwrap();
    world.player.position = pos;
    world.player.direction = Vec2::new(-ONE, 0);
    world.plane = Vec2::new(0, START_PLANE);
    world.base_direction = world.player.direction;
    world.base_plane = world.plane;
    world
}

/// The matrix of a heading in thousandths of a radian, as the game builds it.
fn turn_of(millis: i64) -> Turn {
    let a = millis as f64 / 1000.0;
    let t = Turn { cos: (a.cos() * ONE as f64) as i64, sin: (a.sin() * ONE as f64) as i64 };
    assert!(t.is_valid());
    t
}

fn len(v: Vec2) -> f64 {
    let (x, y) = (v.x as f64 / ONE as f64, v.y as f64 / ONE as f64);
    (x * x + y * y).sqrt()
}

fn cell_is_open(world: &World) -> bool {
    let p = world.player.position;
    p.x >= 0 && p.y >= 0 && world.map.is_open(p.x / ONE, p.y / ONE)
}

#[test]
fn blocked_forward_keeps_x_while_strafe_moves_y() {
    let mut world = world_in_room(Vec2::new(ONE + ONE / 5, 2 * ONE + ONE / 2));
    let mut input = InputState::new();
    input.forward_down = true;
    input.right_down = true;
    let mut last_y = world.player.position.y;
    for _ in 0..3 {
        world.on_tick(100_000, &input, Turn::identity());
        assert_eq!(world.player.position.x, ONE + ONE / 5);
        assert_eq!(world.player.position.y, last_y + START_PLANE / 2);
        last_y = world.player.position.y;
    }
}

#[test]
fn forward_moves_by_speed_times_direction() {
    let mut world = world_in_room(Vec2::new(4 * ONE, 2 * ONE + ONE / 2));
    let mut input = InputState::new();
    input.forward_down = true;
    // 0.1 s at 5 cells per second: half a cell
    world.on_tick(100_000, &input, Turn::identity());
    assert_eq!(world.player.position, Vec2::new(4 * ONE - ONE / 2, 2 * ONE + ONE / 2));
    input.forward_down = false;
    input.backward_down = true;
    world.on_tick(100_000, &input, Turn::identity());
    assert_eq!(world.player.position, Vec2::new(4 * ONE, 2 * ONE + ONE / 2));
}

#[test]
fn diagonal_walk_into_wall_slides() {
    let mut world = world_in_room(Vec2::new(ONE + ONE / 8, 2 * ONE));
    let diag = (0.7071067811865476 * ONE as f64) as i64;
    world.player.direction = Vec2::new(-diag, diag);
    let mut input = InputState::new();
    input.forward_down = true;
    world.on_tick(50_000, &input, Turn::identity());
    // x would enter the wall column, y is free
    assert_eq!(world.player.position.x, ONE + ONE / 8);
    assert!(world.player.position.y > 2 * ONE);
}

#[test]
fn no_sequence_of_inputs_enters_a_wall() {
    let mut world = World::new();
    let mut input = InputState::new();
    let mut seed: u32 = 12345;
    for _ in 0..2000 {
        seed = seed.wrapping_mul(1103515245).wrapping_add(12345);
        input.forward_down = seed & 1 != 0;
        input.backward_down = seed & 2 != 0 && seed & 8 != 0;
        input.left_down = seed & 4 != 0;
        input.right_down = seed & 16 != 0;
        input.mouse_delta_x = ((seed >> 8) % 200) as i64 - 100;
        let t = turn_of(world.next_heading(&input));
        world.on_tick(16_000 + (seed >> 20) % 90_000, &input, t);
        assert!(cell_is_open(&world));
    }
}

#[test]
fn turning_rotates_direction_and_plane_together() {
    let mut world = World::new();
    let input = InputState::new();
    world.on_tick(16_000, &input, Turn { cos: 0, sin: ONE });
    assert_eq!(world.player.direction, Vec2::new(0, -ONE));
    assert_eq!(world.plane, Vec2::new(-START_PLANE, 0));
    assert_eq!(world.player.position, Vec2::new(22 * ONE, 12 * ONE));
}

#[test]
fn new_things_start_as_documented() {
    let p = Player::new();
    assert!(p.alive);
    assert_eq!(p.position, Vec2::new(22 * ONE, 12 * ONE));
    let m = Mob::new(Vec2::new(3, 4));
    assert!(m.alive);
    assert_eq!((m.position, m.yaw, m.sprite), (Vec2::new(3, 4), 0, 0));
    let b = Bullet::new(Vec2::new(1, 2), Vec2::new(3, 4));
    assert_eq!((b.position, b.direction), (Vec2::new(1, 2), Vec2::new(3, 4)));
    let w = World::new();
    assert!(w.mobs.is_empty() && w.bullet.is_empty());
    assert_eq!(w.plane, Vec2::new(0, START_PLANE));
    assert_eq!((w.base_direction, w.base_plane, w.heading), (w.player.direction, w.plane, 0));
}

#[test]
fn keys_are_held_until_released() {
    let mut s = InputState::new();
    assert_eq!(s.handle_event(InputEvent::KeyDown(Key::W)), InputAction::Nothing);
    s.handle_event(InputEvent::KeyDown(Key::A));
    s.handle_event(InputEvent::KeyDown(Key::S));
    s.handle_event(InputEvent::KeyDown(Key::D));
    assert!(s.forward_down && s.left_down && s.backward_down && s.right_down);
    s.begin_poll();
    assert!(s.forward_down);
    s.handle_event(InputEvent::KeyUp(Key::W));
    s.handle_event(InputEvent::KeyUp(Key::D));
    assert!(!s.forward_down && !s.right_down && s.left_down && s.backward_down);
    s.handle_event(InputEvent::KeyUp(Key::E));
    s.handle_event(InputEvent::KeyDown(Key::Other));
    assert!(!s.quit_received);
}

#[test]
fn mouse_motion_counts_only_when_captured() {
    let mut s = InputState::new();
    s.handle_event(InputEvent::MouseMotion { xrel: 7, yrel: -3 });
    assert_eq!((s.mouse_delta_x, s.mouse_delta_y), (0, 0));
    assert_eq!(s.handle_event(InputEvent::KeyDown(Key::E)), InputAction::CaptureMouse(true));
    s.handle_event(InputEvent::MouseMotion { xrel: 7, yrel: -3 });
    assert_eq!((s.mouse_delta_x, s.mouse_delta_y), (70, -30));
    assert_eq!(s.turn_millis(), -70);
    s.begin_poll();
    assert_eq!((s.mouse_delta_x, s.mouse_delta_y), (0, 0));
    assert_eq!(s.handle_event(InputEvent::KeyDown(Key::E)), InputAction::CaptureMouse(false));
    assert!(!s.mouse_captured);
    assert!(s.toggle_mouse_capture());
}

#[test]
fn quit_resize_and_escape() {
    let mut s = InputState::new();
    assert_eq!((s.window_width, s.window_height), (512, 512));
    s.handle_event(InputEvent::Resized { width: 640, height: 480 });
    assert_eq!((s.window_width, s.window_height), (640, 480));
    s.handle_event(InputEvent::Other);
    assert!(!s.quit_received);
    s.handle_event(InputEvent::Quit);
    assert!(s.quit_received);
    let mut t = InputState::new();
    t.handle_event(InputEvent::KeyDown(Key::Escape));
    assert!(t.quit_received);
}

#[test]
fn loop_stops_for_good_on_quit() {
    let mut g = GameLoop::new();
    assert!(g.is_running());
    assert!(g.after_poll(false));
    assert!(g.after_poll(false));
    assert_eq!(g.ticks, 2);
    assert!(!g.after_poll(true));
    assert_eq!(g.phase, LoopPhase::Stopped);
    assert!(!g.after_poll(false));
    assert!(!g.is_running());
    assert_eq!(g.ticks, 2);
}

#[test]
fn turning_for_a_long_time_keeps_vector_lengths() {
    let mut world = World::new();
    let mut input = InputState::new();
    let (d0, p0) = (len(world.player.direction), len(world.plane));
    // ten minutes of one-pixel turns at 60 ticks per second
    for i in 0..36_000 {
        input.mouse_delta_x = if i % 7 == 3 { -10 } else { 10 };
        let t = turn_of(world.next_heading(&input));
        world.on_tick(16_000, &input, t);
        assert!((len(world.player.direction) - d0).abs() <= 1e-9);
        assert!((len(world.plane) - p0).abs() <= 1e-9);
    }
    assert_eq!(world.heading, -(36_000 - 2 * 5143) * 10);
    let d = world.player.direction;
    let p = world.plane;
    let cross = (d.x as f64 * p.y as f64 - d.y as f64 * p.x as f64) / (ONE as f64 * ONE as f64);
    assert!((cross - (-0.66)).abs() <= 1e-9);
}

#[test]
fn a_full_turn_comes_back() {
    let mut world = World::new();
    let input = InputState::new();
    let (d0, p0) = (world.player.direction, world.plane);
    let steps = 12;
    for k in 1..=steps {
        let a = 2.0 * std::f64::consts::PI * k as f64 / steps as f64;
        let t = Turn { cos: (a.cos() * ONE as f64) as i64, sin: (a.sin() * ONE as f64) as i64 };
        assert!(t.is_valid());
        world.on_tick(16_000, &input, t);
    }
    let tol = 1e-6 * ONE as f64;
    for (a, b) in [(world.player.direction, d0), (world.plane, p0)] {
        assert!(((a.x - b.x) as f64).abs() <= tol);
        assert!(((a.y - b.y) as f64).abs() <= tol);
    }
}

#[test]
fn heading_follows_mouse_and_saturates() {
    let mut world = World::new();
    let mut input = InputState::new();
    input.mouse_delta_x = 70;
    assert_eq!(world.next_heading(&input), -70);
    world.heading = i64::MIN + 5;
    assert_eq!(world.next_heading(&input), i64::MIN);
    input.mouse_delta_x = -70;
    world.heading = i64::MAX - 5;
    assert_eq!(world.next_heading(&input), i64::MAX);
}

#[test]
fn a_tick_leaves_the_rest_of_the_world_alone() {
    let mut world = World::new();
    world.mobs.push(Mob::new(Vec2::new(3 * ONE, 3 * ONE)));
    world.bullet.push((String::from("first"), Bullet::new(Vec2::new(1, 1), Vec2::new(0, ONE))));
    let mut input = InputState::new();
    input.forward_down = true;
    world.on_tick(16_000, &input, Turn::identity());
    assert_eq!(world.mobs.len(), 1);
    assert_eq!(world.mobs[0].position, Vec2::new(3 * ONE, 3 * ONE));
    assert_eq!(world.bullet.len(), 1);
    assert_eq!(world.bullet[0].0, "first");
    assert!(world.player.alive);
}
