//! Tests of the player controller: event draining, surface-velocity
//! averaging, horizontal drive, jumps and the grounded bleed.

use platformer_core::Direction;
use platformer_core::Event;
use platformer_core::KeyState;
use platformer_core::KeyStates;
use platformer_core::Object;
use platformer_core::ObjectType;
use platformer_core::PlayerController;
use platformer_core::Vec2;

const DT: i64 = 60; // 1/60 s

fn v(x: i64, y: i64) -> Vec2 {
    Vec2 { x, y }
}

fn movable(pos: Vec2, vel: Vec2, mass: i64, friction: i64) -> Object {
    Object::new(
        ObjectType::Movable { velocity: vel, mass },
        pos,
        v(3600, 3600),
        friction,
    )
}

fn fixed(pos: Vec2, friction: i64) -> Object {
    Object::new(ObjectType::Static, pos, v(3600, 3600), friction)
}

fn treadmill(pos: Vec2, fake: Vec2, friction: i64) -> Object {
    Object::new(
        ObjectType::Treadmill { fake_velocity: fake },
        pos,
        v(3600, 3600),
        friction,
    )
}

fn controller(controlled: usize) -> PlayerController {
    PlayerController {
        pending_events: vec![],
        controlled_object: controlled,
        key_states: KeyStates::all_released(),
        last_touch_velocity: v(0, 0),
        top_speed: 36000,       // 10 units/s
        acceleration_speed: 216000, // 60 units/s^2
    }
}

fn press(d: Direction) -> Event {
    Event::Keyboard { button: d, state: KeyState::Pressed }
}

fn release(d: Direction) -> Event {
    Event::Keyboard { button: d, state: KeyState::Released }
}

#[test]
fn events_are_drained_in_arrival_order() {
    let mut pc = controller(0);
    pc.pending_events.push(press(Direction::Left));
    pc.pending_events.push(release(Direction::Left));
    pc.pending_events.push(press(Direction::Right));
    let mut objects: Vec<Option<Object>> = vec![];
    pc.update(&mut objects, DT);
    assert!(pc.pending_events.is_empty());
    assert_eq!(pc.key_states.left, KeyState::Released);
    assert_eq!(pc.key_states.right, KeyState::Pressed);
}

#[test]
fn missing_or_unmovable_entity_is_a_no_op() {
    // stale handle: events are drained but nothing else happens
    let mut pc = controller(5);
    pc.pending_events.push(press(Direction::Right));
    let mut objects: Vec<Option<Object>> = vec![Some(fixed(v(0, 0), 3600))];
    pc.update(&mut objects, DT);
    assert_eq!(pc.last_touch_velocity, v(0, 0));
    // static entity under control: same
    let mut pc = controller(0);
    pc.update(&mut objects, DT);
    assert_eq!(pc.last_touch_velocity, v(0, 0));
}

#[test]
fn zero_friction_surface_is_adopted_outright() {
    // a friction-1 contact and a friction-0 contact: the average touch
    // velocity is exactly the frictionless surface's, all else ignored
    let mut player = movable(v(0, 0), v(0, 0), 3600, 3600);
    player.touching.push((1, Direction::Down));
    player.touching.push((2, Direction::Down));
    let mut objects: Vec<Option<Object>> = vec![
        Some(player),
        Some(fixed(v(-7200, -3600), 3600)),
        Some(treadmill(v(0, -3600), v(-14400, 0), 0)),
    ];
    let mut pc = controller(0);
    pc.update(&mut objects, DT);
    assert_eq!(pc.last_touch_velocity, v(-14400, 0));
    // the drive steps toward the glue surface's speed at accel * dt ...
    let vel = objects[0].as_ref().unwrap().get_velocity();
    assert_eq!(vel.x, -3600);
    // ... and the grounded bleed adds 15 * dt upward
    assert_eq!(vel.y, 900);
}

#[test]
fn friction_weighted_average_of_two_surfaces() {
    // friction 1 at rest and friction 1/2 moving left at 4: weights 1 and
    // 2, so the average is -8/3 units/s
    let mut player = movable(v(0, 0), v(0, 0), 3600, 3600);
    player.touching.push((1, Direction::Down));
    player.touching.push((2, Direction::Down));
    let mut objects: Vec<Option<Object>> = vec![
        Some(player),
        Some(fixed(v(-7200, -3600), 3600)),
        Some(treadmill(v(0, -3600), v(-14400, 0), 1800)),
    ];
    let mut pc = controller(0);
    pc.update(&mut objects, DT);
    assert_eq!(pc.last_touch_velocity, v(-9600, 0));
}

#[test]
fn airborne_controller_reuses_last_touch_velocity() {
    let player = movable(v(0, 0), v(0, 0), 3600, 3600);
    let mut objects: Vec<Option<Object>> = vec![Some(player)];
    let mut pc = controller(0);
    pc.last_touch_velocity = v(7200, 0);
    pc.update(&mut objects, DT);
    assert_eq!(pc.last_touch_velocity, v(7200, 0));
    // horizontal drive still targets the remembered surface speed
    let vel = objects[0].as_ref().unwrap().get_velocity();
    assert_eq!(vel.x, 3600);
}

#[test]
fn held_direction_accelerates_up_to_top_speed_relative_to_surface() {
    let player = movable(v(0, 0), v(34000, 0), 3600, 3600);
    let mut objects: Vec<Option<Object>> = vec![Some(player)];
    let mut pc = controller(0);
    pc.pending_events.push(press(Direction::Right));
    pc.update(&mut objects, DT);
    // one step of accel * dt = 3600 would overshoot the cap of 36000
    let vel = objects[0].as_ref().unwrap().get_velocity();
    assert_eq!(vel.x, 36000);
}

#[test]
fn opposing_keys_decelerate_toward_surface_velocity() {
    // both pressed: drive toward the surface speed without overshooting
    let player = movable(v(0, 0), v(-1000, 0), 3600, 3600);
    let mut objects: Vec<Option<Object>> = vec![Some(player)];
    let mut pc = controller(0);
    pc.pending_events.push(press(Direction::Left));
    pc.pending_events.push(press(Direction::Right));
    pc.update(&mut objects, DT);
    // remaining distance 1000 is smaller than accel * dt = 3600
    let vel = objects[0].as_ref().unwrap().get_velocity();
    assert_eq!(vel.x, 0);
}

#[test]
fn jump_without_contact_is_ignored() {
    let player = movable(v(0, 0), v(0, 0), 3600, 3600);
    let mut objects: Vec<Option<Object>> = vec![Some(player)];
    let mut pc = controller(0);
    pc.pending_events.push(press(Direction::Up));
    pc.update(&mut objects, DT);
    let vel = objects[0].as_ref().unwrap().get_velocity();
    assert_eq!(vel, v(0, 0));
}

#[test]
fn grounded_jump_adds_exactly_the_jump_speed() {
    let mut player = movable(v(0, 0), v(0, 0), 3600, 3600);
    player.touching.push((1, Direction::Down));
    let mut objects: Vec<Option<Object>> =
        vec![Some(player), Some(fixed(v(0, -3600), 3600))];
    let mut pc = controller(0);
    pc.pending_events.push(press(Direction::Up));
    pc.update(&mut objects, DT);
    let vel = objects[0].as_ref().unwrap().get_velocity();
    // (0, 10) from the jump plus the grounded bleed of 15 * dt
    assert_eq!(vel, v(0, 36000 + 900));
}

#[test]
fn wall_kick_pushes_away_from_the_touched_side() {
    let mut player = movable(v(0, 0), v(0, 0), 3600, 3600);
    player.touching.push((1, Direction::Left));
    let mut objects: Vec<Option<Object>> =
        vec![Some(player), Some(fixed(v(-3600, 0), 3600))];
    let mut pc = controller(0);
    pc.pending_events.push(press(Direction::Up));
    pc.update(&mut objects, DT);
    let vel = objects[0].as_ref().unwrap().get_velocity();
    // jump (0, 10) plus a (+10, 0) kick off the left wall; no Down contact
    assert_eq!(vel, v(36000, 36000));
}

#[test]
fn jump_intent_is_not_remembered_across_ticks() {
    // the Up press arrives while airborne; by the next tick, with ground
    // contact, the intent is gone
    let mut player = movable(v(0, 0), v(0, 0), 3600, 3600);
    player.touching.push((1, Direction::Down));
    let mut objects: Vec<Option<Object>> =
        vec![Some(player), Some(fixed(v(0, -3600), 3600))];
    let mut pc = controller(0);
    pc.pending_events.push(press(Direction::Up));
    let mut airborne: Vec<Option<Object>> = vec![Some(movable(v(0, 0), v(0, 0), 3600, 3600))];
    pc.update(&mut airborne, DT);
    assert_eq!(airborne[0].as_ref().unwrap().get_velocity(), v(0, 0));
    pc.update(&mut objects, DT);
    let vel = objects[0].as_ref().unwrap().get_velocity();
    // only the grounded bleed; no jump
    assert_eq!(vel, v(0, 900));
}
