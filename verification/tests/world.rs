//! Tests of the world tick: gravity, mass-weighted collision response,
//! contact refresh and the end-to-end settling of the initial scene.

use platformer_core::Controller;
use platformer_core::Direction;
use platformer_core::Event;
use platformer_core::GameState;
use platformer_core::KeyState;
use platformer_core::KeyStates;
use platformer_core::Object;
use platformer_core::ObjectType;
use platformer_core::PlayerController;
use platformer_core::Vec2;

const DT: i64 = 60; // 1/60 s

fn v(x: i64, y: i64) -> Vec2 {
    Vec2 { x, y }
}

fn movable(pos: Vec2, size: Vec2, vel: Vec2, mass: i64) -> Object {
    Object::new(ObjectType::Movable { velocity: vel, mass }, pos, size, 3600)
}

fn fixed(pos: Vec2, size: Vec2) -> Object {
    Object::new(ObjectType::Static, pos, size, 3600)
}

fn bare_world(objects: Vec<Option<Object>>) -> GameState {
    GameState { controllers: vec![], objects, view_object: 0 }
}

fn velocity_of(gs: &GameState, handle: usize) -> Vec2 {
    gs.objects[handle].as_ref().unwrap().get_velocity()
}

fn pos_of(gs: &GameState, handle: usize) -> Vec2 {
    gs.objects[handle].as_ref().unwrap().get_pos()
}

fn touching_of(gs: &GameState, handle: usize) -> Vec<(usize, Direction)> {
    gs.objects[handle].as_ref().unwrap().get_touching().clone()
}

#[test]
fn gravity_integrates_movable_bodies_only() {
    let mut gs = bare_world(vec![
        Some(movable(v(0, 0), v(3600, 3600), v(0, 0), 3600)),
        Some(fixed(v(-90000, -90000), v(7200, 7200))),
    ]);
    gs.update(DT);
    // velocity loses 15 * dt, position moves by the new velocity * dt
    assert_eq!(velocity_of(&gs, 0), v(0, -900));
    assert_eq!(pos_of(&gs, 0), v(0, -15));
    assert_eq!(pos_of(&gs, 1), v(-90000, -90000));
}

#[test]
fn mass_weighted_push_splits_by_mass_ratio() {
    // masses 1 and 3 overlapping on x by a quarter unit: the correction
    // (-900, 0) is split as ratio = m1/(m1+m2) = 1/4 for body 1
    let mut gs = bare_world(vec![
        Some(movable(v(0, 0), v(3600, 3600), v(0, 0), 3600)),
        Some(movable(v(2700, 0), v(3600, 3600), v(0, 0), 10800)),
    ]);
    gs.handle_collision(0, 1);
    assert_eq!(pos_of(&gs, 0), v(-225, 0));
    assert_eq!(pos_of(&gs, 1), v(3375, 0));
    assert_eq!(touching_of(&gs, 0), vec![(1, Direction::Right)]);
    assert_eq!(touching_of(&gs, 1), vec![(0, Direction::Left)]);
    // the corrected axis had no velocity to zero and no relative motion
    assert_eq!(velocity_of(&gs, 0), v(0, 0));
    assert_eq!(velocity_of(&gs, 1), v(0, 0));
}

#[test]
fn only_pushable_body_absorbs_the_whole_correction() {
    let mut gs = bare_world(vec![
        Some(movable(v(0, -1800), v(3600, 3600), v(0, -7200), 3600)),
        Some(fixed(v(-3600, -4500), v(10800, 3600))),
    ]);
    // the movable box has sunk 900 into the static one
    gs.handle_collision(0, 1);
    assert_eq!(pos_of(&gs, 0), v(0, -900));
    assert_eq!(pos_of(&gs, 1), v(-3600, -4500));
    // the fall is stopped: the resolved axis's velocity is zeroed
    assert_eq!(velocity_of(&gs, 0), v(0, 0));
    assert_eq!(touching_of(&gs, 0), vec![(1, Direction::Down)]);
}

#[test]
fn self_and_stale_pairs_are_skipped() {
    let mut gs = bare_world(vec![
        Some(movable(v(0, 0), v(3600, 3600), v(0, 0), 3600)),
        None,
    ]);
    gs.handle_collision(0, 0);
    gs.handle_collision(0, 1);
    gs.handle_collision(0, 7);
    assert_eq!(pos_of(&gs, 0), v(0, 0));
    assert!(touching_of(&gs, 0).is_empty());
}

#[test]
fn refresh_is_idempotent_without_position_change() {
    let mut player = movable(v(-1800, 0), v(3600, 3600), v(0, 0), 3600);
    player.touching.push((1, Direction::Down));
    player.touching.push((7, Direction::Left)); // stale
    let mut ground = fixed(v(-36000, -36000), v(72000, 36000));
    ground.touching.push((0, Direction::Up));
    let mut gs = bare_world(vec![Some(player), Some(ground)]);
    gs.check_whats_still_touching();
    let first0 = touching_of(&gs, 0);
    let first1 = touching_of(&gs, 1);
    // the stale entry is gone, the real contact kept
    assert_eq!(first0, vec![(1, Direction::Down)]);
    assert_eq!(first1, vec![(0, Direction::Up)]);
    gs.check_whats_still_touching();
    assert_eq!(touching_of(&gs, 0), first0);
    assert_eq!(touching_of(&gs, 1), first1);
}

#[test]
fn resting_box_neither_drifts_nor_loses_contact() {
    // a movable box exactly atop a static one, x-centres aligned
    let mut player = movable(v(-1800, 0), v(3600, 3600), v(0, 0), 3600);
    player.touching.push((1, Direction::Down));
    let mut ground = fixed(v(-36000, -36000), v(72000, 36000));
    ground.touching.push((0, Direction::Up));
    let mut gs = bare_world(vec![Some(player), Some(ground)]);
    for _ in 0..100 {
        gs.update(DT);
        assert_eq!(pos_of(&gs, 0), v(-1800, 0));
        assert_eq!(velocity_of(&gs, 0), v(0, 0));
        assert_eq!(touching_of(&gs, 0), vec![(1, Direction::Down)]);
        assert_eq!(touching_of(&gs, 1), vec![(0, Direction::Up)]);
    }
}

#[test]
fn empty_and_hollow_worlds_tick_quietly() {
    let mut gs = bare_world(vec![]);
    gs.update(DT);
    assert!(gs.objects.is_empty());
    let mut gs = bare_world(vec![None, None]);
    gs.update(DT);
    assert!(gs.objects[0].is_none());
    assert!(gs.objects[1].is_none());
}

#[test]
fn extreme_coordinates_saturate_instead_of_overflowing() {
    let huge = i64::MAX / 2;
    let mut gs = bare_world(vec![
        Some(movable(v(huge, huge), v(huge, huge), v(huge, -huge), huge)),
        Some(movable(v(huge, huge), v(huge, huge), v(-huge, huge), huge)),
    ]);
    // coincident giant boxes: everything clips, nothing panics
    gs.update(DT);
    assert!(gs.objects[0].is_some());
    assert!(gs.objects[1].is_some());
}

#[test]
fn zero_combined_friction_transfers_no_velocity() {
    // both surfaces frictionless: the relative-velocity correction divides
    // by zero, which the arithmetic defines as zero — the slide goes on
    let player = Object::new(
        ObjectType::Movable { velocity: v(7200, -7200), mass: 3600 },
        v(0, -1800),
        v(3600, 3600),
        0,
    );
    let ground = Object::new(ObjectType::Static, v(-3600, -4500), v(10800, 3600), 0);
    let mut gs = bare_world(vec![Some(player), Some(ground)]);
    gs.handle_collision(0, 1);
    // y (the resolved axis) is zeroed, x untouched by friction transfer
    assert_eq!(velocity_of(&gs, 0), v(7200, 0));
    assert_eq!(pos_of(&gs, 0), v(0, -900));
}

#[test]
fn repeated_contact_replaces_the_recorded_side() {
    // a second resolution against the same handle overwrites the stored
    // side instead of adding a duplicate key
    let mut gs = bare_world(vec![
        Some(movable(v(0, -1800), v(3600, 3600), v(0, 0), 3600)),
        Some(fixed(v(-3600, -4500), v(10800, 3600))),
    ]);
    gs.objects[0].as_mut().unwrap().touching.push((1, Direction::Left));
    gs.handle_collision(0, 1);
    assert_eq!(touching_of(&gs, 0), vec![(1, Direction::Down)]);
}

#[test]
fn initial_scene_matches_the_design() {
    let gs = GameState::new();
    assert_eq!(gs.view_object, 0);
    assert_eq!(gs.objects.len(), 4);
    assert_eq!(pos_of(&gs, 0), v(-1800, 1800));
    assert_eq!(gs.objects[0].as_ref().unwrap().get_size(), v(3600, 3600));
    assert_eq!(pos_of(&gs, 1), v(-90000, -90000));
    assert_eq!(gs.objects[1].as_ref().unwrap().get_size(), v(180000, 27000));
    assert_eq!(pos_of(&gs, 2), v(63000, -90000));
    assert_eq!(pos_of(&gs, 3), v(-54000, -70200));
    assert_eq!(velocity_of(&gs, 3), v(-14400, 0));
    assert_eq!(gs.objects[3].as_ref().unwrap().get_surface_friction(), 1800);
    assert_eq!(gs.controllers.len(), 1);
}

#[test]
fn submitted_events_reach_every_player_controller() {
    let pc = |n: usize| {
        Controller::PlayerController(PlayerController {
            pending_events: vec![],
            controlled_object: n,
            key_states: KeyStates::all_released(),
            last_touch_velocity: v(0, 0),
            top_speed: 36000,
            acceleration_speed: 216000,
        })
    };
    let mut gs = GameState { controllers: vec![pc(0), pc(1)], objects: vec![], view_object: 0 };
    let ev = Event::Keyboard { button: Direction::Up, state: KeyState::Pressed };
    gs.submit_player_event(ev);
    for c in &gs.controllers {
        let Controller::PlayerController(p) = c;
        assert_eq!(p.pending_events.len(), 1);
        assert_eq!(p.pending_events[0], ev);
    }
}

#[test]
fn jump_while_airborne_changes_nothing_on_the_jump_axis() {
    let mut gs = GameState::new();
    gs.submit_player_event(Event::Keyboard {
        button: Direction::Up,
        state: KeyState::Pressed,
    });
    gs.update(DT);
    // the tick only applied gravity: no jump impulse
    assert_eq!(velocity_of(&gs, 0), v(0, -900));
    assert_eq!(pos_of(&gs, 0), v(-1800, 1785));
    assert!(touching_of(&gs, 0).is_empty());
}

#[test]
fn player_settles_on_the_floor_with_a_down_contact() {
    let mut gs = GameState::new();
    for _ in 0..200 {
        gs.update(DT);
    }
    // the floor's top edge is at -17.5 units
    let settled_pos = pos_of(&gs, 0);
    assert_eq!(settled_pos, v(-1800, -63000));
    assert_eq!(velocity_of(&gs, 0), v(0, 0));
    assert_eq!(touching_of(&gs, 0), vec![(1, Direction::Down)]);
    // and it stays settled: sixty more ticks change nothing
    for _ in 0..60 {
        gs.update(DT);
        assert_eq!(pos_of(&gs, 0), settled_pos);
        assert_eq!(velocity_of(&gs, 0), v(0, 0));
        assert_eq!(touching_of(&gs, 0), vec![(1, Direction::Down)]);
    }
}

#[test]
fn grounded_jump_launches_the_player() {
    let mut gs = GameState::new();
    for _ in 0..200 {
        gs.update(DT);
    }
    gs.submit_player_event(Event::Keyboard {
        button: Direction::Up,
        state: KeyState::Pressed,
    });
    gs.update(DT);
    // jump 10 + bleed 15*dt - gravity 15*dt leaves exactly 10 units/s up
    assert_eq!(velocity_of(&gs, 0), v(0, 36000));
    assert_eq!(pos_of(&gs, 0), v(-1800, -62400));
    assert!(touching_of(&gs, 0).is_empty());
}
