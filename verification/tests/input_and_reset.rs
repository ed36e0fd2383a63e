use rocket_core::events::Event;
use rocket_core::game_state::GameState;
use rocket_core::geometry::{Position, Size};
use rocket_core::input::{ActionSet, InputController, Key, KeyMods};
use rocket_core::models::EntityKind;
use rocket_core::time::TimeController;

fn no_mods() -> KeyMods {
    KeyMods { shift: false, ctrl: false, alt: false }
}

fn empty_actions() -> ActionSet {
    ActionSet { left: false, right: false, up: false, down: false, fire: false }
}

#[test]
fn press_then_release_restores_action_set() {
    let mut ic = InputController::new();
    ic.key_press(Key::Down, no_mods());
    let before = ic.actions();
    ic.key_press(Key::Right, no_mods());
    assert!(ic.actions().right);
    ic.key_release(Key::Right, no_mods());
    assert_eq!(ic.actions(), before);
}

#[test]
fn repeated_press_does_not_toggle_off() {
    let mut ic = InputController::new();
    ic.key_press(Key::Space, no_mods());
    ic.key_press(Key::Space, no_mods());
    assert!(ic.actions().fire);
    ic.key_release(Key::Space, no_mods());
    assert!(!ic.actions().fire);
}

#[test]
fn unrecognized_keys_are_ignored() {
    let mut ic = InputController::new();
    ic.key_press(Key::Other, no_mods());
    assert_eq!(ic.actions(), empty_actions());
    ic.key_release(Key::Other, no_mods());
    assert_eq!(ic.actions(), empty_actions());
}

#[test]
fn modifiers_do_not_affect_mapping() {
    let mut ic = InputController::new();
    ic.key_press(Key::Left, KeyMods { shift: true, ctrl: true, alt: true });
    assert!(ic.actions().left);
    ic.key_release(Key::Left, no_mods());
    assert!(!ic.actions().left);
}

#[test]
fn all_keys_map_to_their_actions() {
    let mut ic = InputController::new();
    ic.key_press(Key::Left, no_mods());
    ic.key_press(Key::Right, no_mods());
    ic.key_press(Key::Up, no_mods());
    ic.key_press(Key::Down, no_mods());
    ic.key_press(Key::Space, no_mods());
    let a = ic.actions();
    assert!(a.left && a.right && a.up && a.down && a.fire);
}

#[test]
fn new_game_state_seeds_player_at_center_and_obstacles_inside() {
    let mut rng = rand::thread_rng();
    let gs = GameState::new(Size::new(1024, 600), &mut rng);
    assert_eq!(gs.score, 0);
    assert_eq!(gs.message, None);
    assert_eq!(gs.entities.len(), 3);
    assert_eq!(gs.entities[0].kind, EntityKind::Player);
    assert_eq!(gs.entities[0].pos, Position { x: 512, y: 300 });
    for k in 1..3 {
        let ob = gs.entities[k];
        assert_eq!(ob.kind, EntityKind::Obstacle);
        assert!(16 <= ob.pos.x && ob.pos.x <= 1024 - 16);
        assert!(16 <= ob.pos.y && ob.pos.y <= 600 - 16);
    }
}

#[test]
fn reset_matches_new_modulo_obstacle_placement() {
    let mut rng = rand::thread_rng();
    let fresh = GameState::new(Size::new(1024, 600), &mut rng);
    let mut gs = GameState::new(Size::new(1024, 600), &mut rng);
    gs.score = 42;
    gs.message = Some("Game Over".to_string());
    gs.entities.truncate(1);
    gs.reset(&mut rng);
    assert_eq!(gs.score, fresh.score);
    assert_eq!(gs.message, fresh.message);
    assert_eq!(gs.entities.len(), fresh.entities.len());
    assert_eq!(gs.entities[0], fresh.entities[0]);
    for k in 1..3 {
        assert_eq!(gs.entities[k].kind, fresh.entities[k].kind);
        assert_eq!(gs.entities[k].radius, fresh.entities[k].radius);
        assert_eq!(gs.entities[k].vel, fresh.entities[k].vel);
    }
}

#[test]
fn reset_time_controller_equals_new_and_reemits_game_start() {
    let mut rng = rand::thread_rng();
    let mut gs = GameState::new(Size::new(1024, 600), &mut rng);
    let mut tc = TimeController::new();
    let mut buf: Vec<Event> = Vec::new();
    tc.update_seconds(100, empty_actions(), &mut gs, &mut buf, &mut rng);
    tc.update_seconds(100, empty_actions(), &mut gs, &mut buf, &mut rng);
    assert_eq!(buf, vec![Event::GameStart]);

    tc.reset();
    assert_eq!(tc, TimeController::new());
    gs.reset(&mut rng);
    buf.clear();
    tc.update_seconds(100, empty_actions(), &mut gs, &mut buf, &mut rng);
    assert_eq!(buf, vec![Event::GameStart]);
}
