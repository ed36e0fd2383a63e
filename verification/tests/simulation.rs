use rocket_core::collisions::CollisionsController;
use rocket_core::events::Event;
use rocket_core::game_state::GameState;
use rocket_core::geometry::{Position, Size};
use rocket_core::input::ActionSet;
use rocket_core::models::{Entity, EntityKind};
use rocket_core::time::TimeController;

fn arena() -> Size {
    Size::new(1024, 600)
}

fn no_actions() -> ActionSet {
    ActionSet { left: false, right: false, up: false, down: false, fire: false }
}

fn state_with(entities: Vec<Entity>) -> GameState {
    GameState { size: arena(), entities, score: 0, message: None }
}

fn started_controller() -> TimeController {
    // A controller past its first update: no GameStart event is pending.
    let mut tc = TimeController::new();
    tc.started = true;
    tc
}

#[test]
fn move_right_one_second_clamps_at_arena_edge() {
    // Arena 1024x600, player at the center (512, 300), move-right held for
    // 1.0 s at speed 1 unit/ms: the unclamped target 1512 clamps to 1024.
    let mut gs = state_with(vec![Entity::player(Position { x: 512, y: 300 })]);
    let mut tc = started_controller();
    let mut buf: Vec<Event> = Vec::new();
    let mut rng = rand::thread_rng();
    let actions = ActionSet { right: true, ..no_actions() };
    tc.update_seconds(1000, actions, &mut gs, &mut buf, &mut rng);
    assert_eq!(gs.entities[0].pos, Position { x: 1024, y: 300 });
    assert!(gs.entities[0].pos.x <= 1024);
}

#[test]
fn move_right_without_hitting_wall_is_exact() {
    let mut gs = state_with(vec![Entity::player(Position { x: 512, y: 300 })]);
    let mut tc = started_controller();
    let mut buf: Vec<Event> = Vec::new();
    let mut rng = rand::thread_rng();
    let actions = ActionSet { right: true, ..no_actions() };
    tc.update_seconds(300, actions, &mut gs, &mut buf, &mut rng);
    assert_eq!(gs.entities[0].pos, Position { x: 812, y: 300 });
}

#[test]
fn motion_composes_when_no_boundary_is_crossed() {
    // Two updates of 300 ms and 200 ms equal one update of 500 ms while no
    // clamp engages, no projectile despawns and no timer expires.
    let actions = ActionSet { right: true, ..no_actions() };
    let mut rng = rand::thread_rng();

    let mut gs_two = state_with(vec![Entity::player(Position { x: 512, y: 300 })]);
    let mut tc_two = started_controller();
    let mut buf_two: Vec<Event> = Vec::new();
    tc_two.update_seconds(300, actions, &mut gs_two, &mut buf_two, &mut rng);
    tc_two.update_seconds(200, actions, &mut gs_two, &mut buf_two, &mut rng);

    let mut gs_one = state_with(vec![Entity::player(Position { x: 512, y: 300 })]);
    let mut tc_one = started_controller();
    let mut buf_one: Vec<Event> = Vec::new();
    tc_one.update_seconds(500, actions, &mut gs_one, &mut buf_one, &mut rng);

    assert_eq!(gs_two.entities, gs_one.entities);
    assert_eq!(gs_two.entities[0].pos, Position { x: 1012, y: 300 });
}

#[test]
fn opposed_actions_cancel() {
    let mut gs = state_with(vec![Entity::player(Position { x: 512, y: 300 })]);
    let mut tc = started_controller();
    let mut buf: Vec<Event> = Vec::new();
    let mut rng = rand::thread_rng();
    let actions = ActionSet { left: true, right: true, down: true, up: true, fire: false };
    tc.update_seconds(400, actions, &mut gs, &mut buf, &mut rng);
    assert_eq!(gs.entities[0].pos, Position { x: 512, y: 300 });
}

#[test]
fn first_update_appends_exactly_one_game_start() {
    let mut gs = state_with(vec![Entity::player(Position { x: 512, y: 300 })]);
    let mut tc = TimeController::new();
    let mut buf: Vec<Event> = Vec::new();
    let mut rng = rand::thread_rng();
    tc.update_seconds(16, no_actions(), &mut gs, &mut buf, &mut rng);
    assert_eq!(buf, vec![Event::GameStart]);
    tc.update_seconds(16, no_actions(), &mut gs, &mut buf, &mut rng);
    assert_eq!(buf, vec![Event::GameStart]);
}

#[test]
fn spawn_timer_expiry_adds_one_obstacle_inside_arena() {
    let mut gs = state_with(vec![Entity::player(Position { x: 512, y: 300 })]);
    let mut tc = started_controller();
    let mut buf: Vec<Event> = Vec::new();
    let mut rng = rand::thread_rng();
    tc.update_seconds(2500, no_actions(), &mut gs, &mut buf, &mut rng);
    assert_eq!(gs.entities.len(), 2);
    let ob = gs.entities[1];
    assert_eq!(ob.kind, EntityKind::Obstacle);
    assert!(16 <= ob.pos.x && ob.pos.x <= 1024 - 16);
    assert!(16 <= ob.pos.y && ob.pos.y <= 600 - 16);
    assert_eq!(tc.spawn_countdown_ms, 2500);
}

#[test]
fn fire_spawns_projectile_at_player_and_arms_cooldown() {
    let mut gs = state_with(vec![Entity::player(Position { x: 512, y: 300 })]);
    let mut tc = started_controller();
    let mut buf: Vec<Event> = Vec::new();
    let mut rng = rand::thread_rng();
    let actions = ActionSet { fire: true, ..no_actions() };
    tc.update_seconds(16, actions, &mut gs, &mut buf, &mut rng);
    assert_eq!(gs.entities.len(), 2);
    assert_eq!(gs.entities[1].kind, EntityKind::Projectile);
    assert_eq!(gs.entities[1].pos, Position { x: 512, y: 300 });
    assert_eq!(tc.fire_countdown_ms, 250);
    // The cooldown blocks an immediate second shot.
    tc.update_seconds(16, actions, &mut gs, &mut buf, &mut rng);
    assert_eq!(tc.fire_countdown_ms, 250 - 16);
    assert_eq!(gs.entities.len(), 2);
}

#[test]
fn projectile_despawns_at_arena_boundary() {
    let mut gs = state_with(vec![
        Entity::player(Position { x: 512, y: 300 }),
        Entity::projectile(Position { x: 100, y: 4 }),
    ]);
    let mut tc = started_controller();
    let mut buf: Vec<Event> = Vec::new();
    let mut rng = rand::thread_rng();
    // Upward speed 2/ms: after 10 ms the projectile would sit at y = -16.
    tc.update_seconds(10, no_actions(), &mut gs, &mut buf, &mut rng);
    assert_eq!(gs.entities.len(), 1);
    assert_eq!(gs.entities[0].kind, EntityKind::Player);
}

#[test]
fn projectile_in_flight_moves_exactly() {
    let mut gs = state_with(vec![
        Entity::player(Position { x: 512, y: 300 }),
        Entity::projectile(Position { x: 100, y: 500 }),
    ]);
    let mut tc = started_controller();
    let mut buf: Vec<Event> = Vec::new();
    let mut rng = rand::thread_rng();
    tc.update_seconds(100, no_actions(), &mut gs, &mut buf, &mut rng);
    assert_eq!(gs.entities[1].pos, Position { x: 100, y: 300 });
}

#[test]
fn player_obstacle_overlap_is_fatal_and_removes_obstacle() {
    // Player radius 10 at (100, 100), obstacle radius 16 at (110, 100):
    // center distance 10 <= 26, so they overlap.
    let mut gs = state_with(vec![
        Entity::player(Position { x: 100, y: 100 }),
        Entity::obstacle(Position { x: 110, y: 100 }),
    ]);
    let mut tc = started_controller();
    let mut buf: Vec<Event> = Vec::new();
    CollisionsController::handle_collisions(&mut gs, &mut tc, &mut buf);
    assert_eq!(gs.entities.len(), 1);
    assert_eq!(gs.entities[0].kind, EntityKind::Player);
    assert_eq!(buf, vec![Event::Collision]);
    assert_eq!(gs.message.as_deref(), Some("Game Over"));
    assert_eq!(gs.score, 0);
}

#[test]
fn projectile_destroys_obstacle_and_scores() {
    let mut gs = state_with(vec![
        Entity::player(Position { x: 500, y: 500 }),
        Entity::projectile(Position { x: 200, y: 200 }),
        Entity::obstacle(Position { x: 210, y: 200 }),
    ]);
    let mut tc = started_controller();
    let mut buf: Vec<Event> = Vec::new();
    CollisionsController::handle_collisions(&mut gs, &mut tc, &mut buf);
    assert_eq!(gs.entities.len(), 1);
    assert_eq!(gs.entities[0].kind, EntityKind::Player);
    assert_eq!(buf, vec![Event::Collision, Event::ScoreChange]);
    assert_eq!(gs.score, 10);
    assert_eq!(gs.message, None);
}

#[test]
fn one_projectile_resolves_at_most_one_collision() {
    // The projectile overlaps both obstacles; the pass resolves the pair
    // with the earlier obstacle only, and the later obstacle survives.
    let mut gs = state_with(vec![
        Entity::player(Position { x: 500, y: 500 }),
        Entity::projectile(Position { x: 200, y: 200 }),
        Entity::obstacle(Position { x: 210, y: 200 }),
        Entity::obstacle(Position { x: 190, y: 200 }),
    ]);
    let mut tc = started_controller();
    let mut buf: Vec<Event> = Vec::new();
    CollisionsController::handle_collisions(&mut gs, &mut tc, &mut buf);
    assert_eq!(gs.entities.len(), 2);
    assert_eq!(gs.entities[0].kind, EntityKind::Player);
    assert_eq!(gs.entities[1], Entity::obstacle(Position { x: 190, y: 200 }));
    assert_eq!(buf, vec![Event::Collision, Event::ScoreChange]);
    assert_eq!(gs.score, 10);
}

#[test]
fn obstacles_do_not_collide_with_each_other() {
    let mut gs = state_with(vec![
        Entity::player(Position { x: 500, y: 500 }),
        Entity::obstacle(Position { x: 200, y: 200 }),
        Entity::obstacle(Position { x: 210, y: 200 }),
    ]);
    let mut tc = started_controller();
    let mut buf: Vec<Event> = Vec::new();
    CollisionsController::handle_collisions(&mut gs, &mut tc, &mut buf);
    assert_eq!(gs.entities.len(), 3);
    assert!(buf.is_empty());
    assert_eq!(gs.message, None);
}

#[test]
fn collisions_pass_leaves_time_controller_unchanged() {
    let mut gs = state_with(vec![
        Entity::player(Position { x: 100, y: 100 }),
        Entity::obstacle(Position { x: 110, y: 100 }),
    ]);
    let mut tc = started_controller();
    tc.game_time_ms = 12345;
    tc.spawn_countdown_ms = 777;
    let before = tc;
    let mut buf: Vec<Event> = Vec::new();
    CollisionsController::handle_collisions(&mut gs, &mut tc, &mut buf);
    assert_eq!(tc, before);
}

#[test]
fn entities_stay_inside_arena_after_updates() {
    let mut gs = state_with(vec![Entity::player(Position { x: 10, y: 10 })]);
    let mut tc = TimeController::new();
    let mut buf: Vec<Event> = Vec::new();
    let mut rng = rand::thread_rng();
    let actions = ActionSet { left: true, up: true, ..no_actions() };
    for _ in 0..5 {
        tc.update_seconds(700, actions, &mut gs, &mut buf, &mut rng);
        for e in &gs.entities {
            assert!(0 <= e.pos.x && e.pos.x <= 1024);
            assert!(0 <= e.pos.y && e.pos.y <= 600);
        }
    }
    assert_eq!(gs.entities[0].pos, Position { x: 0, y: 0 });
}
