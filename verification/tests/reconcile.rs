use arena_shooter::client::GameStateQueue;
use arena_shooter::client::apply_broadcast;
use arena_shooter::client::apply_local_input;
use arena_shooter::client::interpolation_fraction;
use arena_shooter::game::Color;
use arena_shooter::game::Entity;
use arena_shooter::game::EntityRole;
use arena_shooter::game::GameState;
use arena_shooter::game::ProjectileKind;
use arena_shooter::math::Complex;
use arena_shooter::math::Point;
use arena_shooter::math::ROT_ONE;
use arena_shooter::math::Vector;
use arena_shooter::packages::PlayerWeapon;
use arena_shooter::server::character_weapon_from_player_weapon;

fn grey() -> Color {
    Color { a: 255, r: 128, g: 128, b: 128 }
}

fn character(id: u32, player_id: u64, pos: Point) -> Entity {
    Entity {
        id,
        player_id,
        birth_ms: 0,
        pos,
        rot: Complex { r: ROT_ONE, i: 0 },
        color: grey(),
        role: EntityRole::Character {
            weapon: character_weapon_from_player_weapon(PlayerWeapon::BallGun),
        },
        health: 3,
        tail: None,
        activated: false,
    }
}

fn ball(id: u32, player_id: u64, pos: Point, rot: Complex) -> Entity {
    Entity {
        id,
        player_id,
        birth_ms: 0,
        pos,
        rot,
        color: grey(),
        role: EntityRole::Projectile {
            kind: ProjectileKind::Ball {
                life_duration_ms: 60000,
                owner_invincibility_ms: 200,
                velocity: 200,
                health: 1,
                radius: 4,
            },
        },
        health: 1,
        tail: None,
        activated: false,
    }
}

fn world_with(entities: Vec<Entity>) -> GameState {
    let next = entities.iter().map(|e| e.id).max().map_or(0, |m| m + 1);
    let mut gs = GameState::new();
    gs.entities = entities;
    gs.next_entity_id = next;
    gs
}

#[test]
fn stale_broadcast_keeps_the_predicted_local_position() {
    // The prediction holds the local player's entity id 7 at (10, 10). A
    // broadcast with a stale sequence number reports it at (0, 0). After the
    // merge the local entity stays at (10, 10) while other entities take the
    // server's values.
    let mut queue = GameStateQueue::new();
    queue.prediction = world_with(vec![character(7, 42, Point { x: 10, y: 10 })]);

    let broadcast = world_with(vec![
        character(7, 42, Point { x: 0, y: 0 }),
        character(8, 43, Point { x: 5, y: 5 }),
    ]);
    apply_broadcast(&mut queue, false, 1, broadcast, 2, Some(42));

    let local = &queue.prediction.entities[0];
    assert_eq!(local.id, 7);
    assert_eq!(local.pos, Point { x: 10, y: 10 });
    let other = &queue.prediction.entities[1];
    assert_eq!(other.id, 8);
    assert_eq!(other.pos, Point { x: 5, y: 5 });
    assert_eq!(queue.last_received.entities[0].pos, Point { x: 0, y: 0 });
}

#[test]
fn current_broadcast_overwrites_the_prediction() {
    // When the broadcast is up to date the server position wins.
    let mut queue = GameStateQueue::new();
    queue.prediction = world_with(vec![character(7, 42, Point { x: 10, y: 10 })]);
    let broadcast = world_with(vec![character(7, 42, Point { x: 0, y: 0 })]);
    apply_broadcast(&mut queue, false, 5, broadcast, 5, Some(42));
    assert_eq!(queue.prediction.entities[0].pos, Point { x: 0, y: 0 });
}

#[test]
fn killed_player_is_not_spliced_back() {
    let mut queue = GameStateQueue::new();
    queue.prediction = world_with(vec![character(7, 42, Point { x: 10, y: 10 })]);
    let broadcast = world_with(vec![character(7, 42, Point { x: 0, y: 0 })]);
    apply_broadcast(&mut queue, true, 1, broadcast, 2, Some(42));
    assert_eq!(queue.prediction.entities[0].pos, Point { x: 0, y: 0 });
}

#[test]
fn broadcasts_shift_through_the_queue() {
    let mut queue = GameStateQueue::new();
    let first = world_with(vec![character(1, 9, Point { x: 1, y: 1 })]);
    let second = world_with(vec![character(1, 9, Point { x: 2, y: 2 })]);
    apply_broadcast(&mut queue, false, 1, first, 1, Some(9));
    apply_broadcast(&mut queue, false, 2, second, 2, Some(9));
    assert_eq!(queue.penultimate_received.entities[0].pos, Point { x: 1, y: 1 });
    assert_eq!(queue.last_received.entities[0].pos, Point { x: 2, y: 2 });
}

#[test]
fn merge_at_zero_reproduces_the_penultimate_snapshot() {
    let east = Complex { r: ROT_ONE, i: 0 };
    let north = Complex { r: 0, i: -ROT_ONE };
    let a = world_with(vec![ball(3, 1, Point { x: 100, y: 100 }, east)]);
    let b = world_with(vec![
        ball(3, 1, Point { x: 200, y: 220 }, north),
        ball(9, 1, Point { x: 50, y: 60 }, east),
    ]);
    let mut result = b.clone_state();
    GameState::lerp_merge(&mut result, &a, &b, 0, 1000, 999);

    let e3 = &result.entities[result.entities.iter().position(|e| e.id == 3).unwrap()];
    assert_eq!(e3.pos, Point { x: 100, y: 100 });
    assert_eq!(e3.rot, east);
    let e9 = &result.entities[result.entities.iter().position(|e| e.id == 9).unwrap()];
    assert_eq!(e9.pos, Point { x: 50, y: 60 });
}

#[test]
fn merge_at_one_reproduces_the_latest_snapshot() {
    let east = Complex { r: ROT_ONE, i: 0 };
    let north = Complex { r: 0, i: -ROT_ONE };
    let a = world_with(vec![ball(3, 1, Point { x: 100, y: 100 }, east)]);
    let b = world_with(vec![ball(3, 1, Point { x: 200, y: 220 }, north)]);
    let mut result = b.clone_state();
    GameState::lerp_merge(&mut result, &a, &b, 1000, 1000, 999);
    assert_eq!(result.entities[0].pos, Point { x: 200, y: 220 });
    assert_eq!(result.entities[0].rot, north);
}

#[test]
fn merge_halfway_blends_positions() {
    let east = Complex { r: ROT_ONE, i: 0 };
    let a = world_with(vec![ball(3, 1, Point { x: 100, y: 100 }, east)]);
    let b = world_with(vec![ball(3, 1, Point { x: 200, y: 220 }, east)]);
    let mut result = b.clone_state();
    GameState::lerp_merge(&mut result, &a, &b, 500, 1000, 999);
    assert_eq!(result.entities[0].pos, Point { x: 150, y: 160 });
}

#[test]
fn merge_skips_the_local_player() {
    let east = Complex { r: ROT_ONE, i: 0 };
    let a = world_with(vec![ball(3, 77, Point { x: 100, y: 100 }, east)]);
    let b = world_with(vec![ball(3, 77, Point { x: 200, y: 220 }, east)]);
    let mut result = world_with(vec![ball(3, 77, Point { x: 1, y: 2 }, east)]);
    GameState::lerp_merge(&mut result, &a, &b, 500, 1000, 77);
    assert_eq!(result.entities[0].pos, Point { x: 1, y: 2 });
}

#[test]
fn local_input_moves_and_faces_the_mouse() {
    let mut gs = world_with(vec![character(1, 5, Point { x: 100, y: 100 })]);
    // Move east, mouse far east: facing stays east, position advances.
    let changed = apply_local_input(
        &mut gs,
        5,
        Vector { x: 5, y: 0 },
        Point { x: 400, y: 100 },
    );
    assert!(changed);
    assert_eq!(gs.entities[0].pos, Point { x: 105, y: 100 });
    assert_eq!(gs.entities[0].rot, Complex { r: ROT_ONE, i: 0 });
    // No movement, same facing: nothing changed, no package to send.
    let changed = apply_local_input(
        &mut gs,
        5,
        Vector { x: 0, y: 0 },
        Point { x: 400, y: 100 },
    );
    assert!(!changed);
}

#[test]
fn interpolation_fraction_is_clamped() {
    assert_eq!(interpolation_fraction(150, 100, 100), (50, 100));
    assert_eq!(interpolation_fraction(300, 100, 100), (100, 100));
    let (n, d) = interpolation_fraction(100, 100, 0);
    assert_eq!(n, d);
}
