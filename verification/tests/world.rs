use arena_shooter::game::CharacterWeapon;
use arena_shooter::game::Color;
use arena_shooter::game::Entity;
use arena_shooter::game::EntityCreateInfo;
use arena_shooter::game::EntityRole;
use arena_shooter::game::GameState;
use arena_shooter::game::ProjectileKind;
use arena_shooter::math::Complex;
use arena_shooter::math::Point;
use arena_shooter::math::ROT_ONE;
use arena_shooter::packages::PlayerWeapon;
use arena_shooter::server::apply_player_input;
use arena_shooter::server::character_weapon_from_player_weapon;
use arena_shooter::server::handle_fire;
use arena_shooter::math::Vector;

fn grey() -> Color {
    Color { a: 255, r: 128, g: 128, b: 128 }
}

fn ball_kind(health: u8) -> ProjectileKind {
    ProjectileKind::Ball {
        life_duration_ms: 60000,
        owner_invincibility_ms: 200,
        velocity: 200,
        health,
        radius: 4,
    }
}

fn character(id: u32, player_id: u64, pos: Point, health: u8) -> Entity {
    Entity {
        id,
        player_id,
        birth_ms: 0,
        pos,
        rot: Complex { r: ROT_ONE, i: 0 },
        color: grey(),
        role: EntityRole::Character {
            weapon: character_weapon_from_player_weapon(PlayerWeapon::BallGun),
        },
        health,
        tail: None,
        activated: false,
    }
}

fn ball(id: u32, player_id: u64, pos: Point, rot: Complex, health: u8) -> Entity {
    Entity {
        id,
        player_id,
        birth_ms: 0,
        pos,
        rot,
        color: grey(),
        role: EntityRole::Projectile { kind: ball_kind(health) },
        health,
        tail: None,
        activated: false,
    }
}

fn world_with(entities: Vec<Entity>) -> GameState {
    let next = entities.iter().map(|e| e.id).max().map_or(0, |m| m + 1);
    let mut gs = GameState::new();
    gs.entities = entities;
    gs.next_entity_id = next;
    gs
}

#[test]
fn create_assigns_ids_and_health() {
    let mut gs = GameState::new();
    let info = EntityCreateInfo {
        pos: Point { x: 100, y: 100 },
        rot: Complex { r: ROT_ONE, i: 0 },
        color: grey(),
        role: EntityRole::Character {
            weapon: character_weapon_from_player_weapon(PlayerWeapon::BallGun),
        },
        tail: None,
    };
    gs.create(info, 9, 17);
    assert_eq!(gs.entities.len(), 1);
    assert_eq!(gs.entities[0].id, 0);
    assert_eq!(gs.entities[0].health, 3);
    assert_eq!(gs.entities[0].birth_ms, 17);
    assert_eq!(gs.next_entity_id, 1);

    let pinfo = EntityCreateInfo {
        pos: Point { x: 100, y: 100 },
        rot: Complex { r: ROT_ONE, i: 0 },
        color: grey(),
        role: EntityRole::Projectile { kind: ball_kind(5) },
        tail: None,
    };
    gs.create(pinfo, 9, 18);
    assert_eq!(gs.entities[1].id, 1);
    assert_eq!(gs.entities[1].health, 5);
}

#[test]
fn top_edge_reflection_forces_downward_rotation() {
    // A ball heading straight up crosses the top bound (y = 48) within one
    // tick; after the tick its vertical rotation component is non-negative
    // and it sits on the crossing point.
    let up = Complex { r: 0, i: -ROT_ONE };
    let gs0 = world_with(vec![ball(0, 1, Point { x: 400, y: 148 }, up, 1)]);
    let mut gs = gs0;
    gs.proceed(1000, 1000);
    assert_eq!(gs.entities.len(), 1);
    assert!(gs.entities[0].rot.i >= 0);
    assert_eq!(gs.entities[0].rot, Complex { r: 0, i: ROT_ONE });
    assert_eq!(gs.entities[0].pos, Point { x: 400, y: 48 });
}

#[test]
fn mutual_kill_queues_both_exactly_once() {
    // Character and ball both at one health, overlapping: one damage event,
    // both queued, and the queue holds each id once even when damage
    // resolution runs again before the sweep.
    let c = character(0, 1, Point { x: 100, y: 100 }, 1);
    let b = ball(1, 2, Point { x: 104, y: 100 }, Complex { r: ROT_ONE, i: 0 }, 1);
    let mut gs = world_with(vec![c, b]);

    let spawns = gs.resolve_damage(1000, 33);
    assert!(spawns.is_empty());
    assert_eq!(gs.kills, vec![0, 1]);
    assert_eq!(gs.entities[0].health, 0);
    assert_eq!(gs.entities[1].health, 0);

    let spawns = gs.resolve_damage(1000, 33);
    assert!(spawns.is_empty());
    assert_eq!(gs.kills, vec![0, 1]);

    gs.sweep_kills();
    assert_eq!(gs.entities.len(), 1);
    assert!(matches!(gs.entities[0].role, EntityRole::Character { .. }));
    assert_eq!(gs.kills, vec![0]);

    assert!(gs.account_kill(1));
    assert!(gs.entities.is_empty());
    assert!(gs.kills.is_empty());
    assert!(!gs.account_kill(1));
}

#[test]
fn owner_is_invincible_during_the_window() {
    // Same player, projectile younger than the invincibility window: no hit.
    let c = character(0, 1, Point { x: 100, y: 100 }, 1);
    let b = ball(1, 1, Point { x: 104, y: 100 }, Complex { r: ROT_ONE, i: 0 }, 1);
    let mut gs = world_with(vec![c, b]);
    gs.resolve_damage(100, 33);
    assert!(gs.kills.is_empty());
    assert_eq!(gs.entities[0].health, 1);
}

#[test]
fn expired_projectiles_leave_the_world() {
    let b = ball(0, 1, Point { x: 100, y: 100 }, Complex { r: ROT_ONE, i: 0 }, 1);
    let mut gs = world_with(vec![b]);
    gs.proceed(70000, 33);
    assert!(gs.entities.is_empty());
}

#[test]
fn register_and_account_kill_cooperate() {
    let c = character(4, 7, Point { x: 100, y: 100 }, 3);
    let mut gs = world_with(vec![c]);
    gs.register_kill(4);
    assert_eq!(gs.kills, vec![4]);
    assert!(!gs.account_kill(8));
    assert!(gs.account_kill(7));
    assert!(gs.entities.is_empty());
    assert!(gs.kills.is_empty());
}

#[test]
fn weapon_table_matches_configuration() {
    match character_weapon_from_player_weapon(PlayerWeapon::BallGun) {
        CharacterWeapon::BallGun { life_duration_ms, velocity, projectile_health, radius, .. } => {
            assert_eq!(life_duration_ms, 60000);
            assert_eq!(velocity, 200);
            assert_eq!(projectile_health, 1);
            assert_eq!(radius, 4);
        }
        _ => panic!("ball gun expected"),
    }
    match character_weapon_from_player_weapon(PlayerWeapon::RayGun) {
        CharacterWeapon::RayGun { velocity, projectile_health, tail_freeze_ms, .. } => {
            assert_eq!(velocity, 2000);
            assert_eq!(projectile_health, 16);
            assert_eq!(tail_freeze_ms, 1000);
        }
        _ => panic!("ray gun expected"),
    }
    match character_weapon_from_player_weapon(PlayerWeapon::MineGun) {
        CharacterWeapon::MineGun { debris_count, debris_kind, .. } => {
            assert_eq!(debris_count, 6);
            match *debris_kind {
                ProjectileKind::Mine { debris_count, .. } => assert_eq!(debris_count, 12),
                _ => panic!("nested mine expected"),
            }
        }
        _ => panic!("mine gun expected"),
    }
}

#[test]
fn weapon_wheel_rotations_are_inverse() {
    for w in [
        PlayerWeapon::BallGun,
        PlayerWeapon::PulseGun,
        PlayerWeapon::RayGun,
        PlayerWeapon::Shield,
        PlayerWeapon::MineGun,
    ] {
        assert_eq!(w.rotated_left().rotated_right(), w);
        assert_eq!(w.rotated_right().rotated_left(), w);
    }
}

#[test]
fn firing_creates_a_projectile_at_the_character() {
    let c = character(0, 3, Point { x: 200, y: 200 }, 3);
    let mut gs = world_with(vec![c]);
    // Cadence not yet elapsed: nothing happens.
    assert!(!handle_fire(&mut gs, 3, 50, 0, 0));
    assert_eq!(gs.entities.len(), 1);
    // Cadence elapsed: one ball appears.
    assert!(handle_fire(&mut gs, 3, 500, 0, 0));
    assert_eq!(gs.entities.len(), 2);
    assert_eq!(gs.entities[1].pos, Point { x: 200, y: 200 });
    assert!(matches!(
        gs.entities[1].role,
        EntityRole::Projectile { kind: ProjectileKind::Ball { .. } }
    ));
    assert_eq!(gs.entities[1].health, 1);
    // An unknown player fires nothing.
    assert!(!handle_fire(&mut gs, 99, 1000, 0, 0));
}

#[test]
fn input_moves_and_walls_push_back() {
    let c = character(0, 5, Point { x: 100, y: 100 }, 3);
    let mut gs = world_with(vec![c]);
    let east = Complex { r: ROT_ONE, i: 0 };
    assert!(apply_player_input(&mut gs, 5, Vector { x: 5, y: 7 }, east));
    assert_eq!(gs.entities[0].pos, Point { x: 105, y: 107 });
    assert_eq!(gs.entities[0].rot, east);

    // Walk into the left wall (x = 32): the box straddles the wall line and
    // is pushed off it by the minimum translation.
    let mut gs = world_with(vec![character(0, 5, Point { x: 35, y: 100 }, 3)]);
    assert!(apply_player_input(&mut gs, 5, Vector { x: -10, y: 0 }, east));
    assert_eq!(gs.entities[0].pos.y, 100);
    assert_eq!(gs.entities[0].pos, Point { x: 24, y: 100 });

    assert!(!apply_player_input(&mut gs, 6, Vector { x: 1, y: 0 }, east));
}

#[test]
fn mine_detonation_spawns_debris() {
    // An activated mine with a character inside the explosion radius spawns
    // its debris ring and condemns itself.
    let c = character(0, 1, Point { x: 100, y: 100 }, 3);
    let mut mine = ball(1, 2, Point { x: 110, y: 100 }, Complex { r: ROT_ONE, i: 0 }, 0);
    mine.role = EntityRole::Projectile {
        kind: ProjectileKind::Mine {
            life_duration_ms: 32000,
            owner_invincibility_ms: 0,
            activation_ms: 0,
            velocity: 0,
            acceleration: -100,
            radius: 6,
            detection_radius: 200,
            explosion_radius: 100,
            debris_kind: Box::new(ball_kind(1)),
            debris_count: 4,
        },
    };
    mine.activated = true;
    mine.health = 0;
    let mut gs = world_with(vec![c, mine]);
    let spawns = gs.resolve_damage(1000, 33);
    assert_eq!(spawns.len(), 4);
    assert_eq!(gs.kills, vec![1]);
    for (info, pid) in &spawns {
        assert_eq!(*pid, 2);
        assert_eq!(info.pos, Point { x: 110, y: 100 });
    }
}
