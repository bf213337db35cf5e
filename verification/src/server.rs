use vstd::prelude::*;

use crate::collide::ExitVector;
use crate::collide::spec_axis_den;
use crate::collide::spec_axis_exit_num;
use crate::collide::spec_axis_at;
use crate::collide::spec_best_axis;
use crate::collide::spec_exit_apply;
use crate::collide::spec_shapes_collide;
use crate::game::CharacterWeapon;
use crate::game::CreateInfoV;
use crate::game::EntityCreateInfo;
use crate::game::EntityRole;
use crate::game::EntityTail;
use crate::game::EntityV;
use crate::game::GameState;
use crate::game::GameStateV;
use crate::game::ProjectileKind;
use crate::game::TailV;
use crate::game::lemma_char_idx;
use crate::game::spec_add_clamped;
use crate::game::spec_char_idx;
use crate::game::spec_created_entity;
use crate::game::spec_vertices;
use crate::game::weapon_wf;
use crate::math::Complex;
use crate::math::Point;
use crate::math::Rect;
use crate::math::Segment;
use crate::math::Vector;
use crate::math::point_in_range;
use crate::math::rect_wf;
use crate::math::rot_in_range;
use crate::math::segment_in_range;
use crate::math::spec_from_turn_fraction;
use crate::math::spec_rect_edges;
use crate::math::spec_segments_chain;
use crate::math::spec_segments_ringe;
use crate::tick::spec_age_ms;
use crate::tick::age_ms;
use crate::tick::spec_create_all;

verus! {

/// The full configuration of the weapon a player selected.
pub open spec fn spec_weapon_of(w: crate::packages::PlayerWeapon) -> CharacterWeapon {
    match w {
        crate::packages::PlayerWeapon::BallGun => CharacterWeapon::BallGun {
            life_duration_ms: 60000,
            owner_invincibility_ms: 200,
            fire_interval_ms: 100,
            velocity: 200,
            projectile_health: 1,
            radius: 4,
        },
        crate::packages::PlayerWeapon::PulseGun => CharacterWeapon::RayGun {
            life_duration_ms: 4000,
            owner_invincibility_ms: 500,
            tail_freeze_ms: 100,
            fire_interval_ms: 1000,
            velocity: 1000,
            projectile_health: 1,
        },
        crate::packages::PlayerWeapon::RayGun => CharacterWeapon::RayGun {
            life_duration_ms: 1000,
            owner_invincibility_ms: 500,
            tail_freeze_ms: 1000,
            fire_interval_ms: 2000,
            velocity: 2000,
            projectile_health: 16,
        },
        crate::packages::PlayerWeapon::Shield => CharacterWeapon::Shield {
            shield: crate::game::Shield { width: 48, dst_from_character: 32 },
            self_destruct_timeout_ms: 2000,
        },
        crate::packages::PlayerWeapon::MineGun => CharacterWeapon::MineGun {
            fire_interval_ms: 8000,
            life_duration_ms: 32000,
            owner_invincibility_ms: 1000000,
            activation_ms: 2000,
            start_velocity: 500,
            acceleration: (-100) as i64,
            radius: 6,
            detection_radius: 200,
            explosion_radius: 100,
            debris_kind: Box::new(
                ProjectileKind::Mine {
                    life_duration_ms: 16000,
                    owner_invincibility_ms: 2000,
                    activation_ms: 1000,
                    velocity: 500,
                    acceleration: (-100) as i64,
                    radius: 4,
                    detection_radius: 100,
                    explosion_radius: 50,
                    debris_kind: Box::new(
                        ProjectileKind::Ray {
                            life_duration_ms: 4000,
                            owner_invincibility_ms: 500,
                            tail_freeze_ms: 100,
                            velocity: 200,
                            health: 1,
                        },
                    ),
                    debris_count: 12,
                },
            ),
            debris_count: 6,
        },
    }
}

/// Map a player's weapon selection to the weapon configuration the server
/// arms the character with.
pub fn character_weapon_from_player_weapon(weapon: crate::packages::PlayerWeapon) -> (r:
    CharacterWeapon)
    ensures
        r == spec_weapon_of(weapon),
        weapon_wf(r),
{
    match weapon {
        crate::packages::PlayerWeapon::BallGun => CharacterWeapon::BallGun {
            life_duration_ms: 60000,
            owner_invincibility_ms: 200,
            fire_interval_ms: 100,
            velocity: 200,
            projectile_health: 1,
            radius: 4,
        },
        crate::packages::PlayerWeapon::PulseGun => CharacterWeapon::RayGun {
            life_duration_ms: 4000,
            owner_invincibility_ms: 500,
            tail_freeze_ms: 100,
            fire_interval_ms: 1000,
            velocity: 1000,
            projectile_health: 1,
        },
        crate::packages::PlayerWeapon::RayGun => CharacterWeapon::RayGun {
            life_duration_ms: 1000,
            owner_invincibility_ms: 500,
            tail_freeze_ms: 1000,
            fire_interval_ms: 2000,
            velocity: 2000,
            projectile_health: 16,
        },
        crate::packages::PlayerWeapon::Shield => CharacterWeapon::Shield {
            shield: crate::game::Shield { width: 48, dst_from_character: 32 },
            self_destruct_timeout_ms: 2000,
        },
        crate::packages::PlayerWeapon::MineGun => {
            let inner_ray = ProjectileKind::Ray {
                life_duration_ms: 4000,
                owner_invincibility_ms: 500,
                tail_freeze_ms: 100,
                velocity: 200,
                health: 1,
            };
            proof {
                assert(crate::game::kind_wf(inner_ray));
            }
            let inner_mine = ProjectileKind::Mine {
                life_duration_ms: 16000,
                owner_invincibility_ms: 2000,
                activation_ms: 1000,
                velocity: 500,
                acceleration: -100,
                radius: 4,
                detection_radius: 100,
                explosion_radius: 50,
                debris_kind: Box::new(inner_ray),
                debris_count: 12,
            };
            proof {
                assert(crate::game::kind_wf(inner_mine));
            }
            CharacterWeapon::MineGun {
                fire_interval_ms: 8000,
                life_duration_ms: 32000,
                owner_invincibility_ms: 1000000,
                activation_ms: 2000,
                start_velocity: 500,
                acceleration: -100,
                radius: 6,
                detection_radius: 200,
                explosion_radius: 100,
                debris_kind: Box::new(inner_mine),
                debris_count: 6,
            }
        },
    }
}

/// The ring of projectiles a self-destructing shield bursts into: one ball
/// every thirty-second of a turn, the lifetime growing with the index.
pub open spec fn spec_burst_infos(c: EntityV) -> Seq<(CreateInfoV, u64)> {
    Seq::new(
        32,
        |i: int|
            (
                CreateInfoV {
                    pos: c.pos,
                    rot: spec_from_turn_fraction(i, 32),
                    color: c.color,
                    role: EntityRole::Projectile {
                        kind: ProjectileKind::Ball {
                            life_duration_ms: (i * 1000) as u64,
                            owner_invincibility_ms: 1000000,
                            velocity: 500,
                            health: 1,
                            radius: 4,
                        },
                    },
                    tail: Option::None,
                },
                c.player_id,
            ),
    )
}

/// What firing does to the world: if the player has a character and its
/// weapon's cadence allows, one projectile of the configured kind appears at
/// the character; a shield held past its timeout instead condemns its bearer
/// and bursts into a ring of balls. The second component says whether a
/// cadenced projectile was fired (so the caller resets its fire timer).
pub open spec fn spec_handle_fire(
    g: GameStateV,
    player_id: u64,
    now_ms: u64,
    last_projectile_ms: u64,
    left_mouse_pressed_ms: u64,
) -> (GameStateV, bool) {
    let ci = spec_char_idx(g.entities, player_id);
    if ci < 0 {
        (g, false)
    } else {
        let c = g.entities[ci];
        match c.role {
            EntityRole::Character { weapon } => match weapon {
                CharacterWeapon::BallGun {
                    life_duration_ms,
                    owner_invincibility_ms,
                    fire_interval_ms,
                    velocity,
                    projectile_health,
                    radius,
                } => {
                    if spec_age_ms(now_ms, last_projectile_ms) > fire_interval_ms {
                        let info = CreateInfoV {
                            pos: c.pos,
                            rot: c.rot,
                            color: c.color,
                            role: EntityRole::Projectile {
                                kind: ProjectileKind::Ball {
                                    life_duration_ms,
                                    owner_invincibility_ms,
                                    velocity,
                                    health: projectile_health,
                                    radius,
                                },
                            },
                            tail: Option::None,
                        };
                        (
                            GameStateV {
                                entities: g.entities.push(
                                    spec_created_entity(
                                        info,
                                        player_id,
                                        g.next_entity_id,
                                        now_ms,
                                    ),
                                ),
                                world_bounds: g.world_bounds,
                                next_entity_id: (g.next_entity_id + 1) as u32,
                                kills: g.kills,
                            },
                            true,
                        )
                    } else {
                        (g, false)
                    }
                },
                CharacterWeapon::RayGun {
                    life_duration_ms,
                    owner_invincibility_ms,
                    tail_freeze_ms,
                    fire_interval_ms,
                    velocity,
                    projectile_health,
                } => {
                    if spec_age_ms(now_ms, last_projectile_ms) > fire_interval_ms {
                        let info = CreateInfoV {
                            pos: c.pos,
                            rot: c.rot,
                            color: c.color,
                            role: EntityRole::Projectile {
                                kind: ProjectileKind::Ray {
                                    life_duration_ms,
                                    owner_invincibility_ms,
                                    tail_freeze_ms,
                                    velocity,
                                    health: projectile_health,
                                },
                            },
                            tail: Option::Some(
                                TailV {
                                    end: c.pos,
                                    rotation: c.rot,
                                    reflection_points: Seq::empty(),
                                },
                            ),
                        };
                        (
                            GameStateV {
                                entities: g.entities.push(
                                    spec_created_entity(
                                        info,
                                        player_id,
                                        g.next_entity_id,
                                        now_ms,
                                    ),
                                ),
                                world_bounds: g.world_bounds,
                                next_entity_id: (g.next_entity_id + 1) as u32,
                                kills: g.kills,
                            },
                            true,
                        )
                    } else {
                        (g, false)
                    }
                },
                CharacterWeapon::Shield { self_destruct_timeout_ms, .. } => {
                    if spec_age_ms(now_ms, left_mouse_pressed_ms) > self_destruct_timeout_ms {
                        let ca = spec_create_all(
                            g.entities,
                            g.next_entity_id,
                            spec_burst_infos(c),
                            now_ms,
                        );
                        (
                            GameStateV {
                                entities: ca.0,
                                world_bounds: g.world_bounds,
                                next_entity_id: ca.1,
                                kills: g.kills.push(c.id),
                            },
                            false,
                        )
                    } else {
                        (g, false)
                    }
                },
                CharacterWeapon::MineGun {
                    fire_interval_ms,
                    life_duration_ms,
                    owner_invincibility_ms,
                    activation_ms,
                    start_velocity,
                    acceleration,
                    radius,
                    detection_radius,
                    explosion_radius,
                    debris_kind,
                    debris_count,
                } => {
                    if spec_age_ms(now_ms, last_projectile_ms) > fire_interval_ms {
                        let info = CreateInfoV {
                            pos: c.pos,
                            rot: c.rot,
                            color: c.color,
                            role: EntityRole::Projectile {
                                kind: ProjectileKind::Mine {
                                    life_duration_ms,
                                    owner_invincibility_ms,
                                    activation_ms,
                                    velocity: start_velocity,
                                    acceleration,
                                    radius,
                                    detection_radius,
                                    explosion_radius,
                                    debris_kind,
                                    debris_count,
                                },
                            },
                            tail: Option::None,
                        };
                        (
                            GameStateV {
                                entities: g.entities.push(
                                    spec_created_entity(
                                        info,
                                        player_id,
                                        g.next_entity_id,
                                        now_ms,
                                    ),
                                ),
                                world_bounds: g.world_bounds,
                                next_entity_id: (g.next_entity_id + 1) as u32,
                                kills: g.kills,
                            },
                            true,
                        )
                    } else {
                        (g, false)
                    }
                },
            },
            EntityRole::Projectile { .. } => (g, false),
        }
    }
}

/// Whether a fire request is free of the one fatal condition: a shield past
/// its timeout may not burst while its bearer already stands condemned.
pub open spec fn spec_fire_allowed(
    g: GameStateV,
    player_id: u64,
    now_ms: u64,
    left_mouse_pressed_ms: u64,
) -> bool {
    let ci = spec_char_idx(g.entities, player_id);
    ci >= 0 ==> match g.entities[ci].role {
        EntityRole::Character {
            weapon: CharacterWeapon::Shield { self_destruct_timeout_ms, .. },
        } => spec_age_ms(now_ms, left_mouse_pressed_ms) > self_destruct_timeout_ms
            ==> !g.kills.contains(g.entities[ci].id),
        _ => true,
    }
}

/// Server-side fire handling while the fire button is held.
pub fn handle_fire(
    gs: &mut GameState,
    player_id: u64,
    now_ms: u64,
    last_projectile_ms: u64,
    left_mouse_pressed_ms: u64,
) -> (fired: bool)
    requires
        old(gs).wf(),
        old(gs).next_entity_id + 32 <= u32::MAX,
        spec_fire_allowed(old(gs).deep_view(), player_id, now_ms, left_mouse_pressed_ms),
    ensures
        ({
            let r = spec_handle_fire(
                old(gs).deep_view(),
                player_id,
                now_ms,
                last_projectile_ms,
                left_mouse_pressed_ms,
            );
            &&& final(gs).deep_view() == r.0
            &&& fired == r.1
        }),
        final(gs).wf(),
{
    let ghost g0 = gs.deep_view();
    let found = gs.find_character_by_player_id(player_id);
    proof {
        lemma_char_idx(g0.entities, player_id);
    }
    match found {
        None => {
            proof {
                assert(spec_char_idx(g0.entities, player_id) < 0);
            }
            false
        },
        Some(i) => {
            proof {
                assert(spec_char_idx(g0.entities, player_id) == i as int);
            }
            let c_pos: Point = gs.entities[i].pos;
            let c_rot: Complex = gs.entities[i].rot;
            let c_color: crate::game::Color = gs.entities[i].color;
            let c_id: u32 = gs.entities[i].id;
            let mut fire_interval: u64 = 0;
            let mut timeout: u64 = 0;
            let mut arm: u8 = 0;
            let mut info: Option<EntityCreateInfo> = None;
            match &gs.entities[i].role {
                EntityRole::Character { weapon } => match weapon {
                    CharacterWeapon::BallGun {
                        life_duration_ms,
                        owner_invincibility_ms,
                        fire_interval_ms,
                        velocity,
                        projectile_health,
                        radius,
                    } => {
                        fire_interval = *fire_interval_ms;
                        arm = 1;
                        info = Some(
                            EntityCreateInfo {
                                pos: c_pos,
                                rot: c_rot,
                                color: c_color,
                                role: EntityRole::Projectile {
                                    kind: ProjectileKind::Ball {
                                        life_duration_ms: *life_duration_ms,
                                        owner_invincibility_ms: *owner_invincibility_ms,
                                        velocity: *velocity,
                                        health: *projectile_health,
                                        radius: *radius,
                                    },
                                },
                                tail: None,
                            },
                        );
                    },
                    CharacterWeapon::RayGun {
                        life_duration_ms,
                        owner_invincibility_ms,
                        tail_freeze_ms,
                        fire_interval_ms,
                        velocity,
                        projectile_health,
                    } => {
                        fire_interval = *fire_interval_ms;
                        arm = 1;
                        info = Some(
                            EntityCreateInfo {
                                pos: c_pos,
                                rot: c_rot,
                                color: c_color,
                                role: EntityRole::Projectile {
                                    kind: ProjectileKind::Ray {
                                        life_duration_ms: *life_duration_ms,
                                        owner_invincibility_ms: *owner_invincibility_ms,
                                        tail_freeze_ms: *tail_freeze_ms,
                                        velocity: *velocity,
                                        health: *projectile_health,
                                    },
                                },
                                tail: Some(
                                    EntityTail {
                                        end: c_pos,
                                        rotation: c_rot,
                                        reflection_points: Vec::new(),
                                    },
                                ),
                            },
                        );
                    },
                    CharacterWeapon::Shield { self_destruct_timeout_ms, .. } => {
                        timeout = *self_destruct_timeout_ms;
                        arm = 2;
                    },
                    CharacterWeapon::MineGun {
                        fire_interval_ms,
                        life_duration_ms,
                        owner_invincibility_ms,
                        activation_ms,
                        start_velocity,
                        acceleration,
                        radius,
                        detection_radius,
                        explosion_radius,
                        debris_kind,
                        debris_count,
                    } => {
                        fire_interval = *fire_interval_ms;
                        arm = 1;
                        info = Some(
                            EntityCreateInfo {
                                pos: c_pos,
                                rot: c_rot,
                                color: c_color,
                                role: EntityRole::Projectile {
                                    kind: ProjectileKind::Mine {
                                        life_duration_ms: *life_duration_ms,
                                        owner_invincibility_ms: *owner_invincibility_ms,
                                        activation_ms: *activation_ms,
                                        velocity: *start_velocity,
                                        acceleration: *acceleration,
                                        radius: *radius,
                                        detection_radius: *detection_radius,
                                        explosion_radius: *explosion_radius,
                                        debris_kind: Box::new(debris_kind.clone_kind()),
                                        debris_count: *debris_count,
                                    },
                                },
                                tail: None,
                            },
                        );
                    },
                },
                EntityRole::Projectile { .. } => {
                    proof {
                        assert(false);
                    }
                },
            }
            if arm == 1 {
                if age_ms(now_ms, last_projectile_ms) > fire_interval {
                    match info {
                        Some(ci_info) => {
                            proof {
                                let ghost tv = ci_info.deep_view();
                                assert(match tv.tail {
                                    Option::Some(t) => t.reflection_points =~= Seq::<
                                        Point,
                                    >::empty(),
                                    Option::None => true,
                                });
                            }
                            gs.create(ci_info, player_id, now_ms);
                            proof {
                                let r = spec_handle_fire(
                                    g0,
                                    player_id,
                                    now_ms,
                                    last_projectile_ms,
                                    left_mouse_pressed_ms,
                                );
                                assert(gs.deep_view() =~~= r.0);
                            }
                            true
                        },
                        None => {
                            proof {
                                assert(false);
                            }
                            false
                        },
                    }
                } else {
                    false
                }
            } else {
                if age_ms(now_ms, left_mouse_pressed_ms) > timeout {
                    gs.register_kill(c_id);
                    let ghost ents1 = gs.deep_view().entities;
                    let ghost next1 = gs.next_entity_id;
                    let ghost c = g0.entities[i as int];
                    let mut j: u64 = 0;
                    proof {
                        assert(spec_burst_infos(c).skip(0) =~= spec_burst_infos(c));
                    }
                    while j < 32
                        invariant
                            0 <= j <= 32,
                            gs.wf(),
                            point_in_range(c.pos),
                            rot_in_range(c.rot),
                            c.player_id == player_id,
                            player_id != 0,
                            c_pos == c.pos,
                            c_color == c.color,
                            gs.world_bounds == old(gs).world_bounds,
                            gs.kills@ == old(gs).kills@.push(c.id),
                            gs.next_entity_id == next1 + j,
                            next1 + 32 <= u32::MAX,
                            spec_create_all(ents1, next1, spec_burst_infos(c), now_ms)
                                == spec_create_all(
                                gs.deep_view().entities,
                                gs.next_entity_id,
                                spec_burst_infos(c).skip(j as int),
                                now_ms,
                            ),
                        decreases 32 - j,
                    {
                        proof {
                            assert(spec_burst_infos(c).skip(j as int).drop_first()
                                =~= spec_burst_infos(c).skip(j as int + 1));
                            assert(spec_burst_infos(c).skip(j as int)[0] == spec_burst_infos(
                                c,
                            )[j as int]);
                        }
                        let rot = crate::math::from_turn_fraction(j, 32);
                        let binfo = EntityCreateInfo {
                            pos: c_pos,
                            rot,
                            color: c_color,
                            role: EntityRole::Projectile {
                                kind: ProjectileKind::Ball {
                                    life_duration_ms: j * 1000,
                                    owner_invincibility_ms: 1000000,
                                    velocity: 500,
                                    health: 1,
                                    radius: 4,
                                },
                            },
                            tail: None,
                        };
                        proof {
                            assert(binfo.deep_view() =~~= spec_burst_infos(c)[j as int].0);
                        }
                        gs.create(binfo, player_id, now_ms);
                        j = j + 1;
                    }
                    proof {
                        assert(spec_burst_infos(c).skip(32) =~= Seq::<(CreateInfoV, u64)>::empty());
                        let r = spec_handle_fire(
                            g0,
                            player_id,
                            now_ms,
                            last_projectile_ms,
                            left_mouse_pressed_ms,
                        );
                        assert(gs.deep_view() =~~= r.0);
                    }
                    false
                } else {
                    false
                }
            }
        },
    }
}


/// The exit vector the collision routine reports for two colliding shapes.
pub open spec fn spec_collide_exit(a: Seq<Segment>, b: Seq<Segment>) -> ExitVector {
    let k = spec_best_axis(a, b, a.len() + b.len() as int);
    let v = spec_axis_at(a, b, k);
    ExitVector {
        axis: v,
        num: spec_axis_exit_num(a, b, v) as i64,
        den: spec_axis_den(v) as i64,
    }
}

/// Push a character's bounding box off each world-bound edge in turn: for
/// every edge the box collides with, the position moves by the reported exit
/// vector. The box is taken as its edge ring on the server and as the open
/// chain on the client.
pub open spec fn spec_bound_correct(pos: Point, rot: Complex, bounds: Rect, k: int, ring: bool) -> Point
    decreases 4 - k,
{
    if k < 0 || k >= 4 {
        pos
    } else {
        let verts = spec_vertices(pos, rot);
        let shape = if ring {
            spec_segments_ringe(verts)
        } else {
            spec_segments_chain(verts)
        };
        let edge = seq![spec_rect_edges(bounds)[k]];
        let p2 = if spec_shapes_collide(shape, edge) {
            spec_exit_apply(spec_collide_exit(shape, edge), pos)
        } else {
            pos
        };
        spec_bound_correct(p2, rot, bounds, k + 1, ring)
    }
}

/// Correct a position against all four world-bound edges.
pub fn correct_against_bounds(pos: Point, rot: Complex, bounds: &Rect, ring: bool) -> (r: Point)
    requires
        point_in_range(pos),
        rot_in_range(rot),
        rect_wf(*bounds),
    ensures
        r == spec_bound_correct(pos, rot, *bounds, 0, ring),
        point_in_range(r),
{
    let edges = bounds.edges();
    let mut p = pos;
    let mut k: usize = 0;
    while k < 4
        invariant
            0 <= k <= 4,
            point_in_range(p),
            rot_in_range(rot),
            rect_wf(*bounds),
            edges@ == spec_rect_edges(*bounds),
            edges@.len() == 4,
            forall|j: int| 0 <= j < 4 ==> segment_in_range(#[trigger] edges@[j]),
            spec_bound_correct(pos, rot, *bounds, 0, ring) == spec_bound_correct(
                p,
                rot,
                *bounds,
                k as int,
                ring,
            ),
        decreases 4 - k,
    {
        let verts = crate::game::box_vertices(p, rot);
        let shape: Vec<Segment> = if ring {
            crate::math::segments_ringe(&verts)
        } else {
            crate::math::segments(&verts)
        };
        let mut single: Vec<Segment> = Vec::new();
        single.push(edges[k]);
        proof {
            assert(single@ =~= seq![spec_rect_edges(*bounds)[k as int]]);
            assert(shape@.len() >= 1);
            assert(forall|j: int|
                0 <= j < shape@.len() ==> segment_in_range(#[trigger] shape@[j]));
        }
        match crate::collide::collide(&shape, &single) {
            Some(ev) => {
                proof {
                    assert(ev == spec_collide_exit(shape@, single@));
                }
                p = ev.apply_to(p);
            },
            None => {},
        }
        k = k + 1;
    }
    p
}

/// What one input package does to the world: the player's character, if any,
/// moves by the requested movement (clamped into the coordinate range), takes
/// the requested facing, and is pushed back off any world-bound edge its box
/// collides with.
pub open spec fn spec_apply_input(
    g: GameStateV,
    player_id: u64,
    movement: Vector,
    rotation: Complex,
) -> (GameStateV, bool) {
    let ci = spec_char_idx(g.entities, player_id);
    if ci < 0 {
        (g, false)
    } else {
        let c = g.entities[ci];
        let p1 = spec_add_clamped(c.pos, movement);
        let p2 = spec_bound_correct(p1, rotation, g.world_bounds, 0, true);
        (
            GameStateV {
                entities: g.entities.update(ci, crate::tick::spec_with_motion(c, p2, rotation)),
                world_bounds: g.world_bounds,
                next_entity_id: g.next_entity_id,
                kills: g.kills,
            },
            true,
        )
    }
}

/// Apply one player-input package to the authoritative world.
pub fn apply_player_input(
    gs: &mut GameState,
    player_id: u64,
    movement: Vector,
    rotation: Complex,
) -> (applied: bool)
    requires
        old(gs).wf(),
        rot_in_range(rotation),
        -0x7fffffffffffff <= movement.x <= 0x7fffffffffffff,
        -0x7fffffffffffff <= movement.y <= 0x7fffffffffffff,
    ensures
        ({
            let r = spec_apply_input(old(gs).deep_view(), player_id, movement, rotation);
            &&& final(gs).deep_view() == r.0
            &&& applied == r.1
        }),
        final(gs).wf(),
{
    let ghost g0 = gs.deep_view();
    let found = gs.find_character_by_player_id(player_id);
    proof {
        lemma_char_idx(g0.entities, player_id);
    }
    match found {
        None => {
            proof {
                assert(spec_char_idx(g0.entities, player_id) < 0);
            }
            false
        },
        Some(i) => {
            proof {
                assert(spec_char_idx(g0.entities, player_id) == i as int);
            }
            let p1 = gs.entities[i].pos.add_clamped(movement);
            let p2 = correct_against_bounds(p1, rotation, &gs.world_bounds, true);
            let mut e = gs.entities[i].clone_entity();
            e.pos = p2;
            e.rot = rotation;
            crate::util::vec_set(&mut gs.entities, i, e);
            proof {
                let r = spec_apply_input(g0, player_id, movement, rotation);
                assert(gs.deep_view().entities =~~= r.0.entities);
                assert(gs.deep_view() =~~= r.0);
            }
            true
        },
    }
}

} // verus!
