use vstd::prelude::*;

use crate::math::Complex;
use crate::math::DT_LIMIT;
use crate::math::Point;
use crate::math::Rect;
use crate::math::Segment;
use crate::math::VEL_LIMIT;
use crate::math::Vector;
use crate::math::div_trunc;
use crate::math::point_in_range;
use crate::math::rc_den_n;
use crate::math::rc_t_n;
use crate::math::rc_u_n;
use crate::math::rect_wf;
use crate::math::rot_in_range;
use crate::math::segment_in_range;
use crate::math::spec_rect_edges;
use crate::math::spec_reflect_from;
use crate::math::spec_strict_hit;
use crate::game::CreateInfoV;
use crate::game::Entity;
use crate::game::EntityCreateInfo;
use crate::game::EntityRole;
use crate::game::EntityTail;
use crate::game::EntityV;
use crate::game::GameState;
use crate::game::ProjectileKind;
use crate::game::TailV;
use crate::game::clone_points;
use crate::game::entity_wf;
use crate::game::kind_wf;
use crate::game::spec_inscribed_circle_radius;
use crate::game::spec_vertices;
use crate::game::spec_add_clamped;

verus! {

/// Milliseconds between two instants, zero when `birth` lies after `now`.
pub open spec fn spec_age_ms(now_ms: u64, birth_ms: u64) -> u64 {
    if now_ms >= birth_ms {
        (now_ms - birth_ms) as u64
    } else {
        0
    }
}

/// Elapsed time since an entity's birth, saturating at zero.
pub fn age_ms(now_ms: u64, birth_ms: u64) -> (r: u64)
    ensures
        r == spec_age_ms(now_ms, birth_ms),
{
    if now_ms >= birth_ms {
        now_ms - birth_ms
    } else {
        0
    }
}

/// Index of the first shield segment whose line strictly crosses the motion
/// segment; negative when none does.
pub open spec fn first_shield_hit(shields: Seq<Segment>, motion: Segment) -> int
    decreases shields.len(),
{
    if shields.len() == 0 {
        -1
    } else if spec_strict_hit(shields[0], motion) {
        0
    } else {
        let r = first_shield_hit(shields.drop_first(), motion);
        if r < 0 {
            -1
        } else {
            r + 1
        }
    }
}

pub proof fn lemma_first_shield_hit(shields: Seq<Segment>, motion: Segment)
    ensures
        first_shield_hit(shields, motion) < 0 ==> forall|j: int|
            0 <= j < shields.len() ==> !spec_strict_hit(#[trigger] shields[j], motion),
        first_shield_hit(shields, motion) >= 0 ==> {
            let k = first_shield_hit(shields, motion);
            &&& 0 <= k < shields.len()
            &&& spec_strict_hit(shields[k], motion)
            &&& forall|j: int| 0 <= j < k ==> !spec_strict_hit(#[trigger] shields[j], motion)
        },
    decreases shields.len(),
{
    if shields.len() > 0 {
        lemma_first_shield_hit(shields.drop_first(), motion);
        assert forall|j: int| 1 <= j < shields.len() implies shields.drop_first()[j - 1]
            == shields[j] by {}
    }
}

/// Index of the first world-bound edge whose line strictly crosses the motion
/// segment, in the fixed order top, right, bottom, left; negative when none
/// does.
pub open spec fn first_edge_hit(bounds: Rect, motion: Segment) -> int {
    let e = spec_rect_edges(bounds);
    if spec_strict_hit(e[0], motion) {
        0
    } else if spec_strict_hit(e[1], motion) {
        1
    } else if spec_strict_hit(e[2], motion) {
        2
    } else if spec_strict_hit(e[3], motion) {
        3
    } else {
        -1
    }
}

/// How a rotation reflects off a world-bound edge: the top edge forces the
/// vertical component non-negative, the right edge forces the horizontal
/// component non-positive, and so on.
pub open spec fn spec_edge_reflect_rot(rot: Complex, i: int) -> Complex {
    if i == 0 {
        Complex { r: rot.r, i: crate::collide::spec_abs(rot.i as int) as i64 }
    } else if i == 1 {
        Complex { r: (-crate::collide::spec_abs(rot.r as int)) as i64, i: rot.i }
    } else if i == 2 {
        Complex { r: rot.r, i: (-crate::collide::spec_abs(rot.i as int)) as i64 }
    } else {
        Complex { r: crate::collide::spec_abs(rot.r as int) as i64, i: rot.i }
    }
}

/// The point where a segment's line meets the motion segment, a fraction
/// `99/100` of the way along the motion, so that the mover does not cross
/// again next tick.
pub open spec fn spec_backoff_point(s: Segment, motion: Segment) -> Point {
    Point::spec_lerp_point(
        motion.p0,
        motion.p1,
        rc_u_n(s, motion) * 99,
        rc_den_n(s, motion) * 100,
    )
}

/// The point where an edge's line meets the motion segment, computed along
/// the edge.
pub open spec fn spec_edge_point(e: Segment, motion: Segment) -> Point {
    Point::spec_lerp_point(e.p0, e.p1, rc_t_n(e, motion), rc_den_n(e, motion))
}

/// One reflection decision: the first strictly crossed shield wins, then the
/// first strictly crossed world-bound edge; otherwise nothing happens. The
/// result is (position, rotation, reflected, off a shield).
pub open spec fn spec_reflect(
    pos: Point,
    rot: Complex,
    bounds: Rect,
    shields: Seq<Segment>,
    motion: Segment,
) -> (Point, Complex, bool, bool) {
    let si = first_shield_hit(shields, motion);
    if si >= 0 {
        let sh = shields[si];
        let d = Vector { x: (sh.p1.x - sh.p0.x) as i64, y: (sh.p1.y - sh.p0.y) as i64 };
        (spec_backoff_point(sh, motion), spec_reflect_from(rot, d), true, true)
    } else {
        let ei = first_edge_hit(bounds, motion);
        if ei >= 0 {
            let e = spec_rect_edges(bounds)[ei];
            (spec_edge_point(e, motion), spec_edge_reflect_rot(rot, ei), true, false)
        } else {
            (pos, rot, false, false)
        }
    }
}

impl GameState {
    /// Reflect a moving point off the first shield or world-bound edge that
    /// its motion segment strictly crosses: the position snaps near the
    /// crossing and the facing mirrors. Returns whether a reflection
    /// happened.
    pub fn reflect(
        position: &mut Point,
        rotation: &mut Complex,
        bounds: &Rect,
        shields: &Vec<Segment>,
        motion_segment: Segment,
    ) -> (r: bool)
        requires
            point_in_range(*old(position)),
            rot_in_range(*old(rotation)),
            rect_wf(*bounds),
            segment_in_range(motion_segment),
            forall|i: int| 0 <= i < shields@.len() ==> segment_in_range(#[trigger] shields@[i]),
        ensures
            ({
                let (p, rt, refl, _) = spec_reflect(
                    *old(position),
                    *old(rotation),
                    *bounds,
                    shields@,
                    motion_segment,
                );
                &&& *final(position) == p
                &&& *final(rotation) == rt
                &&& r == refl
            }),
            point_in_range(*final(position)),
            rot_in_range(*final(rotation)),
    {
        let mut i: usize = 0;
        while i < shields.len()
            invariant
                0 <= i <= shields@.len(),
                forall|j: int|
                    0 <= j < i ==> !spec_strict_hit(#[trigger] shields@[j], motion_segment),
                forall|j: int| 0 <= j < shields@.len() ==> segment_in_range(#[trigger] shields@[j]),
                segment_in_range(motion_segment),
                point_in_range(*position),
                rot_in_range(*rotation),
                *position == *old(position),
                *rotation == *old(rotation),
            decreases shields@.len() - i,
        {
            let shield: Segment = shields[i];
            match shield.ray_cast(motion_segment) {
                Some(rc) => {
                    if rc.intersects() {
                        proof {
                            lemma_first_shield_hit(shields@, motion_segment);
                            assert(first_shield_hit(shields@, motion_segment) == i as int);
                        }
                        *position = rc.intersection_point_u_scaled(99, 100);
                        *rotation = rotation.reflect_from(shield.vec());
                        return true;
                    }
                },
                None => {},
            }
            i = i + 1;
        }
        proof {
            lemma_first_shield_hit(shields@, motion_segment);
            assert(first_shield_hit(shields@, motion_segment) < 0);
        }
        let edges = bounds.edges();
        let mut k: usize = 0;
        while k < 4
            invariant
                0 <= k <= 4,
                edges@ == spec_rect_edges(*bounds),
                edges@.len() == 4,
                forall|j: int| 0 <= j < 4 ==> segment_in_range(#[trigger] edges@[j]),
                forall|j: int| 0 <= j < k ==> !spec_strict_hit(#[trigger] edges@[j], motion_segment),
                first_shield_hit(shields@, motion_segment) < 0,
                rect_wf(*bounds),
                segment_in_range(motion_segment),
                point_in_range(*position),
                rot_in_range(*rotation),
                *position == *old(position),
                *rotation == *old(rotation),
            decreases 4 - k,
        {
            let edge: Segment = edges[k];
            match edge.ray_cast(motion_segment) {
                Some(rc) => {
                    if rc.intersects() {
                        proof {
                            assert(first_edge_hit(*bounds, motion_segment) == k as int);
                        }
                        *position = rc.intersection_point();
                        if k == 0 {
                            let a: i64 = if rotation.i < 0 {
                                -rotation.i
                            } else {
                                rotation.i
                            };
                            *rotation = Complex { r: rotation.r, i: a };
                        } else if k == 1 {
                            let a: i64 = if rotation.r < 0 {
                                -rotation.r
                            } else {
                                rotation.r
                            };
                            *rotation = Complex { r: -a, i: rotation.i };
                        } else if k == 2 {
                            let a: i64 = if rotation.i < 0 {
                                -rotation.i
                            } else {
                                rotation.i
                            };
                            *rotation = Complex { r: rotation.r, i: -a };
                        } else {
                            let a: i64 = if rotation.r < 0 {
                                -rotation.r
                            } else {
                                rotation.r
                            };
                            *rotation = Complex { r: a, i: rotation.i };
                        }
                        return true;
                    }
                },
                None => {},
            }
            k = k + 1;
        }
        proof {
            assert(first_edge_hit(*bounds, motion_segment) < 0);
        }
        false
    }
}

/// The look-ahead motion segment of a moving point: twice the distance the
/// velocity covers in `dt`.
pub open spec fn spec_motion_segment(pos: Point, rot: Complex, velocity: i64, dt_ms: u64) -> Segment {
    Segment {
        p0: pos,
        p1: spec_add_clamped(
            pos,
            Vector::spec_polar(rot, div_trunc(velocity * 2 * dt_ms, 1000)),
        ),
    }
}

/// One motion step of a projectile point: reflect off the first shield or
/// bound crossed by the look-ahead segment, or else advance by the velocity.
/// The result is (position, rotation, reflected).
pub open spec fn spec_step(
    pos: Point,
    rot: Complex,
    bounds: Rect,
    shields: Seq<Segment>,
    velocity: i64,
    dt_ms: u64,
) -> (Point, Complex, bool) {
    let motion = spec_motion_segment(pos, rot, velocity, dt_ms);
    let (p, rt, refl, _) = spec_reflect(pos, rot, bounds, shields, motion);
    if refl {
        (p, rt, true)
    } else {
        (
            spec_add_clamped(pos, Vector::spec_polar(rot, div_trunc(velocity * dt_ms, 1000))),
            rot,
            false,
        )
    }
}

/// Advance one moving point, reflecting off shields and world bounds.
pub fn step_motion(
    position: &mut Point,
    rotation: &mut Complex,
    bounds: &Rect,
    shields: &Vec<Segment>,
    velocity: i64,
    dt_ms: u64,
) -> (r: bool)
    requires
        point_in_range(*old(position)),
        rot_in_range(*old(rotation)),
        rect_wf(*bounds),
        -VEL_LIMIT <= velocity <= VEL_LIMIT,
        dt_ms <= DT_LIMIT,
        forall|i: int| 0 <= i < shields@.len() ==> segment_in_range(#[trigger] shields@[i]),
    ensures
        ({
            let (p, rt, refl) = spec_step(
                *old(position),
                *old(rotation),
                *bounds,
                shields@,
                velocity,
                dt_ms,
            );
            &&& *final(position) == p
            &&& *final(rotation) == rt
            &&& r == refl
        }),
        point_in_range(*final(position)),
        rot_in_range(*final(rotation)),
{
    proof {
        assert(-0x2000000000000 <= velocity * 2 * dt_ms <= 0x2000000000000) by (nonlinear_arith)
            requires
                -1000000 <= velocity <= 1000000,
                0 <= dt_ms <= 1000000,
        ;
        assert(-0x2000000000000 <= velocity * dt_ms <= 0x2000000000000) by (nonlinear_arith)
            requires
                -1000000 <= velocity <= 1000000,
                0 <= dt_ms <= 1000000,
        ;
        crate::math::lemma_div_trunc_shrinks(velocity * 2 * dt_ms, 1000);
        crate::math::lemma_div_trunc_shrinks(velocity * dt_ms, 1000);
    }
    let look: i64 = crate::math::div_trunc_i64(
        velocity as i64 * 2 * dt_ms as i64,
        1000,
    );
    let motion = Segment {
        p0: *position,
        p1: position.add_clamped(Vector::polar(*rotation, look)),
    };
    if GameState::reflect(position, rotation, bounds, shields, motion) {
        true
    } else {
        let adv: i64 = crate::math::div_trunc_i64(velocity as i64 * dt_ms as i64, 1000);
        *position = position.add_clamped(Vector::polar(*rotation, adv));
        false
    }
}


/// An entity with its motion fields replaced.
pub open spec fn spec_with_motion(e: EntityV, p: Point, rt: Complex) -> EntityV {
    EntityV {
        id: e.id,
        player_id: e.player_id,
        birth_ms: e.birth_ms,
        pos: p,
        rot: rt,
        color: e.color,
        role: e.role,
        health: e.health,
        tail: e.tail,
        activated: e.activated,
    }
}

/// A ray projectile advanced by one tick: the head moves while its life
/// lasts, the tail end moves once the freeze delay has passed, and each
/// reflection bends the visual trail by pushing or popping the queue of bend
/// points.
pub open spec fn spec_ray_advance(
    e: EntityV,
    t: TailV,
    life: u64,
    freeze: u64,
    vel: i64,
    now: u64,
    dt: u64,
    bounds: Rect,
    shields: Seq<Segment>,
) -> EntityV {
    let age = spec_age_ms(now, e.birth_ms);
    let head = spec_step(e.pos, e.rot, bounds, shields, vel, dt);
    let pos1 = if age < life {
        head.0
    } else {
        e.pos
    };
    let rot1 = if age < life {
        head.1
    } else {
        e.rot
    };
    let q1 = if age < life && head.2 {
        t.reflection_points.push(pos1)
    } else {
        t.reflection_points
    };
    let tstep = spec_step(t.end, t.rotation, bounds, shields, vel, dt);
    let end1 = if age > freeze {
        tstep.0
    } else {
        t.end
    };
    let trot1 = if age > freeze {
        tstep.1
    } else {
        t.rotation
    };
    let q2 = if age > freeze && tstep.2 {
        if q1.len() == 0 {
            q1
        } else {
            q1.drop_first()
        }
    } else {
        q1
    };
    EntityV {
        id: e.id,
        player_id: e.player_id,
        birth_ms: e.birth_ms,
        pos: pos1,
        rot: rot1,
        color: e.color,
        role: e.role,
        health: e.health,
        tail: Option::Some(TailV { end: end1, rotation: trot1, reflection_points: q2 }),
        activated: e.activated,
    }
}

/// A mine's velocity after one tick: it accelerates, saturating at the
/// velocity limit, but an update that would flip the sign of the velocity is
/// discarded, so deceleration stops at zero and never reverses.
pub open spec fn spec_mine_velocity(vel: i64, accel: i64, dt: u64) -> i64 {
    let nv = crate::math::spec_clamp(
        vel + div_trunc(accel * dt, 1000),
        -VEL_LIMIT as int,
        VEL_LIMIT as int,
    ) as i64;
    if (vel >= 0) == (nv >= 0) {
        nv
    } else {
        vel
    }
}

/// One tick of a single entity. Characters do not move here. A projectile
/// moves by its velocity with reflection, and the second component says
/// whether it survives: its elapsed life must stay below its life duration
/// (for rays, below life plus tail freeze, so the trail finishes receding).
pub open spec fn spec_advance_entity(
    e: EntityV,
    now: u64,
    dt: u64,
    bounds: Rect,
    shields: Seq<Segment>,
) -> (EntityV, bool) {
    match e.role {
        EntityRole::Character { .. } => (e, true),
        EntityRole::Projectile { kind } => {
            let age = spec_age_ms(now, e.birth_ms);
            match kind {
                ProjectileKind::Ball { life_duration_ms, velocity, .. } => {
                    let s = spec_step(e.pos, e.rot, bounds, shields, velocity, dt);
                    (spec_with_motion(e, s.0, s.1), age < life_duration_ms)
                },
                ProjectileKind::Ray { life_duration_ms, tail_freeze_ms, velocity, .. } => {
                    match e.tail {
                        Option::Some(t) => (
                            spec_ray_advance(
                                e,
                                t,
                                life_duration_ms,
                                tail_freeze_ms,
                                velocity,
                                now,
                                dt,
                                bounds,
                                shields,
                            ),
                            (age as int) < life_duration_ms + tail_freeze_ms,
                        ),
                        Option::None => (e, false),
                    }
                },
                ProjectileKind::Mine {
                    life_duration_ms,
                    owner_invincibility_ms,
                    activation_ms,
                    velocity,
                    acceleration,
                    radius,
                    detection_radius,
                    explosion_radius,
                    debris_kind,
                    debris_count,
                } => {
                    let s = spec_step(e.pos, e.rot, bounds, shields, velocity, dt);
                    let e2 = EntityV {
                        id: e.id,
                        player_id: e.player_id,
                        birth_ms: e.birth_ms,
                        pos: s.0,
                        rot: s.1,
                        color: e.color,
                        role: EntityRole::Projectile {
                            kind: ProjectileKind::Mine {
                                life_duration_ms,
                                owner_invincibility_ms,
                                activation_ms,
                                velocity: spec_mine_velocity(velocity, acceleration, dt),
                                acceleration,
                                radius,
                                detection_radius,
                                explosion_radius,
                                debris_kind,
                                debris_count,
                            },
                        },
                        health: e.health,
                        tail: e.tail,
                        activated: age > activation_ms,
                    };
                    (e2, age < life_duration_ms)
                },
            }
        },
    }
}

/// One tick of the whole entity list: every entity advanced in order,
/// dropping those that did not survive.
pub open spec fn spec_advance_all(
    s: Seq<EntityV>,
    now: u64,
    dt: u64,
    bounds: Rect,
    shields: Seq<Segment>,
) -> Seq<EntityV>
    decreases s.len(),
{
    if s.len() == 0 {
        Seq::empty()
    } else {
        let a = spec_advance_entity(s[0], now, dt, bounds, shields);
        let rest = spec_advance_all(s.drop_first(), now, dt, bounds, shields);
        if a.1 {
            seq![a.0] + rest
        } else {
            rest
        }
    }
}

/// Advance one entity, returning the survivor or nothing.
fn advance_one(
    e: &Entity,
    now_ms: u64,
    dt_ms: u64,
    bounds: &Rect,
    shields: &Vec<Segment>,
) -> (r: Option<Entity>)
    requires
        entity_wf(e.deep_view()),
        rect_wf(*bounds),
        dt_ms <= DT_LIMIT,
        forall|i: int| 0 <= i < shields@.len() ==> segment_in_range(#[trigger] shields@[i]),
    ensures
        ({
            let a = spec_advance_entity(e.deep_view(), now_ms, dt_ms, *bounds, shields@);
            &&& a.1 <==> r is Some
            &&& r is Some ==> r.unwrap().deep_view() == a.0 && entity_wf(r.unwrap().deep_view())
        }),
{
    match &e.role {
        EntityRole::Character { .. } => Some(e.clone_entity()),
        EntityRole::Projectile { kind } => {
            let age: u64 = age_ms(now_ms, e.birth_ms);
            match kind {
                ProjectileKind::Ball { life_duration_ms, velocity, .. } => {
                    let mut pos = e.pos;
                    let mut rot = e.rot;
                    step_motion(&mut pos, &mut rot, bounds, shields, *velocity, dt_ms);
                    if age < *life_duration_ms {
                        let ne = Entity {
                            id: e.id,
                            player_id: e.player_id,
                            birth_ms: e.birth_ms,
                            pos,
                            rot,
                            color: e.color,
                            role: e.role.clone_role(),
                            health: e.health,
                            tail: match &e.tail {
                                Option::Some(t) => Option::Some(t.clone_tail()),
                                Option::None => Option::None,
                            },
                            activated: e.activated,
                        };
                        Some(ne)
                    } else {
                        None
                    }
                },
                ProjectileKind::Ray { life_duration_ms, tail_freeze_ms, velocity, .. } => {
                    match &e.tail {
                        Option::Some(t) => {
                            let mut pos = e.pos;
                            let mut rot = e.rot;
                            let mut points = clone_points(&t.reflection_points);
                            if age < *life_duration_ms {
                                let refl = step_motion(
                                    &mut pos,
                                    &mut rot,
                                    bounds,
                                    shields,
                                    *velocity,
                                    dt_ms,
                                );
                                if refl {
                                    points.push(pos);
                                }
                            }
                            let mut end = t.end;
                            let mut trot = t.rotation;
                            if age > *tail_freeze_ms {
                                let refl2 = step_motion(
                                    &mut end,
                                    &mut trot,
                                    bounds,
                                    shields,
                                    *velocity,
                                    dt_ms,
                                );
                                if refl2 {
                                    if points.len() > 0 {
                                        points.remove(0);
                                    }
                                }
                            }
                            let keep: bool = (age as u128) < (*life_duration_ms as u128) + (
                            *tail_freeze_ms as u128);
                            if keep {
                                let ne = Entity {
                                    id: e.id,
                                    player_id: e.player_id,
                                    birth_ms: e.birth_ms,
                                    pos,
                                    rot,
                                    color: e.color,
                                    role: e.role.clone_role(),
                                    health: e.health,
                                    tail: Option::Some(
                                        EntityTail { end, rotation: trot, reflection_points: points },
                                    ),
                                    activated: e.activated,
                                };
                                proof {
                                    let a = spec_advance_entity(
                                        e.deep_view(),
                                        now_ms,
                                        dt_ms,
                                        *bounds,
                                        shields@,
                                    );
                                    assert(ne.deep_view().tail.unwrap().reflection_points
                                        =~= a.0.tail.unwrap().reflection_points);
                                    assert(ne.deep_view() =~~= a.0);
                                }
                                Some(ne)
                            } else {
                                None
                            }
                        },
                        Option::None => {
                            proof {
                                assert(false);
                            }
                            None
                        },
                    }
                },
                ProjectileKind::Mine {
                    life_duration_ms,
                    owner_invincibility_ms,
                    activation_ms,
                    velocity,
                    acceleration,
                    radius,
                    detection_radius,
                    explosion_radius,
                    debris_kind,
                    debris_count,
                } => {
                    proof {
                        assert(-0x2000000000000 <= *acceleration * dt_ms <= 0x2000000000000)
                            by (nonlinear_arith)
                            requires
                                -1000000 <= *acceleration <= 1000000,
                                0 <= dt_ms <= 1000000,
                        ;
                        crate::math::lemma_div_trunc_shrinks(*acceleration * dt_ms, 1000);
                    }
                    let dv: i64 = crate::math::div_trunc_i64(
                        *acceleration as i64 * dt_ms as i64,
                        1000,
                    );
                    let nv: i64 = crate::math::clamp_i64(*velocity + dv, -VEL_LIMIT, VEL_LIMIT);
                    let v2: i64 = if (*velocity >= 0) == (nv >= 0) {
                        nv
                    } else {
                        *velocity
                    };
                    let mut pos = e.pos;
                    let mut rot = e.rot;
                    step_motion(&mut pos, &mut rot, bounds, shields, *velocity, dt_ms);
                    if age < *life_duration_ms {
                        let ne = Entity {
                            id: e.id,
                            player_id: e.player_id,
                            birth_ms: e.birth_ms,
                            pos,
                            rot,
                            color: e.color,
                            role: EntityRole::Projectile {
                                kind: ProjectileKind::Mine {
                                    life_duration_ms: *life_duration_ms,
                                    owner_invincibility_ms: *owner_invincibility_ms,
                                    activation_ms: *activation_ms,
                                    velocity: v2,
                                    acceleration: *acceleration,
                                    radius: *radius,
                                    detection_radius: *detection_radius,
                                    explosion_radius: *explosion_radius,
                                    debris_kind: Box::new(debris_kind.clone_kind()),
                                    debris_count: *debris_count,
                                },
                            },
                            health: e.health,
                            tail: match &e.tail {
                                Option::Some(t) => Option::Some(t.clone_tail()),
                                Option::None => Option::None,
                            },
                            activated: age > *activation_ms,
                        };
                        Some(ne)
                    } else {
                        None
                    }
                },
            }
        },
    }
}

impl GameState {
    /// The retain-and-advance pass of one tick: every projectile moves and
    /// expired projectiles leave; characters are untouched.
    pub fn advance_projectiles(&mut self, now_ms: u64, dt_ms: u64, shields: &Vec<Segment>)
        requires
            old(self).wf(),
            dt_ms <= DT_LIMIT,
            forall|i: int| 0 <= i < shields@.len() ==> segment_in_range(#[trigger] shields@[i]),
        ensures
            final(self).deep_view().entities == spec_advance_all(
                old(self).deep_view().entities,
                now_ms,
                dt_ms,
                old(self).world_bounds,
                shields@,
            ),
            final(self).world_bounds == old(self).world_bounds,
            final(self).next_entity_id == old(self).next_entity_id,
            final(self).kills@ == old(self).kills@,
            final(self).entities@.len() <= old(self).entities@.len(),
            final(self).wf(),
    {
        let ghost ents0 = self.deep_view().entities;
        let ghost bounds0 = self.world_bounds;
        let mut out: Vec<Entity> = Vec::new();
        let mut i: usize = 0;
        let n: usize = self.entities.len();
        proof {
            assert(ents0.skip(0) =~= ents0);
            assert(out.deep_view() + spec_advance_all(ents0, now_ms, dt_ms, bounds0, shields@)
                =~= spec_advance_all(ents0, now_ms, dt_ms, bounds0, shields@));
        }
        while i < n
            invariant
                0 <= i <= n,
                n == self.entities@.len(),
                ents0 == self.deep_view().entities,
                bounds0 == self.world_bounds,
                old(self).wf(),
                self.wf(),
                *self == *old(self),
                dt_ms <= DT_LIMIT,
                forall|k: int| 0 <= k < shields@.len() ==> segment_in_range(#[trigger] shields@[k]),
                spec_advance_all(ents0, now_ms, dt_ms, bounds0, shields@) == out.deep_view()
                    + spec_advance_all(ents0.skip(i as int), now_ms, dt_ms, bounds0, shields@),
                forall|j: int|
                    0 <= j < out.deep_view().len() ==> entity_wf(#[trigger] out.deep_view()[j]),
                forall|j: int|
                    0 <= j < out.deep_view().len() ==> exists|k: int|
                        0 <= k < i && (#[trigger] out.deep_view()[j].id) == ents0[k].id,
                forall|j1: int, j2: int|
                    0 <= j1 < out.deep_view().len() && 0 <= j2 < out.deep_view().len() && j1 != j2
                        ==> #[trigger] out.deep_view()[j1].id != #[trigger] out.deep_view()[j2].id,
                out.deep_view().len() <= i,
            decreases n - i,
        {
            let ghost out_pre = out.deep_view();
            proof {
                assert(ents0.skip(i as int).drop_first() =~= ents0.skip(i + 1));
                assert(ents0.skip(i as int)[0] == ents0[i as int]);
                assert(entity_wf(ents0[i as int]));
            }
            let r = advance_one(&self.entities[i], now_ms, dt_ms, &self.world_bounds, shields);
            match r {
                Some(ne) => {
                    proof {
                        let a = spec_advance_entity(ents0[i as int], now_ms, dt_ms, bounds0, shields@);
                        assert(a.0.id == ents0[i as int].id) by {
                            reveal_advance_id(ents0[i as int], now_ms, dt_ms, bounds0, shields@);
                        }
                    }
                    out.push(ne);
                    proof {
                        assert(out.deep_view() =~= out_pre.push(
                            spec_advance_entity(ents0[i as int], now_ms, dt_ms, bounds0, shields@).0,
                        ));
                        assert(out.deep_view() + spec_advance_all(
                            ents0.skip(i + 1),
                            now_ms,
                            dt_ms,
                            bounds0,
                            shields@,
                        ) =~= out_pre + spec_advance_all(
                            ents0.skip(i as int),
                            now_ms,
                            dt_ms,
                            bounds0,
                            shields@,
                        ));
                    }
                },
                None => {
                    proof {
                        assert(out.deep_view() + spec_advance_all(
                            ents0.skip(i + 1),
                            now_ms,
                            dt_ms,
                            bounds0,
                            shields@,
                        ) =~= out_pre + spec_advance_all(
                            ents0.skip(i as int),
                            now_ms,
                            dt_ms,
                            bounds0,
                            shields@,
                        ));
                    }
                },
            }
            i = i + 1;
        }
        proof {
            assert(ents0.skip(n as int) =~= Seq::<EntityV>::empty());
            assert(out.deep_view() + spec_advance_all(
                ents0.skip(n as int),
                now_ms,
                dt_ms,
                bounds0,
                shields@,
            ) =~= out.deep_view());
        }
        self.entities = out;
    }
}

/// The advanced entity keeps its identity.
proof fn reveal_advance_id(e: EntityV, now: u64, dt: u64, bounds: Rect, shields: Seq<Segment>)
    ensures
        spec_advance_entity(e, now, dt, bounds, shields).0.id == e.id,
        spec_advance_entity(e, now, dt, bounds, shields).0.player_id == e.player_id,
{
}


/// The state the damage pass works on: the entities, the kill queue, and the
/// debris spawns collected for materialization after the pass.
#[verifier::ext_equal]
pub struct DamageStateV {
    pub entities: Seq<EntityV>,
    pub kills: Seq<u32>,
    pub spawns: Seq<(CreateInfoV, u64)>,
}

pub open spec fn spec_dist2(a: Point, b: Point) -> int {
    (a.x - b.x) * (a.x - b.x) + (a.y - b.y) * (a.y - b.y)
}

pub open spec fn spec_with_health(e: EntityV, h: u8) -> EntityV {
    EntityV {
        id: e.id,
        player_id: e.player_id,
        birth_ms: e.birth_ms,
        pos: e.pos,
        rot: e.rot,
        color: e.color,
        role: e.role,
        health: h,
        tail: e.tail,
        activated: e.activated,
    }
}

pub open spec fn spec_with_pos(e: EntityV, p: Point) -> EntityV {
    EntityV {
        id: e.id,
        player_id: e.player_id,
        birth_ms: e.birth_ms,
        pos: p,
        rot: e.rot,
        color: e.color,
        role: e.role,
        health: e.health,
        tail: e.tail,
        activated: e.activated,
    }
}

/// A landed hit: both sides lose one health point, and whoever reaches zero
/// is queued for removal, the character first.
pub open spec fn spec_apply_hit(s: DamageStateV, ci: int, pi: int) -> DamageStateV {
    let c = s.entities[ci];
    let p = s.entities[pi];
    let ch = (c.health - 1) as u8;
    let ph = (p.health - 1) as u8;
    let k1 = if ch == 0 {
        s.kills.push(c.id)
    } else {
        s.kills
    };
    let k2 = if ph == 0 {
        k1.push(p.id)
    } else {
        k1
    };
    DamageStateV {
        entities: s.entities.update(ci, spec_with_health(c, ch)).update(
            pi,
            spec_with_health(p, ph),
        ),
        kills: k2,
        spawns: s.spawns,
    }
}

/// Whether the trace of a ray (tail end, bend points, head) crosses the
/// character's bounding box.
pub open spec fn spec_ray_trace_hits(p: EntityV, t: TailV, c: EntityV) -> bool {
    let pts = seq![t.end] + t.reflection_points + seq![p.pos];
    let segs = crate::math::spec_segments_chain(pts);
    let cbox = crate::math::spec_segments_ringe(spec_vertices(c.pos, c.rot));
    exists|k: int|
        0 <= k < segs.len() && crate::collide::spec_shapes_collide(seq![segs[k]], cbox)
}

/// The push a mine gives a nearby character: directed from the mine to the
/// character, its strength set by the mine's acceleration and the tick
/// duration; zero when the two coincide.
pub open spec fn spec_repulse(cpos: Point, mpos: Point, accel: i64, dt: u64) -> Vector {
    let dx = cpos.x - mpos.x;
    let dy = cpos.y - mpos.y;
    let d2 = dx * dx + dy * dy;
    if d2 == 0 {
        Vector { x: 0 as i64, y: 0 as i64 }
    } else {
        let k = div_trunc(-2 * accel * dt, 1000);
        let l = crate::math::spec_isqrt(d2 as nat) as int;
        Vector { x: div_trunc(dx * k, l) as i64, y: div_trunc(dy * k, l) as i64 }
    }
}

/// The debris a detonating mine spawns: `count` copies of the nested debris
/// kind, aimed evenly around the circle.
pub open spec fn spec_debris_spawns(p: EntityV, kind: ProjectileKind, count: u8) -> Seq<
    (CreateInfoV, u64),
> {
    Seq::new(
        count as nat,
        |j: int|
            (
                CreateInfoV {
                    pos: p.pos,
                    rot: crate::math::spec_from_turn_fraction(j, count as int),
                    color: p.color,
                    role: EntityRole::Projectile { kind },
                    tail: Option::Some(
                        TailV {
                            end: p.pos,
                            rotation: crate::math::spec_from_turn_fraction(j, count as int),
                            reflection_points: Seq::empty(),
                        },
                    ),
                },
                p.player_id,
            ),
    )
}

/// One character-projectile encounter of the damage pass. Ball and ray
/// projectiles deal mutual damage on contact and stop the character's scan
/// for this tick. An activated mine detonates into debris when the character
/// is inside its explosion radius, and otherwise pushes a character inside
/// its detection radius away.
pub open spec fn spec_interact(s: DamageStateV, ci: int, pi: int, now: u64, dt: u64) -> (
    DamageStateV,
    bool,
) {
    let c = s.entities[ci];
    let p = s.entities[pi];
    match p.role {
        EntityRole::Character { .. } => (s, false),
        EntityRole::Projectile { kind } => {
            let age = spec_age_ms(now, p.birth_ms);
            match kind {
                ProjectileKind::Ball { owner_invincibility_ms, .. } => {
                    let rsum = spec_inscribed_circle_radius(c) + spec_inscribed_circle_radius(p);
                    if (p.player_id != c.player_id || age > owner_invincibility_ms) && c.health
                        != 0 && p.health != 0 && spec_dist2(c.pos, p.pos) < rsum * rsum {
                        (spec_apply_hit(s, ci, pi), true)
                    } else {
                        (s, false)
                    }
                },
                ProjectileKind::Ray { owner_invincibility_ms, .. } => {
                    match p.tail {
                        Option::Some(t) => {
                            if (p.player_id != c.player_id || age > owner_invincibility_ms)
                                && c.health != 0 && p.health != 0 && spec_ray_trace_hits(p, t, c) {
                                (spec_apply_hit(s, ci, pi), true)
                            } else {
                                (s, false)
                            }
                        },
                        Option::None => (s, false),
                    }
                },
                ProjectileKind::Mine {
                    owner_invincibility_ms,
                    acceleration,
                    detection_radius,
                    explosion_radius,
                    debris_kind,
                    debris_count,
                    ..
                } => {
                    if p.activated && (p.player_id != c.player_id || age
                        > owner_invincibility_ms) {
                        let rc = spec_inscribed_circle_radius(c);
                        let re = rc + explosion_radius;
                        let rd = rc + detection_radius;
                        if spec_dist2(c.pos, p.pos) < re * re {
                            (
                                DamageStateV {
                                    entities: s.entities,
                                    kills: s.kills.push(p.id),
                                    spawns: s.spawns + spec_debris_spawns(
                                        p,
                                        *debris_kind,
                                        debris_count,
                                    ),
                                },
                                true,
                            )
                        } else if spec_dist2(c.pos, p.pos) < rd * rd {
                            (
                                DamageStateV {
                                    entities: s.entities.update(
                                        ci,
                                        spec_with_pos(
                                            c,
                                            spec_add_clamped(
                                                c.pos,
                                                spec_repulse(c.pos, p.pos, acceleration, dt),
                                            ),
                                        ),
                                    ),
                                    kills: s.kills,
                                    spawns: s.spawns,
                                },
                                false,
                            )
                        } else {
                            (s, false)
                        }
                    } else {
                        (s, false)
                    }
                },
            }
        },
    }
}

/// The scan of one character against the projectiles from index `pi` on,
/// stopping at the first landed hit.
pub open spec fn spec_damage_inner(
    s: DamageStateV,
    ci: int,
    pi: int,
    n: int,
    now: u64,
    dt: u64,
) -> DamageStateV
    decreases n - pi,
{
    if pi < 0 || pi >= n {
        s
    } else if pi == ci {
        spec_damage_inner(s, ci, pi + 1, n, now, dt)
    } else {
        let r = spec_interact(s, ci, pi, now, dt);
        if r.1 {
            r.0
        } else {
            spec_damage_inner(r.0, ci, pi + 1, n, now, dt)
        }
    }
}

/// The whole damage pass: every character in order scans every other entity;
/// at most one damage event lands per character per tick.
pub open spec fn spec_damage_outer(
    s: DamageStateV,
    ci: int,
    n: int,
    now: u64,
    dt: u64,
) -> DamageStateV
    decreases n - ci,
{
    if ci < 0 || ci >= n {
        s
    } else {
        let s2 = if ci < s.entities.len() && s.entities[ci].role is Character {
            spec_damage_inner(s, ci, 0, n, now, dt)
        } else {
            s
        };
        spec_damage_outer(s2, ci + 1, n, now, dt)
    }
}

/// Overwrite one entity's health.
fn set_entity_health(v: &mut Vec<Entity>, i: usize, h: u8)
    requires
        i < old(v)@.len(),
    ensures
        final(v).deep_view() == old(v).deep_view().update(
            i as int,
            spec_with_health(old(v).deep_view()[i as int], h),
        ),
        final(v)@.len() == old(v)@.len(),
{
    let mut e = v[i].clone_entity();
    e.health = h;
    crate::util::vec_set(v, i, e);
    proof {
        assert(v.deep_view() =~~= old(v).deep_view().update(
            i as int,
            spec_with_health(old(v).deep_view()[i as int], h),
        ));
    }
}

/// Overwrite one entity's position.
fn set_entity_pos(v: &mut Vec<Entity>, i: usize, p: Point)
    requires
        i < old(v)@.len(),
    ensures
        final(v).deep_view() == old(v).deep_view().update(
            i as int,
            spec_with_pos(old(v).deep_view()[i as int], p),
        ),
        final(v)@.len() == old(v)@.len(),
{
    let mut e = v[i].clone_entity();
    e.pos = p;
    crate::util::vec_set(v, i, e);
    proof {
        assert(v.deep_view() =~~= old(v).deep_view().update(
            i as int,
            spec_with_pos(old(v).deep_view()[i as int], p),
        ));
    }
}


/// Execute one character-projectile encounter of the damage pass, mutating
/// the world in place; returns whether the character's scan stops here.
fn interact_pair(
    gs: &mut GameState,
    spawns: &mut Vec<(EntityCreateInfo, u64)>,
    ci: usize,
    pi: usize,
    now_ms: u64,
    dt_ms: u64,
) -> (brk: bool)
    requires
        ci < old(gs).entities@.len(),
        pi < old(gs).entities@.len(),
        ci != pi,
        dt_ms <= DT_LIMIT,
        forall|j: int|
            0 <= j < old(gs).entities@.len() ==> entity_wf(
                #[trigger] old(gs).deep_view().entities[j],
            ),
        forall|j: int|
            0 <= j < old(spawns)@.len() ==> crate::game::create_info_wf(
                (#[trigger] old(spawns).deep_view()[j]).0,
            ) && old(spawns).deep_view()[j].1 != 0,
    ensures
        ({
            let s0 = DamageStateV {
                entities: old(gs).deep_view().entities,
                kills: old(gs).kills@,
                spawns: old(spawns).deep_view(),
            };
            let r = spec_interact(s0, ci as int, pi as int, now_ms, dt_ms);
            &&& final(gs).deep_view().entities == r.0.entities
            &&& final(gs).kills@ == r.0.kills
            &&& final(spawns).deep_view() == r.0.spawns
            &&& brk == r.1
        }),
        final(gs).entities@.len() == old(gs).entities@.len(),
        final(gs).world_bounds == old(gs).world_bounds,
        final(gs).next_entity_id == old(gs).next_entity_id,
        forall|j: int|
            0 <= j < final(gs).entities@.len() ==> entity_wf(
                #[trigger] final(gs).deep_view().entities[j],
            ),
        forall|j: int|
            0 <= j < final(gs).entities@.len() ==> (#[trigger] final(gs).deep_view().entities[j]).id
                == old(gs).deep_view().entities[j].id,
        final(spawns)@.len() <= old(spawns)@.len() + 255,
        forall|j: int|
            0 <= j < final(spawns)@.len() ==> crate::game::create_info_wf(
                (#[trigger] final(spawns).deep_view()[j]).0,
            ) && final(spawns).deep_view()[j].1 != 0,
{
    let ghost s0 = DamageStateV {
        entities: gs.deep_view().entities,
        kills: gs.kills@,
        spawns: spawns.deep_view(),
    };
    let c_pos: Point = gs.entities[ci].pos;
    let c_pid: u64 = gs.entities[ci].player_id;
    let c_health: u8 = gs.entities[ci].health;
    let c_id: u32 = gs.entities[ci].id;
    let c_rc: i64 = gs.entities[ci].inscribed_circle_radius();
    let p_pos: Point = gs.entities[pi].pos;
    let p_pid: u64 = gs.entities[pi].player_id;
    let p_health: u8 = gs.entities[pi].health;
    let p_id: u32 = gs.entities[pi].id;
    let p_birth: u64 = gs.entities[pi].birth_ms;
    let p_activated: bool = gs.entities[pi].activated;
    let p_color: crate::game::Color = gs.entities[pi].color;
    let p_rc: i64 = gs.entities[pi].inscribed_circle_radius();
    let age: u64 = age_ms(now_ms, p_birth);
    proof {
        assert(entity_wf(s0.entities[ci as int]));
        assert(entity_wf(s0.entities[pi as int]));
        assert(-0x100000 <= c_pos.x - p_pos.x <= 0x100000);
        assert(-0x40000000000 <= (c_pos.x - p_pos.x) * (c_pos.x - p_pos.x) <= 0x40000000000
            && (c_pos.x - p_pos.x) * (c_pos.x - p_pos.x) >= 0) by (nonlinear_arith)
            requires
                -0x100000 <= c_pos.x - p_pos.x <= 0x100000,
        ;
        assert(-0x40000000000 <= (c_pos.y - p_pos.y) * (c_pos.y - p_pos.y) <= 0x40000000000
            && (c_pos.y - p_pos.y) * (c_pos.y - p_pos.y) >= 0) by (nonlinear_arith)
            requires
                -0x100000 <= c_pos.y - p_pos.y <= 0x100000,
        ;
    }
    let dx: i64 = c_pos.x - p_pos.x;
    let dy: i64 = c_pos.y - p_pos.y;
    let d2: i64 = dx * dx + dy * dy;
    let mut hit: bool = false;
    let mut explode: bool = false;
    let mut repel: bool = false;
    match &gs.entities[pi].role {
        EntityRole::Character { .. } => {
            return false;
        },
        EntityRole::Projectile { kind } => {
            match kind {
                ProjectileKind::Ball { owner_invincibility_ms, .. } => {
                    let inv: u64 = *owner_invincibility_ms;
                    let rsum: i64 = c_rc + p_rc;
                    proof {
                        assert(0 <= rsum * rsum <= 0x100000000000) by (nonlinear_arith)
                            requires
                                0 <= rsum <= 0x200000,
                        ;
                    }
                    if (p_pid != c_pid || age > inv) && c_health != 0 && p_health != 0 && d2 < rsum
                        * rsum {
                        hit = true;
                    }
                },
                ProjectileKind::Ray { owner_invincibility_ms, .. } => {
                    let inv: u64 = *owner_invincibility_ms;
                    if (p_pid != c_pid || age > inv) && c_health != 0 && p_health != 0 {
                        let mut trace: Vec<Point> = Vec::new();
                        let t_end: Point;
                        let t_points: Vec<Point>;
                        match &gs.entities[pi].tail {
                            Option::Some(t) => {
                                t_end = t.end;
                                t_points = clone_points(&t.reflection_points);
                            },
                            Option::None => {
                                proof {
                                    assert(false);
                                }
                                return false;
                            },
                        }
                        trace.push(t_end);
                        let mut q: usize = 0;
                        while q < t_points.len()
                            invariant
                                0 <= q <= t_points@.len(),
                                trace@.len() == 1 + q,
                                trace@[0] == t_end,
                                forall|j: int| 0 <= j < q ==> trace@[j + 1] == t_points@[j],
                            decreases t_points@.len() - q,
                        {
                            trace.push(t_points[q]);
                            q = q + 1;
                        }
                        trace.push(p_pos);
                        let ghost tv = s0.entities[pi as int].tail.unwrap();
                        proof {
                            assert(t_points.deep_view() =~= t_points@);
                            assert(t_points@ == tv.reflection_points);
                            assert(trace@ =~= seq![tv.end] + tv.reflection_points + seq![
                                s0.entities[pi as int].pos,
                            ]);
                            assert(forall|j: int|
                                0 <= j < trace@.len() ==> point_in_range(#[trigger] trace@[j]));
                        }
                        let segs: Vec<Segment> = crate::math::segments(&trace);
                        let cbox: Vec<Segment> = crate::math::segments_ringe(
                            &gs.entities[ci].vertices(),
                        );
                        proof {
                            assert(forall|j: int|
                                0 <= j < segs@.len() ==> segment_in_range(#[trigger] segs@[j]));
                            assert(forall|j: int|
                                0 <= j < cbox@.len() ==> segment_in_range(#[trigger] cbox@[j]));
                            assert(cbox@.len() == 4);
                        }
                        let mut k: usize = 0;
                        while k < segs.len()
                            invariant
                                0 <= k <= segs@.len(),
                                cbox@.len() == 4,
                                forall|j: int|
                                    0 <= j < segs@.len() ==> segment_in_range(#[trigger] segs@[j]),
                                forall|j: int|
                                    0 <= j < cbox@.len() ==> segment_in_range(#[trigger] cbox@[j]),
                                hit <==> exists|j: int|
                                    0 <= j < k && crate::collide::spec_shapes_collide(
                                        seq![segs@[j]],
                                        cbox@,
                                    ),
                            decreases segs@.len() - k,
                        {
                            let mut single: Vec<Segment> = Vec::new();
                            single.push(segs[k]);
                            proof {
                                assert(single@ =~= seq![segs@[k as int]]);
                            }
                            let r = crate::collide::collide(&single, &cbox);
                            if r.is_some() {
                                hit = true;
                            }
                            k = k + 1;
                        }
                        proof {
                            let pts = seq![tv.end] + tv.reflection_points + seq![
                                s0.entities[pi as int].pos,
                            ];
                            assert(segs@ == crate::math::spec_segments_chain(pts));
                            assert(cbox@ == crate::math::spec_segments_ringe(
                                spec_vertices(
                                    s0.entities[ci as int].pos,
                                    s0.entities[ci as int].rot,
                                ),
                            ));
                            assert(hit == spec_ray_trace_hits(
                                s0.entities[pi as int],
                                tv,
                                s0.entities[ci as int],
                            ));
                        }
                    }
                },
                ProjectileKind::Mine {
                    owner_invincibility_ms,
                    acceleration,
                    detection_radius,
                    explosion_radius,
                    ..
                } => {
                    let inv: u64 = *owner_invincibility_ms;
                    let det: i64 = *detection_radius;
                    let exp: i64 = *explosion_radius;
                    if p_activated && (p_pid != c_pid || age > inv) {
                        let re: i64 = c_rc + exp;
                        let rd: i64 = c_rc + det;
                        proof {
                            assert(0 <= re * re <= 0x100000000000 && 0 <= rd * rd
                                <= 0x100000000000) by (nonlinear_arith)
                                requires
                                    0 <= re <= 0x200000,
                                    0 <= rd <= 0x200000,
                            ;
                        }
                        if d2 < re * re {
                            explode = true;
                        } else if d2 < rd * rd {
                            repel = true;
                        }
                    }
                },
            }
        },
    }
    if hit {
        let ch: u8 = c_health - 1;
        let ph: u8 = p_health - 1;
        set_entity_health(&mut gs.entities, ci, ch);
        set_entity_health(&mut gs.entities, pi, ph);
        if ch == 0 {
            gs.kills.push(c_id);
        }
        if ph == 0 {
            gs.kills.push(p_id);
        }
        proof {
            let r = spec_interact(s0, ci as int, pi as int, now_ms, dt_ms);
            assert(gs.deep_view().entities =~= r.0.entities);
            assert(gs.kills@ =~= r.0.kills);
        }
        return true;
    }
    if explode {
        let mut count: u8 = 0;
        let mut debris: Option<ProjectileKind> = None;
        match &gs.entities[pi].role {
            EntityRole::Projectile { kind } => match kind {
                ProjectileKind::Mine { debris_kind, debris_count, .. } => {
                    count = *debris_count;
                    debris = Some(debris_kind.clone_kind());
                },
                _ => {
                    proof {
                        assert(false);
                    }
                },
            },
            _ => {
                proof {
                    assert(false);
                }
            },
        }
        let ghost pv = s0.entities[pi as int];
        let ghost dkind = pv.role->Projectile_kind->Mine_debris_kind;
        let mut j: u8 = 0;
        while j < count
            invariant
                0 <= j <= count,
                debris is Some,
                debris.unwrap() == *dkind,
                kind_wf(*dkind),
                pv == s0.entities[pi as int],
                point_in_range(pv.pos),
                pv.player_id != 0,
                p_pos == pv.pos,
                p_pid == pv.player_id,
                p_color == pv.color,
                spawns.deep_view() == s0.spawns + spec_debris_spawns(pv, *dkind, count).subrange(
                    0,
                    j as int,
                ),
                forall|q: int|
                    0 <= q < spawns@.len() ==> crate::game::create_info_wf(
                        (#[trigger] spawns.deep_view()[q]).0,
                    ) && spawns.deep_view()[q].1 != 0,
                spawns@.len() == s0.spawns.len() + j,
            decreases count - j,
        {
            let rot = crate::math::from_turn_fraction(j as u64, count as u64);
            let dk: ProjectileKind = match &debris {
                Option::Some(d) => d.clone_kind(),
                Option::None => {
                    proof {
                        assert(false);
                    }
                    return false;
                },
            };
            let info = EntityCreateInfo {
                pos: p_pos,
                rot,
                color: p_color,
                role: EntityRole::Projectile { kind: dk },
                tail: Option::Some(
                    EntityTail { end: p_pos, rotation: rot, reflection_points: Vec::new() },
                ),
            };
            let ghost spawns_pre = spawns.deep_view();
            spawns.push((info, p_pid));
            proof {
                assert(info.deep_view().tail.unwrap().reflection_points =~= Seq::<
                    Point,
                >::empty());
                assert(info.deep_view() =~~= spec_debris_spawns(pv, *dkind, count).index(
                    j as int,
                ).0);
                assert(crate::game::create_info_wf(info.deep_view()));
                assert(spawns.deep_view() =~= spawns_pre.push((info.deep_view(), p_pid)));
                assert(spec_debris_spawns(pv, *dkind, count).subrange(0, j + 1)
                    =~= spec_debris_spawns(pv, *dkind, count).subrange(0, j as int).push(
                    spec_debris_spawns(pv, *dkind, count)[j as int],
                ));
                assert(spawns.deep_view() =~~= s0.spawns + spec_debris_spawns(
                    pv,
                    *dkind,
                    count,
                ).subrange(0, j + 1));
            }
            j = j + 1;
        }
        proof {
            assert(spec_debris_spawns(pv, *dkind, count).subrange(0, count as int)
                =~= spec_debris_spawns(pv, *dkind, count));
        }
        gs.kills.push(p_id);
        proof {
            let r = spec_interact(s0, ci as int, pi as int, now_ms, dt_ms);
            assert(spawns.deep_view() =~~= r.0.spawns);
            assert(gs.kills@ =~= r.0.kills);
            assert(gs.deep_view().entities =~= r.0.entities);
        }
        return true;
    }
    if repel {
        let mut acc_k: i64 = 0;
        match &gs.entities[pi].role {
            EntityRole::Projectile { kind } => match kind {
                ProjectileKind::Mine { acceleration, .. } => {
                    acc_k = *acceleration;
                },
                _ => {
                    proof {
                        assert(false);
                    }
                },
            },
            _ => {
                proof {
                    assert(false);
                }
            },
        }
        let push_vec: Vector;
        if d2 == 0 {
            push_vec = Vector { x: 0, y: 0 };
        } else {
            proof {
                assert(-0x2000000000000 <= -2 * acc_k * dt_ms <= 0x2000000000000)
                    by (nonlinear_arith)
                    requires
                        -1000000 <= acc_k <= 1000000,
                        0 <= dt_ms <= 1000000,
                ;
                crate::math::lemma_div_trunc_shrinks(-2 * acc_k * dt_ms, 1000);
            }
            let kf: i64 = crate::math::div_trunc_i64(-2 * acc_k as i64 * dt_ms as i64, 1000);
            let l: u64 = crate::math::isqrt_u64(d2 as u64);
            proof {
                crate::math::lemma_isqrt_bounds(d2 as nat);
                if l == 0 {
                    assert((crate::math::spec_isqrt(d2 as nat) + 1) * (crate::math::spec_isqrt(
                        d2 as nat,
                    ) + 1) == 1) by (nonlinear_arith)
                        requires
                            crate::math::spec_isqrt(d2 as nat) == 0,
                    ;
                    assert(false);
                }
                if dx >= 0 {
                    crate::math::lemma_isqrt_ge_root(dx as nat, d2 as nat);
                } else {
                    assert((-dx) * (-dx) == dx * dx) by (nonlinear_arith);
                    crate::math::lemma_isqrt_ge_root((-dx) as nat, d2 as nat);
                }
                if dy >= 0 {
                    crate::math::lemma_isqrt_ge_root(dy as nat, d2 as nat);
                } else {
                    assert((-dy) * (-dy) == dy * dy) by (nonlinear_arith);
                    crate::math::lemma_isqrt_ge_root((-dy) as nat, d2 as nat);
                }
                assert(dx * dx <= d2 && dy * dy <= d2) by (nonlinear_arith)
                    requires
                        d2 == dx * dx + dy * dy,
                ;
                crate::math::lemma_ratio_div_bound(
                    dx as int,
                    kf as int,
                    l as int,
                    0x2000000000000,
                );
                crate::math::lemma_ratio_div_bound(
                    dy as int,
                    kf as int,
                    l as int,
                    0x2000000000000,
                );
            }
            let px: i128 = crate::math::div_trunc_i128(dx as i128 * kf as i128, l as i128);
            let py: i128 = crate::math::div_trunc_i128(dy as i128 * kf as i128, l as i128);
            push_vec = Vector { x: px as i64, y: py as i64 };
        }
        proof {
            assert(push_vec == spec_repulse(c_pos, p_pos, acc_k, dt_ms));
        }
        let newpos = c_pos.add_clamped(push_vec);
        set_entity_pos(&mut gs.entities, ci, newpos);
        proof {
            let r = spec_interact(s0, ci as int, pi as int, now_ms, dt_ms);
            assert(gs.deep_view().entities =~= r.0.entities);
        }
        return false;
    }
    proof {
        let r = spec_interact(s0, ci as int, pi as int, now_ms, dt_ms);
        assert(r.1 == false);
        assert(gs.deep_view().entities =~= r.0.entities);
    }
    false
}


impl GameState {
    /// The damage-resolution pass of one tick: every character is scanned
    /// against every other entity in order, with at most one damage event per
    /// character; detonating mines report the debris to materialize.
    pub fn resolve_damage(&mut self, now_ms: u64, dt_ms: u64) -> (spawns: Vec<
        (EntityCreateInfo, u64),
    >)
        requires
            old(self).wf(),
            dt_ms <= DT_LIMIT,
        ensures
            ({
                let d0 = DamageStateV {
                    entities: old(self).deep_view().entities,
                    kills: old(self).kills@,
                    spawns: Seq::empty(),
                };
                let d = spec_damage_outer(
                    d0,
                    0,
                    old(self).entities@.len() as int,
                    now_ms,
                    dt_ms,
                );
                &&& final(self).deep_view().entities == d.entities
                &&& final(self).kills@ == d.kills
                &&& spawns.deep_view() == d.spawns
            }),
            final(self).entities@.len() == old(self).entities@.len(),
            final(self).world_bounds == old(self).world_bounds,
            final(self).next_entity_id == old(self).next_entity_id,
            final(self).wf(),
            forall|j: int|
                0 <= j < spawns@.len() ==> crate::game::create_info_wf(
                    (#[trigger] spawns.deep_view()[j]).0,
                ) && spawns.deep_view()[j].1 != 0,
            spawns@.len() <= 255 * old(self).entities@.len(),
    {
        let ghost d0 = DamageStateV {
            entities: self.deep_view().entities,
            kills: self.kills@,
            spawns: Seq::<(CreateInfoV, u64)>::empty(),
        };
        let n: usize = self.entities.len();
        let mut spawns: Vec<(EntityCreateInfo, u64)> = Vec::new();
        proof {
            assert(spawns.deep_view() =~= Seq::<(CreateInfoV, u64)>::empty());
        }
        let mut ci: usize = 0;
        while ci < n
            invariant
                0 <= ci <= n,
                n == self.entities@.len(),
                dt_ms <= DT_LIMIT,
                old(self).wf(),
                self.world_bounds == old(self).world_bounds,
                self.next_entity_id == old(self).next_entity_id,
                forall|j: int|
                    0 <= j < n ==> entity_wf(#[trigger] self.deep_view().entities[j]),
                forall|j: int|
                    0 <= j < n ==> (#[trigger] self.deep_view().entities[j]).id == old(
                        self,
                    ).deep_view().entities[j].id,
                forall|j: int|
                    0 <= j < spawns@.len() ==> crate::game::create_info_wf(
                        (#[trigger] spawns.deep_view()[j]).0,
                    ) && spawns.deep_view()[j].1 != 0,
                spawns@.len() <= 255 * ci,
                (d0 == DamageStateV {
                    entities: old(self).deep_view().entities,
                    kills: old(self).kills@,
                    spawns: Seq::<(CreateInfoV, u64)>::empty(),
                }),
                spec_damage_outer(d0, 0, n as int, now_ms, dt_ms) == spec_damage_outer(
                    DamageStateV {
                        entities: self.deep_view().entities,
                        kills: self.kills@,
                        spawns: spawns.deep_view(),
                    },
                    ci as int,
                    n as int,
                    now_ms,
                    dt_ms,
                ),
            decreases n - ci,
        {
            let ghost cur0 = DamageStateV {
                entities: self.deep_view().entities,
                kills: self.kills@,
                spawns: spawns.deep_view(),
            };
            let is_char: bool = match self.entities[ci].role {
                EntityRole::Character { .. } => true,
                EntityRole::Projectile { .. } => false,
            };
            if is_char {
                let mut pi: usize = 0;
                let mut done: bool = false;
                let ghost base_len = spawns@.len();
                while pi < n && !done
                    invariant
                        0 <= pi <= n,
                        ci < n,
                        n == self.entities@.len(),
                        dt_ms <= DT_LIMIT,
                        self.world_bounds == old(self).world_bounds,
                        self.next_entity_id == old(self).next_entity_id,
                        forall|j: int|
                            0 <= j < n ==> entity_wf(#[trigger] self.deep_view().entities[j]),
                        forall|j: int|
                            0 <= j < n ==> (#[trigger] self.deep_view().entities[j]).id == old(
                                self,
                            ).deep_view().entities[j].id,
                        forall|j: int|
                            0 <= j < spawns@.len() ==> crate::game::create_info_wf(
                                (#[trigger] spawns.deep_view()[j]).0,
                            ) && spawns.deep_view()[j].1 != 0,
                        base_len <= 255 * ci,
                        !done ==> spawns@.len() == base_len,
                        done ==> spawns@.len() <= base_len + 255,
                        !done ==> spec_damage_inner(cur0, ci as int, 0, n as int, now_ms, dt_ms)
                            == spec_damage_inner(
                            DamageStateV {
                                entities: self.deep_view().entities,
                                kills: self.kills@,
                                spawns: spawns.deep_view(),
                            },
                            ci as int,
                            pi as int,
                            n as int,
                            now_ms,
                            dt_ms,
                        ),
                        done ==> spec_damage_inner(cur0, ci as int, 0, n as int, now_ms, dt_ms)
                            == (DamageStateV {
                            entities: self.deep_view().entities,
                            kills: self.kills@,
                            spawns: spawns.deep_view(),
                        }),
                    decreases n - pi,
                {
                    if pi != ci {
                        let ghost pre = DamageStateV {
                            entities: self.deep_view().entities,
                            kills: self.kills@,
                            spawns: spawns.deep_view(),
                        };
                        let brk: bool = interact_pair(self, &mut spawns, ci, pi, now_ms, dt_ms);
                        proof {
                            let post = DamageStateV {
                                entities: self.deep_view().entities,
                                kills: self.kills@,
                                spawns: spawns.deep_view(),
                            };
                            assert(spec_interact(pre, ci as int, pi as int, now_ms, dt_ms) == (
                            post, brk)) by {
                                assert(spec_interact(pre, ci as int, pi as int, now_ms, dt_ms).0
                                    =~~= post);
                            };
                            assert(spec_damage_inner(pre, ci as int, pi as int, n as int, now_ms, dt_ms)
                                == if brk {
                                post
                            } else {
                                spec_damage_inner(post, ci as int, pi + 1, n as int, now_ms, dt_ms)
                            });
                        }
                        if brk {
                            done = true;
                        }
                    }
                    pi = pi + 1;
                }
                proof {
                    let cur1 = DamageStateV {
                        entities: self.deep_view().entities,
                        kills: self.kills@,
                        spawns: spawns.deep_view(),
                    };
                    assert(spec_damage_inner(cur0, ci as int, 0, n as int, now_ms, dt_ms) == cur1);
                    assert(cur0.entities[ci as int].role is Character);
                    assert(spec_damage_outer(cur0, ci as int, n as int, now_ms, dt_ms)
                        == spec_damage_outer(cur1, ci + 1, n as int, now_ms, dt_ms));
                }
            } else {
                proof {
                    assert(!(cur0.entities[ci as int].role is Character));
                    assert(spec_damage_outer(cur0, ci as int, n as int, now_ms, dt_ms)
                        == spec_damage_outer(cur0, ci + 1, n as int, now_ms, dt_ms));
                }
            }
            ci = ci + 1;
        }
        proof {
            let curf = DamageStateV {
                entities: self.deep_view().entities,
                kills: self.kills@,
                spawns: spawns.deep_view(),
            };
            assert(spec_damage_outer(curf, n as int, n as int, now_ms, dt_ms) == curf);
        }
        spawns
    }
}


/// The shield segments of every character currently wielding a shield, in
/// entity order.
pub open spec fn spec_shields_of(s: Seq<EntityV>) -> Seq<Segment>
    decreases s.len(),
{
    if s.len() == 0 {
        Seq::empty()
    } else {
        let rest = spec_shields_of(s.drop_first());
        match s[0].role {
            EntityRole::Character { weapon: crate::game::CharacterWeapon::Shield { shield, .. } } => 
                seq![crate::game::spec_shield_segment(shield, s[0].pos, s[0].rot)] + rest,
            _ => rest,
        }
    }
}

/// The first occurrence of a value removed from a sequence; the sequence
/// unchanged when the value does not occur.
pub open spec fn spec_remove_first(s: Seq<u32>, x: u32) -> Seq<u32>
    decreases s.len(),
{
    if s.len() == 0 {
        s
    } else if s[0] == x {
        s.drop_first()
    } else {
        seq![s[0]] + spec_remove_first(s.drop_first(), x)
    }
}

/// Removing the least occurrence by index is removing the first occurrence.
proof fn lemma_remove_first_at(s: Seq<u32>, x: u32, idx: int)
    requires
        0 <= idx < s.len(),
        s[idx] == x,
        forall|j: int| 0 <= j < idx ==> s[j] != x,
    ensures
        s.remove(idx) =~= spec_remove_first(s, x),
    decreases idx,
{
    if idx == 0 {
        assert(s.remove(0) =~= s.drop_first());
    } else {
        lemma_remove_first_at(s.drop_first(), x, idx - 1);
        assert(s.remove(idx) =~= seq![s[0]] + s.drop_first().remove(idx - 1));
    }
}

/// The sweep pass: remove, front to back, every projectile whose id stands in
/// the kill queue, discharging one kill record per removed projectile.
/// Characters are exempt: their removal is the connection handler's duty.
pub open spec fn spec_sweep(entities: Seq<EntityV>, kills: Seq<u32>) -> (Seq<EntityV>, Seq<u32>)
    decreases entities.len(),
{
    if entities.len() == 0 {
        (entities, kills)
    } else {
        let e = entities[0];
        if e.role is Projectile && kills.contains(e.id) {
            spec_sweep(entities.drop_first(), spec_remove_first(kills, e.id))
        } else {
            let r = spec_sweep(entities.drop_first(), kills);
            (seq![e] + r.0, r.1)
        }
    }
}

/// The account pass for one player: remove, front to back, every character of
/// that player whose id stands in the kill queue, discharging the records.
pub open spec fn spec_account(entities: Seq<EntityV>, kills: Seq<u32>, player_id: u64) -> (
    Seq<EntityV>,
    Seq<u32>,
)
    decreases entities.len(),
{
    if entities.len() == 0 {
        (entities, kills)
    } else {
        let e = entities[0];
        if crate::game::spec_is_character_of(e, player_id) && kills.contains(e.id) {
            spec_account(entities.drop_first(), spec_remove_first(kills, e.id), player_id)
        } else {
            let r = spec_account(entities.drop_first(), kills, player_id);
            (seq![e] + r.0, r.1)
        }
    }
}

/// Materializing the collected debris spawns, in order, each getting the next
/// id.
pub open spec fn spec_create_all(
    entities: Seq<EntityV>,
    next_id: u32,
    spawns: Seq<(CreateInfoV, u64)>,
    now: u64,
) -> (Seq<EntityV>, u32)
    decreases spawns.len(),
{
    if spawns.len() == 0 {
        (entities, next_id)
    } else {
        spec_create_all(
            entities.push(
                crate::game::spec_created_entity(spawns[0].0, spawns[0].1, next_id, now),
            ),
            (next_id + 1) as u32,
            spawns.drop_first(),
            now,
        )
    }
}

/// One authoritative simulation tick.
pub open spec fn spec_proceed(g: crate::game::GameStateV, now: u64, dt: u64) -> crate::game::GameStateV {
    let shields = spec_shields_of(g.entities);
    let advanced = spec_advance_all(g.entities, now, dt, g.world_bounds, shields);
    let d = spec_damage_outer(
        DamageStateV { entities: advanced, kills: g.kills, spawns: Seq::empty() },
        0,
        advanced.len() as int,
        now,
        dt,
    );
    let swept = spec_sweep(d.entities, d.kills);
    let created = spec_create_all(swept.0, g.next_entity_id, d.spawns, now);
    crate::game::GameStateV {
        entities: created.0,
        world_bounds: g.world_bounds,
        next_entity_id: created.1,
        kills: swept.1,
    }
}

/// Remove the first occurrence of an id from the kill queue.
fn remove_first_kill(kills: &mut Vec<u32>, id: u32)
    requires
        old(kills)@.contains(id),
    ensures
        final(kills)@ == spec_remove_first(old(kills)@, id),
{
    let mut i: usize = 0;
    while i < kills.len()
        invariant
            0 <= i <= kills@.len(),
            kills@ == old(kills)@,
            old(kills)@.contains(id),
            forall|j: int| 0 <= j < i ==> kills@[j] != id,
        decreases kills@.len() - i,
    {
        if kills[i] == id {
            proof {
                lemma_remove_first_at(kills@, id, i as int);
            }
            kills.remove(i);
            return ;
        }
        i = i + 1;
    }
    proof {
        let w = choose|w: int| 0 <= w < kills@.len() && kills@[w] == id;
        assert(false);
    }
}

impl GameState {
    /// Collect the shield segment of every character currently wielding a
    /// shield.
    pub fn collect_shields(&self) -> (r: Vec<Segment>)
        requires
            self.wf(),
        ensures
            r@ == spec_shields_of(self.deep_view().entities),
            forall|i: int| 0 <= i < r@.len() ==> segment_in_range(#[trigger] r@[i]),
    {
        let ghost ents0 = self.deep_view().entities;
        let mut out: Vec<Segment> = Vec::new();
        let mut i: usize = 0;
        let n: usize = self.entities.len();
        proof {
            assert(ents0.skip(0) =~= ents0);
            assert(out@ + spec_shields_of(ents0) =~= spec_shields_of(ents0));
        }
        while i < n
            invariant
                0 <= i <= n,
                n == self.entities@.len(),
                self.wf(),
                ents0 == self.deep_view().entities,
                spec_shields_of(ents0) == out@ + spec_shields_of(ents0.skip(i as int)),
                forall|j: int| 0 <= j < out@.len() ==> segment_in_range(#[trigger] out@[j]),
            decreases n - i,
        {
            let ghost out_pre = out@;
            proof {
                assert(ents0.skip(i as int).drop_first() =~= ents0.skip(i + 1));
                assert(ents0.skip(i as int)[0] == ents0[i as int]);
                assert(entity_wf(ents0[i as int]));
            }
            let e = &self.entities[i];
            match &e.role {
                EntityRole::Character { weapon } => {
                    match weapon {
                        crate::game::CharacterWeapon::Shield { shield, .. } => {
                            let seg = shield.segment(e.pos, e.rot);
                            out.push(seg);
                        },
                        _ => {},
                    }
                },
                EntityRole::Projectile { .. } => {},
            }
            proof {
                assert(out@ + spec_shields_of(ents0.skip(i + 1)) =~= out_pre + spec_shields_of(
                    ents0.skip(i as int),
                ));
            }
            i = i + 1;
        }
        proof {
            assert(ents0.skip(n as int) =~= Seq::<EntityV>::empty());
            assert(out@ + spec_shields_of(ents0.skip(n as int)) =~= out@);
        }
        out
    }

    /// The sweep pass of one tick: remove every condemned projectile and
    /// discharge its kill record.
    pub fn sweep_kills(&mut self)
        requires
            old(self).wf(),
        ensures
            ({
                let r = spec_sweep(old(self).deep_view().entities, old(self).kills@);
                &&& final(self).deep_view().entities == r.0
                &&& final(self).kills@ == r.1
            }),
            final(self).world_bounds == old(self).world_bounds,
            final(self).next_entity_id == old(self).next_entity_id,
            final(self).wf(),
    {
        let ghost ents0 = self.deep_view().entities;
        let ghost kills0 = self.kills@;
        let mut out: Vec<Entity> = Vec::new();
        let mut i: usize = 0;
        let n: usize = self.entities.len();
        proof {
            assert(ents0.skip(0) =~= ents0);
            assert(out.deep_view() + spec_sweep(ents0, kills0).0 =~= spec_sweep(ents0, kills0).0);
        }
        while i < n
            invariant
                0 <= i <= n,
                n == self.entities@.len(),
                old(self).wf(),
                ents0 == self.deep_view().entities,
                self.entities@ == old(self).entities@,
                self.world_bounds == old(self).world_bounds,
                self.next_entity_id == old(self).next_entity_id,
                spec_sweep(ents0, kills0).0 == out.deep_view() + spec_sweep(
                    ents0.skip(i as int),
                    self.kills@,
                ).0,
                spec_sweep(ents0, kills0).1 == spec_sweep(ents0.skip(i as int), self.kills@).1,
                forall|j: int|
                    0 <= j < out.deep_view().len() ==> entity_wf(#[trigger] out.deep_view()[j]),
                forall|j: int|
                    0 <= j < out.deep_view().len() ==> exists|k: int|
                        0 <= k < i && (#[trigger] out.deep_view()[j].id) == ents0[k].id,
                forall|j1: int, j2: int|
                    0 <= j1 < out.deep_view().len() && 0 <= j2 < out.deep_view().len() && j1 != j2
                        ==> #[trigger] out.deep_view()[j1].id != #[trigger] out.deep_view()[j2].id,
                out.deep_view().len() <= i,
            decreases n - i,
        {
            let ghost out_pre = out.deep_view();
            proof {
                assert(ents0.skip(i as int).drop_first() =~= ents0.skip(i + 1));
                assert(ents0.skip(i as int)[0] == ents0[i as int]);
            }
            let is_proj: bool = match self.entities[i].role {
                EntityRole::Projectile { .. } => true,
                EntityRole::Character { .. } => false,
            };
            let id: u32 = self.entities[i].id;
            if is_proj && self.kill_registered(id) {
                let ghost kills_pre = self.kills@;
                remove_first_kill(&mut self.kills, id);
                proof {
                    assert(spec_sweep(ents0.skip(i as int), kills_pre) == spec_sweep(
                        ents0.skip(i + 1),
                        self.kills@,
                    ));
                    assert(out.deep_view() + spec_sweep(ents0.skip(i + 1), self.kills@).0
                        =~= out_pre + spec_sweep(ents0.skip(i as int), kills_pre).0);
                }
            } else {
                let ne = self.entities[i].clone_entity();
                out.push(ne);
                proof {
                    assert(out.deep_view() =~= out_pre.push(ents0[i as int]));
                    assert(out.deep_view() + spec_sweep(ents0.skip(i + 1), self.kills@).0
                        =~= out_pre + spec_sweep(ents0.skip(i as int), self.kills@).0);
                }
            }
            i = i + 1;
        }
        proof {
            assert(ents0.skip(n as int) =~= Seq::<EntityV>::empty());
            assert(out.deep_view() + spec_sweep(ents0.skip(n as int), self.kills@).0
                =~= out.deep_view());
        }
        self.entities = out;
    }

    /// Settle a killed character with its owning connection: when a character
    /// of this player stands condemned, remove it and its kill record and
    /// report success, so the session can mark the player dead.
    pub fn account_kill(&mut self, player_id: u64) -> (r: bool)
        requires
            old(self).wf(),
        ensures
            ({
                let a = spec_account(
                    old(self).deep_view().entities,
                    old(self).kills@,
                    player_id,
                );
                &&& final(self).deep_view().entities == a.0
                &&& final(self).kills@ == a.1
            }),
            final(self).world_bounds == old(self).world_bounds,
            final(self).next_entity_id == old(self).next_entity_id,
            final(self).wf(),
            r == (final(self).entities@.len() != old(self).entities@.len()),
    {
        let ghost ents0 = self.deep_view().entities;
        let ghost kills0 = self.kills@;
        let mut out: Vec<Entity> = Vec::new();
        let mut i: usize = 0;
        let n: usize = self.entities.len();
        proof {
            assert(ents0.skip(0) =~= ents0);
            assert(out.deep_view() + spec_account(ents0, kills0, player_id).0 =~= spec_account(
                ents0,
                kills0,
                player_id,
            ).0);
        }
        while i < n
            invariant
                0 <= i <= n,
                n == self.entities@.len(),
                old(self).wf(),
                ents0 == self.deep_view().entities,
                self.entities@ == old(self).entities@,
                self.world_bounds == old(self).world_bounds,
                self.next_entity_id == old(self).next_entity_id,
                spec_account(ents0, kills0, player_id).0 == out.deep_view() + spec_account(
                    ents0.skip(i as int),
                    self.kills@,
                    player_id,
                ).0,
                spec_account(ents0, kills0, player_id).1 == spec_account(
                    ents0.skip(i as int),
                    self.kills@,
                    player_id,
                ).1,
                forall|j: int|
                    0 <= j < out.deep_view().len() ==> entity_wf(#[trigger] out.deep_view()[j]),
                forall|j: int|
                    0 <= j < out.deep_view().len() ==> exists|k: int|
                        0 <= k < i && (#[trigger] out.deep_view()[j].id) == ents0[k].id,
                forall|j1: int, j2: int|
                    0 <= j1 < out.deep_view().len() && 0 <= j2 < out.deep_view().len() && j1 != j2
                        ==> #[trigger] out.deep_view()[j1].id != #[trigger] out.deep_view()[j2].id,
                out.deep_view().len() <= i,
            decreases n - i,
        {
            let ghost out_pre = out.deep_view();
            proof {
                assert(ents0.skip(i as int).drop_first() =~= ents0.skip(i + 1));
                assert(ents0.skip(i as int)[0] == ents0[i as int]);
            }
            let is_char: bool = match self.entities[i].role {
                EntityRole::Character { .. } => true,
                EntityRole::Projectile { .. } => false,
            };
            let id: u32 = self.entities[i].id;
            let pid: u64 = self.entities[i].player_id;
            if is_char && pid == player_id && self.kill_registered(id) {
                let ghost kills_pre = self.kills@;
                remove_first_kill(&mut self.kills, id);
                proof {
                    assert(spec_account(ents0.skip(i as int), kills_pre, player_id)
                        == spec_account(ents0.skip(i + 1), self.kills@, player_id));
                    assert(out.deep_view() + spec_account(
                        ents0.skip(i + 1),
                        self.kills@,
                        player_id,
                    ).0 =~= out_pre + spec_account(
                        ents0.skip(i as int),
                        kills_pre,
                        player_id,
                    ).0);
                }
            } else {
                let ne = self.entities[i].clone_entity();
                out.push(ne);
                proof {
                    assert(out.deep_view() =~= out_pre.push(ents0[i as int]));
                    assert(out.deep_view() + spec_account(
                        ents0.skip(i + 1),
                        self.kills@,
                        player_id,
                    ).0 =~= out_pre + spec_account(ents0.skip(i as int), self.kills@, player_id).0);
                }
            }
            i = i + 1;
        }
        proof {
            assert(ents0.skip(n as int) =~= Seq::<EntityV>::empty());
            assert(out.deep_view() + spec_account(ents0.skip(n as int), self.kills@, player_id).0
                =~= out.deep_view());
        }
        let changed: bool = out.len() != self.entities.len();
        self.entities = out;
        changed
    }

    /// One authoritative simulation tick: collect shields, move and expire
    /// projectiles, resolve damage, sweep condemned projectiles, and
    /// materialize the debris of detonated mines.
    pub fn proceed(&mut self, now_ms: u64, dt_ms: u64)
        requires
            old(self).wf(),
            dt_ms <= DT_LIMIT,
            old(self).next_entity_id + 255 * old(self).entities@.len() <= u32::MAX,
        ensures
            final(self).deep_view() == spec_proceed(old(self).deep_view(), now_ms, dt_ms),
            final(self).wf(),
    {
        let ghost g0 = self.deep_view();
        let shields = self.collect_shields();
        self.advance_projectiles(now_ms, dt_ms, &shields);
        let spawns = self.resolve_damage(now_ms, dt_ms);
        self.sweep_kills();
        let ghost swept_entities = self.deep_view().entities;
        let ghost swept_kills = self.kills@;
        let ghost next0 = self.next_entity_id;
        let mut k: usize = 0;
        let m: usize = spawns.len();
        proof {
            assert(spawns.deep_view().skip(0) =~= spawns.deep_view());
        }
        while k < m
            invariant
                0 <= k <= m,
                m == spawns@.len(),
                self.wf(),
                self.world_bounds == old(self).world_bounds,
                self.kills@ == swept_kills,
                self.next_entity_id == next0 + k,
                next0 + m <= u32::MAX,
                forall|j: int|
                    0 <= j < spawns@.len() ==> crate::game::create_info_wf(
                        (#[trigger] spawns.deep_view()[j]).0,
                    ) && spawns.deep_view()[j].1 != 0,
                spec_create_all(swept_entities, next0, spawns.deep_view(), now_ms)
                    == spec_create_all(
                    self.deep_view().entities,
                    self.next_entity_id,
                    spawns.deep_view().skip(k as int),
                    now_ms,
                ),
            decreases m - k,
        {
            proof {
                assert(spawns.deep_view().skip(k as int).drop_first() =~= spawns.deep_view().skip(
                    k + 1,
                ));
                assert(spawns.deep_view().skip(k as int)[0] == spawns.deep_view()[k as int]);
            }
            let info = spawns[k].0.clone_info();
            let pid: u64 = spawns[k].1;
            self.create(info, pid, now_ms);
            k = k + 1;
        }
        proof {
            assert(spawns.deep_view().skip(m as int) =~= Seq::<(CreateInfoV, u64)>::empty());
            assert(self.deep_view() =~~= spec_proceed(g0, now_ms, dt_ms));
        }
    }
}


/// Reflection law for the world bounds: when no shield is in the way and the
/// motion segment strictly crosses the top world-bound edge, the reflected
/// rotation's vertical component comes out non-negative -- the mover bounces
/// downward. The same holds for the full motion step.
pub proof fn lemma_top_edge_reflects_down(
    pos: Point,
    rot: Complex,
    bounds: Rect,
    shields: Seq<Segment>,
    velocity: i64,
    dt_ms: u64,
)
    requires
        rot_in_range(rot),
        ({
            let motion = spec_motion_segment(pos, rot, velocity, dt_ms);
            &&& first_shield_hit(shields, motion) < 0
            &&& spec_strict_hit(spec_rect_edges(bounds)[0], motion)
        }),
    ensures
        ({
            let motion = spec_motion_segment(pos, rot, velocity, dt_ms);
            let r = spec_reflect(pos, rot, bounds, shields, motion);
            &&& r.2
            &&& r.1.i >= 0
        }),
        spec_step(pos, rot, bounds, shields, velocity, dt_ms).1.i >= 0,
{
    let motion = spec_motion_segment(pos, rot, velocity, dt_ms);
    assert(first_edge_hit(bounds, motion) == 0);
}

/// Kill accounting law: when a ball projectile with one health point lands a
/// hit on a character with one health point, the damage pass queues both for
/// removal exactly once -- the kill queue gains exactly their two ids -- and
/// running the damage pass again before the sweep changes nothing, because
/// both sides are already at zero health.
pub proof fn lemma_mutual_kill_once(s: DamageStateV, now: u64, dt: u64)
    requires
        s.entities.len() == 2,
        s.entities[0].role is Character,
        s.entities[1].role matches EntityRole::Projectile { kind: ProjectileKind::Ball { .. } },
        s.entities[0].health == 1,
        s.entities[1].health == 1,
        spec_interact(s, 0, 1, now, dt).1,
        s.entities[0].id != s.entities[1].id,
        !s.kills.contains(s.entities[0].id),
        !s.kills.contains(s.entities[1].id),
    ensures
        ({
            let d = spec_damage_outer(s, 0, 2, now, dt);
            &&& d.kills == s.kills.push(s.entities[0].id).push(s.entities[1].id)
            &&& d.entities[0].health == 0
            &&& d.entities[1].health == 0
            &&& d.entities.len() == 2
            &&& spec_damage_outer(d, 0, 2, now, dt) == d
        }),
{
    let r = spec_interact(s, 0, 1, now, dt);
    assert(r.0 == spec_apply_hit(s, 0, 1));
    let d1 = r.0;
    assert(spec_damage_inner(s, 0, 1, 2, now, dt) == d1);
    assert(spec_damage_inner(s, 0, 0, 2, now, dt) == d1);
    assert(spec_damage_outer(d1, 1, 2, now, dt) == spec_damage_outer(d1, 2, 2, now, dt));
    assert(spec_damage_outer(s, 0, 2, now, dt) == d1);
    let r2 = spec_interact(d1, 0, 1, now, dt);
    assert(r2 == (d1, false));
    assert(spec_damage_inner(d1, 0, 2, 2, now, dt) == d1);
    assert(spec_damage_inner(d1, 0, 1, 2, now, dt) == d1);
    assert(spec_damage_inner(d1, 0, 0, 2, now, dt) == d1);
    assert(spec_damage_outer(d1, 0, 2, now, dt) == d1);
}

} // verus!
