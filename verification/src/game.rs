use vstd::prelude::*;

use crate::math::COORD_LIMIT;
use crate::math::Complex;
use crate::math::Point;
use crate::math::Rect;
use crate::math::ROT_ONE;
use crate::math::Segment;
use crate::math::VEL_LIMIT;
use crate::math::Vector;
use crate::math::point_in_range;
use crate::math::rect_wf;
use crate::math::rot_in_range;
use crate::rng::draw_random_u64;

verus! {

/// An RGBA color.
#[derive(Clone, Copy, PartialEq, Eq, Structural, Debug)]
pub struct Color {
    pub a: u8,
    pub r: u8,
    pub g: u8,
    pub b: u8,
}

impl Color {
    pub fn with_a(self, a: u8) -> (r: Self)
        ensures
            r.a == a,
            r.r == self.r,
            r.g == self.g,
            r.b == self.b,
    {
        Self { a, r: self.r, g: self.g, b: self.b }
    }

    pub fn with_r(self, r: u8) -> (res: Self)
        ensures
            res.a == self.a,
            res.r == r,
            res.g == self.g,
            res.b == self.b,
    {
        Self { a: self.a, r, g: self.g, b: self.b }
    }
}

/// A shield held in front of a character: a segment at a fixed distance, of a
/// fixed width.
#[derive(Clone, Copy, PartialEq, Eq, Structural, Debug)]
pub struct Shield {
    pub width: i64,
    pub dst_from_character: i64,
}

pub open spec fn shield_wf(s: Shield) -> bool {
    0 <= s.width <= COORD_LIMIT && 0 <= s.dst_from_character <= COORD_LIMIT
}

/// The segment a shield occupies: centered `dst_from_character` ahead of the
/// wielder, extending half the width to each side, perpendicular to the
/// facing.
pub open spec fn spec_shield_segment(s: Shield, pos: Point, rot: Complex) -> Segment {
    let c = spec_add_clamped(pos, Vector::spec_polar(rot, s.dst_from_character as int));
    let left = Complex { r: rot.i, i: (-rot.r) as i64 };
    let right = Complex { r: (-rot.i) as i64, i: rot.r };
    Segment {
        p0: spec_add_clamped(c, Vector::spec_polar(left, s.width as int / 2)),
        p1: spec_add_clamped(c, Vector::spec_polar(right, s.width as int / 2)),
    }
}

impl Shield {
    /// The world segment the shield occupies for a wielder at `pos` facing
    /// `rot`.
    pub fn segment(&self, character_pos: Point, character_rot: Complex) -> (r: Segment)
        requires
            shield_wf(*self),
            point_in_range(character_pos),
            rot_in_range(character_rot),
        ensures
            r == spec_shield_segment(*self, character_pos, character_rot),
            crate::math::segment_in_range(r),
    {
        let c = character_pos.add_clamped(Vector::polar(character_rot, self.dst_from_character));
        let left = character_rot.mul_neg_i();
        let right = character_rot.mul_i();
        let half: i64 = self.width / 2;
        Segment {
            p0: c.add_clamped(Vector::polar(left, half)),
            p1: c.add_clamped(Vector::polar(right, half)),
        }
    }
}

/// The weapon a character carries; each variant holds the parameters of the
/// projectiles it fires.
#[derive(PartialEq, Eq, Debug)]
pub enum CharacterWeapon {
    BallGun {
        life_duration_ms: u64,
        owner_invincibility_ms: u64,
        fire_interval_ms: u64,
        velocity: i64,
        projectile_health: u8,
        radius: i64,
    },
    RayGun {
        life_duration_ms: u64,
        owner_invincibility_ms: u64,
        tail_freeze_ms: u64,
        fire_interval_ms: u64,
        velocity: i64,
        projectile_health: u8,
    },
    Shield { shield: Shield, self_destruct_timeout_ms: u64 },
    MineGun {
        fire_interval_ms: u64,
        life_duration_ms: u64,
        owner_invincibility_ms: u64,
        activation_ms: u64,
        start_velocity: i64,
        acceleration: i64,
        radius: i64,
        detection_radius: i64,
        explosion_radius: i64,
        debris_kind: Box<ProjectileKind>,
        debris_count: u8,
    },
}

/// The kind of a projectile with its lifecycle parameters. A mine carries a
/// nested template for the debris it spawns on detonation.
#[derive(PartialEq, Eq, Debug)]
pub enum ProjectileKind {
    Ball {
        life_duration_ms: u64,
        owner_invincibility_ms: u64,
        velocity: i64,
        health: u8,
        radius: i64,
    },
    Ray {
        life_duration_ms: u64,
        owner_invincibility_ms: u64,
        tail_freeze_ms: u64,
        velocity: i64,
        health: u8,
    },
    Mine {
        life_duration_ms: u64,
        owner_invincibility_ms: u64,
        activation_ms: u64,
        velocity: i64,
        acceleration: i64,
        radius: i64,
        detection_radius: i64,
        explosion_radius: i64,
        debris_kind: Box<ProjectileKind>,
        debris_count: u8,
    },
}

pub open spec fn kind_wf(k: ProjectileKind) -> bool
    decreases k,
{
    match k {
        ProjectileKind::Ball { velocity, radius, .. } => {
            &&& -VEL_LIMIT <= velocity <= VEL_LIMIT
            &&& 0 <= radius <= COORD_LIMIT
        },
        ProjectileKind::Ray { velocity, .. } => -VEL_LIMIT <= velocity <= VEL_LIMIT,
        ProjectileKind::Mine {
            velocity,
            acceleration,
            radius,
            detection_radius,
            explosion_radius,
            debris_kind,
            ..
        } => {
            &&& -VEL_LIMIT <= velocity <= VEL_LIMIT
            &&& -VEL_LIMIT <= acceleration <= VEL_LIMIT
            &&& 0 <= radius <= COORD_LIMIT
            &&& 0 <= detection_radius <= COORD_LIMIT
            &&& 0 <= explosion_radius <= COORD_LIMIT
            &&& kind_wf(*debris_kind)
        },
    }
}

pub open spec fn weapon_wf(w: CharacterWeapon) -> bool {
    match w {
        CharacterWeapon::BallGun { velocity, radius, .. } => {
            &&& -VEL_LIMIT <= velocity <= VEL_LIMIT
            &&& 0 <= radius <= COORD_LIMIT
        },
        CharacterWeapon::RayGun { velocity, .. } => -VEL_LIMIT <= velocity <= VEL_LIMIT,
        CharacterWeapon::Shield { shield, .. } => shield_wf(shield),
        CharacterWeapon::MineGun {
            start_velocity,
            acceleration,
            radius,
            detection_radius,
            explosion_radius,
            debris_kind,
            ..
        } => {
            &&& -VEL_LIMIT <= start_velocity <= VEL_LIMIT
            &&& -VEL_LIMIT <= acceleration <= VEL_LIMIT
            &&& 0 <= radius <= COORD_LIMIT
            &&& 0 <= detection_radius <= COORD_LIMIT
            &&& 0 <= explosion_radius <= COORD_LIMIT
            &&& kind_wf(*debris_kind)
        },
    }
}

/// What an entity is: a player's character, or a projectile in flight.
#[derive(PartialEq, Eq, Debug)]
pub enum EntityRole {
    Character { weapon: CharacterWeapon },
    Projectile { kind: ProjectileKind },
}

pub open spec fn role_wf(r: EntityRole) -> bool {
    match r {
        EntityRole::Character { weapon } => weapon_wf(weapon),
        EntityRole::Projectile { kind } => kind_wf(kind),
    }
}

/// The receding visual trail of a ray projectile: its far end, the direction
/// the end travels, and the queue of points where the trail bent.
#[derive(PartialEq, Eq, Debug)]
pub struct EntityTail {
    pub end: Point,
    pub rotation: Complex,
    pub reflection_points: Vec<Point>,
}

/// Mathematical image of a tail.
#[verifier::ext_equal]
pub struct TailV {
    pub end: Point,
    pub rotation: Complex,
    pub reflection_points: Seq<Point>,
}

impl DeepView for Point {
    type V = Point;

    open spec fn deep_view(&self) -> Point {
        *self
    }
}

impl DeepView for EntityTail {
    type V = TailV;

    open spec fn deep_view(&self) -> TailV {
        TailV {
            end: self.end,
            rotation: self.rotation,
            reflection_points: self.reflection_points.deep_view(),
        }
    }
}

pub open spec fn tail_wf(t: TailV) -> bool {
    &&& point_in_range(t.end)
    &&& rot_in_range(t.rotation)
    &&& forall|i: int|
        0 <= i < t.reflection_points.len() ==> point_in_range(#[trigger] t.reflection_points[i])
}

/// One simulated object of the world.
#[derive(PartialEq, Eq, Debug)]
pub struct Entity {
    pub id: u32,
    pub player_id: u64,
    pub birth_ms: u64,
    pub pos: Point,
    pub rot: Complex,
    pub color: Color,
    pub role: EntityRole,
    pub health: u8,
    pub tail: Option<EntityTail>,
    pub activated: bool,
}

/// Mathematical image of an entity.
#[verifier::ext_equal]
pub struct EntityV {
    pub id: u32,
    pub player_id: u64,
    pub birth_ms: u64,
    pub pos: Point,
    pub rot: Complex,
    pub color: Color,
    pub role: EntityRole,
    pub health: u8,
    pub tail: Option<TailV>,
    pub activated: bool,
}

impl DeepView for Entity {
    type V = EntityV;

    open spec fn deep_view(&self) -> EntityV {
        EntityV {
            id: self.id,
            player_id: self.player_id,
            birth_ms: self.birth_ms,
            pos: self.pos,
            rot: self.rot,
            color: self.color,
            role: self.role,
            health: self.health,
            tail: match self.tail {
                Option::Some(t) => Option::Some(t.deep_view()),
                Option::None => Option::None,
            },
            activated: self.activated,
        }
    }
}

pub open spec fn entity_wf(e: EntityV) -> bool {
    &&& e.player_id != 0
    &&& point_in_range(e.pos)
    &&& rot_in_range(e.rot)
    &&& role_wf(e.role)
    &&& (e.role matches EntityRole::Projectile { kind: ProjectileKind::Ray { .. } } ==> e.tail
        is Some)
    &&& match e.tail {
        Option::Some(t) => tail_wf(t),
        Option::None => true,
    }
}

pub open spec fn spec_inscribed_circle_radius(e: EntityV) -> i64 {
    match e.role {
        EntityRole::Character { .. } => 8,
        EntityRole::Projectile { kind } => match kind {
            ProjectileKind::Ball { radius, .. } => radius,
            ProjectileKind::Ray { .. } => 2,
            ProjectileKind::Mine { radius, .. } => radius,
        },
    }
}

/// An offset vector rotated by a facing, rounded toward zero.
pub open spec fn spec_rotate_offset(ox: int, oy: int, rot: Complex) -> Vector {
    Vector {
        x: crate::math::div_trunc(ox * rot.r - oy * rot.i, ROT_ONE as int) as i64,
        y: crate::math::div_trunc(ox * rot.i + oy * rot.r, ROT_ONE as int) as i64,
    }
}

pub open spec fn spec_add_clamped(p: Point, v: Vector) -> Point {
    Point {
        x: crate::math::spec_clamp(p.x + v.x, -COORD_LIMIT as int, COORD_LIMIT as int) as i64,
        y: crate::math::spec_clamp(p.y + v.y, -COORD_LIMIT as int, COORD_LIMIT as int) as i64,
    }
}

/// The corners of an entity's oriented bounding box: a square of half-extent
/// 8, rotated by the facing.
pub open spec fn spec_vertices(pos: Point, rot: Complex) -> Seq<Point> {
    seq![
        spec_add_clamped(pos, spec_rotate_offset(-8, -8, rot)),
        spec_add_clamped(pos, spec_rotate_offset(8, -8, rot)),
        spec_add_clamped(pos, spec_rotate_offset(8, 8, rot)),
        spec_add_clamped(pos, spec_rotate_offset(-8, 8, rot)),
    ]
}

pub open spec fn spec_entity_lerp(a: EntityV, b: EntityV, num: int, den: int) -> EntityV {
    EntityV {
        id: b.id,
        player_id: b.player_id,
        birth_ms: b.birth_ms,
        pos: Point::spec_lerp_point(a.pos, b.pos, num, den),
        rot: Complex::spec_lerp_complex(a.rot, b.rot, num, den),
        color: b.color,
        role: b.role,
        health: b.health,
        tail: b.tail,
        activated: b.activated,
    }
}

/// Rotate a small box-corner offset by the entity facing.
fn rotate_offset(ox: i64, oy: i64, rot: Complex) -> (r: Vector)
    requires
        -16 <= ox <= 16,
        -16 <= oy <= 16,
        rot_in_range(rot),
    ensures
        r == spec_rotate_offset(ox as int, oy as int, rot),
        -0x100000 <= r.x <= 0x100000,
        -0x100000 <= r.y <= 0x100000,
{
    proof {
        assert(-0x80000 <= ox * rot.r <= 0x80000 && -0x80000 <= oy * rot.i <= 0x80000 && -0x80000
            <= ox * rot.i <= 0x80000 && -0x80000 <= oy * rot.r <= 0x80000) by (nonlinear_arith)
            requires
                -16 <= ox <= 16,
                -16 <= oy <= 16,
                -0x4000 <= rot.r <= 0x4000,
                -0x4000 <= rot.i <= 0x4000,
        ;
        crate::math::lemma_div_trunc_shrinks(ox * rot.r - oy * rot.i, ROT_ONE as int);
        crate::math::lemma_div_trunc_shrinks(ox * rot.i + oy * rot.r, ROT_ONE as int);
    }
    let x: i64 = crate::math::div_trunc_i64(ox * rot.r - oy * rot.i, ROT_ONE);
    let y: i64 = crate::math::div_trunc_i64(ox * rot.i + oy * rot.r, ROT_ONE);
    Vector { x, y }
}

/// The corners of an oriented bounding box of half-extent 8 at a position.
pub fn box_vertices(pos: Point, rot: Complex) -> (r: Vec<Point>)
    requires
        point_in_range(pos),
        rot_in_range(rot),
    ensures
        r@ == spec_vertices(pos, rot),
        r@.len() == 4,
        forall|i: int| 0 <= i < 4 ==> point_in_range(#[trigger] r@[i]),
{
    let mut v: Vec<Point> = Vec::new();
    v.push(pos.add_clamped(rotate_offset(-8, -8, rot)));
    v.push(pos.add_clamped(rotate_offset(8, -8, rot)));
    v.push(pos.add_clamped(rotate_offset(8, 8, rot)));
    v.push(pos.add_clamped(rotate_offset(-8, 8, rot)));
    proof {
        assert(v@ =~= spec_vertices(pos, rot));
    }
    v
}

impl Entity {
    /// The radius of the circle inscribed in the entity's shape, used by
    /// circle-distance collision checks.
    pub fn inscribed_circle_radius(&self) -> (r: i64)
        ensures
            r == spec_inscribed_circle_radius(self.deep_view()),
    {
        match &self.role {
            EntityRole::Character { .. } => 8,
            EntityRole::Projectile { kind } => match kind {
                ProjectileKind::Ball { radius, .. } => *radius,
                ProjectileKind::Ray { .. } => 2,
                ProjectileKind::Mine { radius, .. } => *radius,
            },
        }
    }

    /// The corners of the entity's oriented bounding box.
    pub fn vertices(&self) -> (r: Vec<Point>)
        requires
            point_in_range(self.pos),
            rot_in_range(self.rot),
        ensures
            r@ == spec_vertices(self.pos, self.rot),
            r@.len() == 4,
            forall|i: int| 0 <= i < 4 ==> point_in_range(#[trigger] r@[i]),
    {
        box_vertices(self.pos, self.rot)
    }

    /// Interpolation between two observed states of one entity: position and
    /// rotation blend at `num / den`, everything else comes from `b`.
    pub fn lerp(a: Self, b: Self, num: i64, den: i64) -> (r: Self)
        requires
            0 < den <= 0x4000000000000,
            0 <= num <= den,
            point_in_range(a.pos),
            point_in_range(b.pos),
            rot_in_range(a.rot),
            rot_in_range(b.rot),
        ensures
            r.deep_view() == spec_entity_lerp(a.deep_view(), b.deep_view(), num as int, den as int),
            num == 0 ==> r.pos == a.pos && r.rot == a.rot,
            num == den ==> r.pos == b.pos && r.rot == b.rot,
    {
        let pos = Point::lerp(a.pos, b.pos, num, den);
        let rot = Complex::lerp(a.rot, b.rot, num, den);
        Entity {
            id: b.id,
            player_id: b.player_id,
            birth_ms: b.birth_ms,
            pos,
            rot,
            color: b.color,
            role: b.role,
            health: b.health,
            tail: b.tail,
            activated: b.activated,
        }
    }

    /// Deep copy with a contract: the clone's image equals the original's.
    pub fn clone_entity(&self) -> (r: Self)
        ensures
            r.deep_view() == self.deep_view(),
    {
        Entity {
            id: self.id,
            player_id: self.player_id,
            birth_ms: self.birth_ms,
            pos: self.pos,
            rot: self.rot,
            color: self.color,
            role: self.role.clone_role(),
            health: self.health,
            tail: match &self.tail {
                Option::Some(t) => Option::Some(t.clone_tail()),
                Option::None => Option::None,
            },
            activated: self.activated,
        }
    }
}

impl ProjectileKind {
    /// Deep copy with a contract: the clone equals the original.
    pub fn clone_kind(&self) -> (r: Self)
        ensures
            r == *self,
        decreases *self,
    {
        match self {
            ProjectileKind::Ball {
                life_duration_ms,
                owner_invincibility_ms,
                velocity,
                health,
                radius,
            } => ProjectileKind::Ball {
                life_duration_ms: *life_duration_ms,
                owner_invincibility_ms: *owner_invincibility_ms,
                velocity: *velocity,
                health: *health,
                radius: *radius,
            },
            ProjectileKind::Ray {
                life_duration_ms,
                owner_invincibility_ms,
                tail_freeze_ms,
                velocity,
                health,
            } => ProjectileKind::Ray {
                life_duration_ms: *life_duration_ms,
                owner_invincibility_ms: *owner_invincibility_ms,
                tail_freeze_ms: *tail_freeze_ms,
                velocity: *velocity,
                health: *health,
            },
            ProjectileKind::Mine {
                life_duration_ms,
                owner_invincibility_ms,
                activation_ms,
                velocity,
                acceleration,
                radius,
                detection_radius,
                explosion_radius,
                debris_kind,
                debris_count,
            } => ProjectileKind::Mine {
                life_duration_ms: *life_duration_ms,
                owner_invincibility_ms: *owner_invincibility_ms,
                activation_ms: *activation_ms,
                velocity: *velocity,
                acceleration: *acceleration,
                radius: *radius,
                detection_radius: *detection_radius,
                explosion_radius: *explosion_radius,
                debris_kind: Box::new(debris_kind.clone_kind()),
                debris_count: *debris_count,
            },
        }
    }
}

impl CharacterWeapon {
    /// Deep copy with a contract: the clone equals the original.
    pub fn clone_weapon(&self) -> (r: Self)
        ensures
            r == *self,
    {
        match self {
            CharacterWeapon::BallGun {
                life_duration_ms,
                owner_invincibility_ms,
                fire_interval_ms,
                velocity,
                projectile_health,
                radius,
            } => CharacterWeapon::BallGun {
                life_duration_ms: *life_duration_ms,
                owner_invincibility_ms: *owner_invincibility_ms,
                fire_interval_ms: *fire_interval_ms,
                velocity: *velocity,
                projectile_health: *projectile_health,
                radius: *radius,
            },
            CharacterWeapon::RayGun {
                life_duration_ms,
                owner_invincibility_ms,
                tail_freeze_ms,
                fire_interval_ms,
                velocity,
                projectile_health,
            } => CharacterWeapon::RayGun {
                life_duration_ms: *life_duration_ms,
                owner_invincibility_ms: *owner_invincibility_ms,
                tail_freeze_ms: *tail_freeze_ms,
                fire_interval_ms: *fire_interval_ms,
                velocity: *velocity,
                projectile_health: *projectile_health,
            },
            CharacterWeapon::Shield {
                shield,
                self_destruct_timeout_ms,
            } => CharacterWeapon::Shield {
                shield: *shield,
                self_destruct_timeout_ms: *self_destruct_timeout_ms,
            },
            CharacterWeapon::MineGun {
                fire_interval_ms,
                life_duration_ms,
                owner_invincibility_ms,
                activation_ms,
                start_velocity,
                acceleration,
                radius,
                detection_radius,
                explosion_radius,
                debris_kind,
                debris_count,
            } => CharacterWeapon::MineGun {
                fire_interval_ms: *fire_interval_ms,
                life_duration_ms: *life_duration_ms,
                owner_invincibility_ms: *owner_invincibility_ms,
                activation_ms: *activation_ms,
                start_velocity: *start_velocity,
                acceleration: *acceleration,
                radius: *radius,
                detection_radius: *detection_radius,
                explosion_radius: *explosion_radius,
                debris_kind: Box::new(debris_kind.clone_kind()),
                debris_count: *debris_count,
            },
        }
    }
}

impl EntityRole {
    /// Deep copy with a contract: the clone equals the original.
    pub fn clone_role(&self) -> (r: Self)
        ensures
            r == *self,
    {
        match self {
            EntityRole::Character { weapon } => EntityRole::Character {
                weapon: weapon.clone_weapon(),
            },
            EntityRole::Projectile { kind } => EntityRole::Projectile { kind: kind.clone_kind() },
        }
    }
}

/// Copy of a point vector, elementwise.
pub fn clone_points(v: &Vec<Point>) -> (r: Vec<Point>)
    ensures
        r@ == v@,
{
    let mut out: Vec<Point> = Vec::new();
    let mut i: usize = 0;
    while i < v.len()
        invariant
            0 <= i <= v@.len(),
            out@ == v@.subrange(0, i as int),
        decreases v@.len() - i,
    {
        out.push(v[i]);
        proof {
            assert(v@.subrange(0, i + 1) =~= v@.subrange(0, i as int).push(v@[i as int]));
        }
        i = i + 1;
    }
    proof {
        assert(v@.subrange(0, v@.len() as int) =~= v@);
    }
    out
}

impl EntityCreateInfo {
    /// Deep copy with a contract: the clone's image equals the original's.
    pub fn clone_info(&self) -> (r: Self)
        ensures
            r.deep_view() == self.deep_view(),
    {
        EntityCreateInfo {
            pos: self.pos,
            rot: self.rot,
            color: self.color,
            role: self.role.clone_role(),
            tail: match &self.tail {
                Option::Some(t) => Option::Some(t.clone_tail()),
                Option::None => Option::None,
            },
        }
    }
}

impl EntityTail {
    /// Deep copy with a contract: the clone's image equals the original's.
    pub fn clone_tail(&self) -> (r: Self)
        ensures
            r.deep_view() == self.deep_view(),
    {
        let r = EntityTail {
            end: self.end,
            rotation: self.rotation,
            reflection_points: clone_points(&self.reflection_points),
        };
        proof {
            assert(r.reflection_points.deep_view() =~= self.reflection_points.deep_view());
        }
        r
    }
}

/// Copy of an entity vector, elementwise.
pub fn clone_entities(v: &Vec<Entity>) -> (r: Vec<Entity>)
    ensures
        r.deep_view() == v.deep_view(),
{
    let mut out: Vec<Entity> = Vec::new();
    let mut i: usize = 0;
    while i < v.len()
        invariant
            0 <= i <= v@.len(),
            out@.len() == i,
            forall|j: int|
                0 <= j < i ==> (#[trigger] out@[j]).deep_view() == v@[j].deep_view(),
        decreases v@.len() - i,
    {
        let e = v[i].clone_entity();
        out.push(e);
        i = i + 1;
    }
    proof {
        assert forall|j: int| 0 <= j < v@.len() implies out.deep_view()[j] == v.deep_view()[j] by {
            assert(out@[j].deep_view() == v@[j].deep_view());
        }
        assert(out.deep_view() =~= v.deep_view());
    }
    out
}

/// Copy of a kill queue.
pub fn clone_kills(v: &Vec<u32>) -> (r: Vec<u32>)
    ensures
        r@ == v@,
{
    let mut out: Vec<u32> = Vec::new();
    let mut i: usize = 0;
    while i < v.len()
        invariant
            0 <= i <= v@.len(),
            out@ == v@.subrange(0, i as int),
        decreases v@.len() - i,
    {
        out.push(v[i]);
        proof {
            assert(v@.subrange(0, i + 1) =~= v@.subrange(0, i as int).push(v@[i as int]));
        }
        i = i + 1;
    }
    proof {
        assert(v@.subrange(0, v@.len() as int) =~= v@);
    }
    out
}

/// What a caller provides to create an entity; the world assigns identity,
/// birth time and initial health.
#[derive(PartialEq, Eq, Debug)]
pub struct EntityCreateInfo {
    pub pos: Point,
    pub rot: Complex,
    pub color: Color,
    pub role: EntityRole,
    pub tail: Option<EntityTail>,
}

/// Mathematical image of an entity creation request.
#[verifier::ext_equal]
pub struct CreateInfoV {
    pub pos: Point,
    pub rot: Complex,
    pub color: Color,
    pub role: EntityRole,
    pub tail: Option<TailV>,
}

impl DeepView for EntityCreateInfo {
    type V = CreateInfoV;

    open spec fn deep_view(&self) -> CreateInfoV {
        CreateInfoV {
            pos: self.pos,
            rot: self.rot,
            color: self.color,
            role: self.role,
            tail: match self.tail {
                Option::Some(t) => Option::Some(t.deep_view()),
                Option::None => Option::None,
            },
        }
    }
}

pub open spec fn create_info_wf(info: CreateInfoV) -> bool {
    &&& point_in_range(info.pos)
    &&& rot_in_range(info.rot)
    &&& role_wf(info.role)
    &&& (info.role matches EntityRole::Projectile { kind: ProjectileKind::Ray { .. } }
        ==> info.tail is Some)
    &&& match info.tail {
        Option::Some(t) => tail_wf(t),
        Option::None => true,
    }
}

/// Initial health of a freshly created entity: characters start at 3, ball
/// and ray projectiles carry their configured health, mines have none (their
/// debris does the damage).
pub open spec fn spec_initial_health(role: EntityRole) -> u8 {
    match role {
        EntityRole::Character { .. } => 3,
        EntityRole::Projectile { kind } => match kind {
            ProjectileKind::Ball { health, .. } => health,
            ProjectileKind::Ray { health, .. } => health,
            ProjectileKind::Mine { .. } => 0,
        },
    }
}

pub open spec fn spec_created_entity(
    info: CreateInfoV,
    player_id: u64,
    id: u32,
    now_ms: u64,
) -> EntityV {
    EntityV {
        id,
        player_id,
        birth_ms: now_ms,
        pos: info.pos,
        rot: info.rot,
        color: info.color,
        health: spec_initial_health(info.role),
        role: info.role,
        tail: info.tail,
        activated: false,
    }
}

/// The authoritative world: every live entity, the playfield bounds, the id
/// counter, and the queue of entities condemned but not yet swept.
#[derive(PartialEq, Eq, Debug)]
pub struct GameState {
    pub entities: Vec<Entity>,
    pub world_bounds: Rect,
    pub next_entity_id: u32,
    pub kills: Vec<u32>,
}

/// Mathematical image of the world.
#[verifier::ext_equal]
pub struct GameStateV {
    pub entities: Seq<EntityV>,
    pub world_bounds: Rect,
    pub next_entity_id: u32,
    pub kills: Seq<u32>,
}

impl DeepView for GameState {
    type V = GameStateV;

    open spec fn deep_view(&self) -> GameStateV {
        GameStateV {
            entities: self.entities.deep_view(),
            world_bounds: self.world_bounds,
            next_entity_id: self.next_entity_id,
            kills: self.kills@,
        }
    }
}

pub open spec fn spec_is_character_of(e: EntityV, player_id: u64) -> bool {
    e.role is Character && e.player_id == player_id
}

pub open spec fn gs_wf(g: GameStateV) -> bool {
    &&& rect_wf(g.world_bounds)
    &&& forall|i: int| 0 <= i < g.entities.len() ==> entity_wf(#[trigger] g.entities[i])
    &&& forall|i: int|
        0 <= i < g.entities.len() ==> (#[trigger] g.entities[i]).id < g.next_entity_id
    &&& forall|i: int, j: int|
        0 <= i < g.entities.len() && 0 <= j < g.entities.len() && i != j
            ==> #[trigger] g.entities[i].id != #[trigger] g.entities[j].id
}

impl GameState {
    pub open spec fn wf(self) -> bool {
        gs_wf(self.deep_view())
    }

    /// An empty world with the standard playfield.
    pub fn new() -> (r: Self)
        ensures
            r.deep_view().entities.len() == 0,
            r.deep_view().kills.len() == 0,
            r.deep_view().next_entity_id == 0,
            (r.deep_view().world_bounds == Rect {
                x: 32 as i64,
                y: 48 as i64,
                w: 736 as i64,
                h: 536 as i64,
            }),
            r.wf(),
    {
        Self {
            entities: Vec::new(),
            world_bounds: Rect { x: 32, y: 48, w: 736, h: 536 },
            next_entity_id: 0,
            kills: Vec::new(),
        }
    }

    pub fn world_bounds(&self) -> (r: Rect)
        ensures
            r == self.world_bounds,
    {
        self.world_bounds
    }

    /// A uniformly drawn point inside the world bounds; the randomness comes
    /// from the process random generator, so nothing is promised beyond
    /// containment.
    pub fn random_point_inside_bounds(&self) -> (r: Point)
        requires
            rect_wf(self.world_bounds),
        ensures
            self.world_bounds.x <= r.x < self.world_bounds.x + self.world_bounds.w,
            self.world_bounds.y <= r.y < self.world_bounds.y + self.world_bounds.h,
            point_in_range(r),
    {
        let rx: u64 = draw_random_u64();
        let ry: u64 = draw_random_u64();
        let ox: u64 = rx % (self.world_bounds.w as u64);
        let oy: u64 = ry % (self.world_bounds.h as u64);
        Point { x: self.world_bounds.x + ox as i64, y: self.world_bounds.y + oy as i64 }
    }

    /// Add a new entity to the world, assigning the next id and the given
    /// birth instant.
    pub fn create(&mut self, entity: EntityCreateInfo, player_id: u64, now_ms: u64)
        requires
            old(self).next_entity_id < u32::MAX,
            create_info_wf(entity.deep_view()),
            player_id != 0,
        ensures
            final(self).deep_view().entities == old(self).deep_view().entities.push(
                spec_created_entity(
                    entity.deep_view(),
                    player_id,
                    old(self).next_entity_id,
                    now_ms,
                ),
            ),
            final(self).next_entity_id == old(self).next_entity_id + 1,
            final(self).world_bounds == old(self).world_bounds,
            final(self).kills@ == old(self).kills@,
            old(self).wf() ==> final(self).wf(),
    {
        let health: u8 = match &entity.role {
            EntityRole::Character { .. } => 3,
            EntityRole::Projectile { kind } => match kind {
                ProjectileKind::Ball { health, .. } => *health,
                ProjectileKind::Ray { health, .. } => *health,
                ProjectileKind::Mine { .. } => 0,
            },
        };
        let e = Entity {
            id: self.next_entity_id,
            player_id,
            birth_ms: now_ms,
            pos: entity.pos,
            rot: entity.rot,
            color: entity.color,
            health,
            role: entity.role,
            tail: entity.tail,
            activated: false,
        };
        self.entities.push(e);
        self.next_entity_id = self.next_entity_id + 1;
        proof {
            assert(self.deep_view().entities =~= old(self).deep_view().entities.push(
                spec_created_entity(
                    entity.deep_view(),
                    player_id,
                    old(self).next_entity_id,
                    now_ms,
                ),
            ));
        }
    }

    /// Index of the first live character entity of the given player.
    pub fn find_character_by_player_id(&self, player_id: u64) -> (r: Option<usize>)
        ensures
            match r {
                Option::Some(i) => 0 <= i < self.deep_view().entities.len()
                    && spec_is_character_of(self.deep_view().entities[i as int], player_id)
                    && forall|j: int|
                    0 <= j < i ==> !spec_is_character_of(
                        #[trigger] self.deep_view().entities[j],
                        player_id,
                    ),
                Option::None => forall|j: int|
                    0 <= j < self.deep_view().entities.len() ==> !spec_is_character_of(
                        #[trigger] self.deep_view().entities[j],
                        player_id,
                    ),
            },
    {
        let mut i: usize = 0;
        while i < self.entities.len()
            invariant
                0 <= i <= self.entities@.len(),
                self.entities@.len() == self.deep_view().entities.len(),
                forall|j: int|
                    0 <= j < i ==> !spec_is_character_of(
                        #[trigger] self.deep_view().entities[j],
                        player_id,
                    ),
            decreases self.entities@.len() - i,
        {
            let e = &self.entities[i];
            let is_char: bool = match e.role {
                EntityRole::Character { .. } => true,
                EntityRole::Projectile { .. } => false,
            };
            if is_char && e.player_id == player_id {
                return Some(i);
            }
            i = i + 1;
        }
        None
    }

    /// Index of the first entity with the given id.
    pub fn find_by_id(&self, id: u32) -> (r: Option<usize>)
        ensures
            match r {
                Option::Some(i) => 0 <= i < self.deep_view().entities.len()
                    && self.deep_view().entities[i as int].id == id && forall|j: int|
                    0 <= j < i ==> #[trigger] self.deep_view().entities[j].id != id,
                Option::None => forall|j: int|
                    0 <= j < self.deep_view().entities.len()
                        ==> #[trigger] self.deep_view().entities[j].id != id,
            },
    {
        let mut i: usize = 0;
        while i < self.entities.len()
            invariant
                0 <= i <= self.entities@.len(),
                self.entities@.len() == self.deep_view().entities.len(),
                forall|j: int| 0 <= j < i ==> #[trigger] self.deep_view().entities[j].id != id,
            decreases self.entities@.len() - i,
        {
            if self.entities[i].id == id {
                return Some(i);
            }
            i = i + 1;
        }
        None
    }

    /// Replace the first character of this player, or add the entity when the
    /// player has none.
    pub fn add_or_replace_character_by_player_id(&mut self, player_id: u64, e: Entity)
        ensures
            final(self).world_bounds == old(self).world_bounds,
            final(self).next_entity_id == old(self).next_entity_id,
            final(self).kills@ == old(self).kills@,
            (exists|i: int|
                0 <= i < old(self).deep_view().entities.len() && spec_is_character_of(
                    #[trigger] old(self).deep_view().entities[i],
                    player_id,
                )) ==> exists|i: int|
                {
                    &&& 0 <= i < old(self).deep_view().entities.len()
                    &&& spec_is_character_of(
                        #[trigger] old(self).deep_view().entities[i],
                        player_id,
                    )
                    &&& (forall|j: int|
                        0 <= j < i ==> !spec_is_character_of(
                            #[trigger] old(self).deep_view().entities[j],
                            player_id,
                        ))
                    &&& final(self).deep_view().entities == old(self).deep_view().entities.update(
                        i,
                        e.deep_view(),
                    )
                },
            (forall|i: int|
                0 <= i < old(self).deep_view().entities.len() ==> !spec_is_character_of(
                    #[trigger] old(self).deep_view().entities[i],
                    player_id,
                )) ==> final(self).deep_view().entities == old(self).deep_view().entities.push(
                e.deep_view(),
            ),
    {
        match self.find_character_by_player_id(player_id) {
            Some(i) => {
                let ghost pre = self.deep_view().entities;
                crate::util::vec_set(&mut self.entities, i, e);
                proof {
                    assert(self.deep_view().entities =~= pre.update(i as int, e.deep_view()));
                }
            },
            None => {
                let ghost pre = self.deep_view().entities;
                self.entities.push(e);
                proof {
                    assert(self.deep_view().entities =~= pre.push(e.deep_view()));
                }
            },
        }
    }

    /// Replace the first entity with this id, or add the entity when no
    /// entity has it.
    pub fn add_or_replace_by_id(&mut self, id: u32, e: Entity)
        ensures
            final(self).world_bounds == old(self).world_bounds,
            final(self).next_entity_id == old(self).next_entity_id,
            final(self).kills@ == old(self).kills@,
            (exists|i: int|
                0 <= i < old(self).deep_view().entities.len() && #[trigger] old(
                    self,
                ).deep_view().entities[i].id == id) ==> exists|i: int|
                {
                    &&& 0 <= i < old(self).deep_view().entities.len()
                    &&& #[trigger] old(self).deep_view().entities[i].id == id
                    &&& (forall|j: int| 0 <= j < i ==> old(self).deep_view().entities[j].id != id)
                    &&& final(self).deep_view().entities == old(self).deep_view().entities.update(
                        i,
                        e.deep_view(),
                    )
                },
            (forall|i: int|
                0 <= i < old(self).deep_view().entities.len() ==> #[trigger] old(
                    self,
                ).deep_view().entities[i].id != id) ==> final(self).deep_view().entities == old(
                self,
            ).deep_view().entities.push(e.deep_view()),
    {
        match self.find_by_id(id) {
            Some(i) => {
                let ghost pre = self.deep_view().entities;
                crate::util::vec_set(&mut self.entities, i, e);
                proof {
                    assert(self.deep_view().entities =~= pre.update(i as int, e.deep_view()));
                }
            },
            None => {
                let ghost pre = self.deep_view().entities;
                self.entities.push(e);
                proof {
                    assert(self.deep_view().entities =~= pre.push(e.deep_view()));
                }
            },
        }
    }

    /// Record an entity as killed; an id may be condemned only once while it
    /// is alive.
    pub fn register_kill(&mut self, id: u32)
        requires
            !old(self).kills@.contains(id),
        ensures
            final(self).kills@ == old(self).kills@.push(id),
            final(self).deep_view().entities == old(self).deep_view().entities,
            final(self).world_bounds == old(self).world_bounds,
            final(self).next_entity_id == old(self).next_entity_id,
    {
        self.kills.push(id);
    }

    /// Whether an id is currently condemned.
    pub fn kill_registered(&self, id: u32) -> (r: bool)
        ensures
            r == self.kills@.contains(id),
    {
        let mut i: usize = 0;
        while i < self.kills.len()
            invariant
                0 <= i <= self.kills@.len(),
                forall|j: int| 0 <= j < i ==> self.kills@[j] != id,
            decreases self.kills@.len() - i,
        {
            if self.kills[i] == id {
                return true;
            }
            i = i + 1;
        }
        false
    }

    /// Deep copy with a contract: the clone's image equals the original's.
    pub fn clone_state(&self) -> (r: Self)
        ensures
            r.deep_view() == self.deep_view(),
    {
        let r = GameState {
            entities: clone_entities(&self.entities),
            world_bounds: self.world_bounds,
            next_entity_id: self.next_entity_id,
            kills: clone_kills(&self.kills),
        };
        proof {
            assert(r.deep_view() =~= self.deep_view());
        }
        r
    }
}


/// Index of the first character entity of a player; negative when none.
pub open spec fn spec_char_idx(s: Seq<EntityV>, player_id: u64) -> int
    decreases s.len(),
{
    if s.len() == 0 {
        -1
    } else if spec_is_character_of(s[0], player_id) {
        0
    } else {
        let r = spec_char_idx(s.drop_first(), player_id);
        if r < 0 {
            -1
        } else {
            r + 1
        }
    }
}

pub proof fn lemma_char_idx(s: Seq<EntityV>, player_id: u64)
    ensures
        spec_char_idx(s, player_id) < 0 ==> forall|j: int|
            0 <= j < s.len() ==> !spec_is_character_of(#[trigger] s[j], player_id),
        spec_char_idx(s, player_id) >= 0 ==> {
            let k = spec_char_idx(s, player_id);
            &&& 0 <= k < s.len()
            &&& spec_is_character_of(s[k], player_id)
            &&& forall|j: int| 0 <= j < k ==> !spec_is_character_of(#[trigger] s[j], player_id)
        },
    decreases s.len(),
{
    if s.len() > 0 {
        lemma_char_idx(s.drop_first(), player_id);
        assert forall|j: int| 1 <= j < s.len() implies s.drop_first()[j - 1] == s[j] by {}
    }
}

/// Index of the first entity with an id; negative when none.
pub open spec fn spec_id_idx(s: Seq<EntityV>, id: u32) -> int
    decreases s.len(),
{
    if s.len() == 0 {
        -1
    } else if s[0].id == id {
        0
    } else {
        let r = spec_id_idx(s.drop_first(), id);
        if r < 0 {
            -1
        } else {
            r + 1
        }
    }
}

pub proof fn lemma_id_idx(s: Seq<EntityV>, id: u32)
    ensures
        spec_id_idx(s, id) < 0 ==> forall|j: int| 0 <= j < s.len() ==> (#[trigger] s[j]).id != id,
        spec_id_idx(s, id) >= 0 ==> {
            let k = spec_id_idx(s, id);
            &&& 0 <= k < s.len()
            &&& s[k].id == id
            &&& forall|j: int| 0 <= j < k ==> (#[trigger] s[j]).id != id
        },
    decreases s.len(),
{
    if s.len() > 0 {
        lemma_id_idx(s.drop_first(), id);
        assert forall|j: int| 1 <= j < s.len() implies s.drop_first()[j - 1] == s[j] by {}
    }
}

/// Replace a player's first character, or append when the player has none.
pub open spec fn spec_add_or_replace_char(s: Seq<EntityV>, player_id: u64, e: EntityV) -> Seq<
    EntityV,
> {
    let i = spec_char_idx(s, player_id);
    if i >= 0 {
        s.update(i, e)
    } else {
        s.push(e)
    }
}

/// Replace the first entity with an id, or append when no entity has it.
pub open spec fn spec_add_or_replace_id(s: Seq<EntityV>, id: u32, e: EntityV) -> Seq<EntityV> {
    let i = spec_id_idx(s, id);
    if i >= 0 {
        s.update(i, e)
    } else {
        s.push(e)
    }
}

/// Session-local status of one connected player, carried in broadcasts next
/// to the world snapshot.
#[derive(Clone, Copy, PartialEq, Eq, Structural, Debug)]
pub struct PlayerState {
    pub color: Color,
    pub killed: bool,
}

impl Default for PlayerState {
    fn default() -> (r: Self)
        ensures
            (r.color == Color { a: 0 as u8, r: 0 as u8, g: 0 as u8, b: 0 as u8 }),
            r.killed == false,
    {
        Self { color: Color { a: 0, r: 0, g: 0, b: 0 }, killed: false }
    }
}

} // verus!
