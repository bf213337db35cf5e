use vstd::prelude::*;

verus! {

/// Largest magnitude a world coordinate may take. Chosen so that every
/// intermediate product in the collision routines fits in `i128`.
pub const COORD_LIMIT: i64 = 524288;

/// Fixed-point scale of rotations: a unit rotation has `r*r + i*i` close to
/// `ROT_ONE * ROT_ONE`.
pub const ROT_ONE: i64 = 4096;

/// Largest magnitude a rotation component may take. Rotations are expected to
/// stay near unit length but this is not enforced; reflection clamps here.
pub const ROT_COMP_LIMIT: i64 = 16384;

/// Largest magnitude of a projectile velocity, in coordinate units per second.
pub const VEL_LIMIT: i64 = 1000000;

/// Largest tick duration, in milliseconds.
pub const DT_LIMIT: u64 = 1000000;

#[derive(Clone, Copy, PartialEq, Eq, Structural, Debug)]
pub struct Point {
    pub x: i64,
    pub y: i64,
}

#[derive(Clone, Copy, PartialEq, Eq, Structural, Debug)]
pub struct Vector {
    pub x: i64,
    pub y: i64,
}

#[derive(Clone, Copy, PartialEq, Eq, Structural, Debug)]
pub struct Complex {
    pub r: i64,
    pub i: i64,
}

#[derive(Clone, Copy, PartialEq, Eq, Structural, Debug)]
pub struct Rect {
    pub x: i64,
    pub y: i64,
    pub w: i64,
    pub h: i64,
}

#[derive(Clone, Copy, PartialEq, Eq, Structural, Debug)]
pub struct Segment {
    pub p0: Point,
    pub p1: Point,
}

pub open spec fn in_coord_range(v: int) -> bool {
    -COORD_LIMIT <= v <= COORD_LIMIT
}

pub open spec fn point_in_range(p: Point) -> bool {
    in_coord_range(p.x as int) && in_coord_range(p.y as int)
}

pub open spec fn segment_in_range(s: Segment) -> bool {
    point_in_range(s.p0) && point_in_range(s.p1)
}

pub open spec fn rot_in_range(c: Complex) -> bool {
    -ROT_COMP_LIMIT <= c.r <= ROT_COMP_LIMIT && -ROT_COMP_LIMIT <= c.i <= ROT_COMP_LIMIT
}

pub open spec fn rect_wf(r: Rect) -> bool {
    &&& in_coord_range(r.x as int)
    &&& in_coord_range(r.y as int)
    &&& 0 < r.w
    &&& 0 < r.h
    &&& in_coord_range(r.x + r.w)
    &&& in_coord_range(r.y + r.h)
}

/// Division truncating toward zero, the rounding used throughout the
/// fixed-point geometry. Defined for a positive divisor.
pub open spec fn div_trunc(a: int, b: int) -> int {
    if a >= 0 {
        a / b
    } else {
        -((-a) / b)
    }
}

/// Clamp a value into the coordinate range.
pub open spec fn spec_clamp(v: int, lo: int, hi: int) -> int {
    if v < lo {
        lo
    } else if v > hi {
        hi
    } else {
        v
    }
}

pub fn clamp_i64(v: i64, lo: i64, hi: i64) -> (r: i64)
    requires
        lo <= hi,
    ensures
        r == spec_clamp(v as int, lo as int, hi as int),
{
    if v < lo {
        lo
    } else if v > hi {
        hi
    } else {
        v
    }
}

/// Truncating signed division on machine integers.
pub fn div_trunc_i64(a: i64, b: i64) -> (r: i64)
    requires
        b > 0,
        a > i64::MIN,
    ensures
        r == div_trunc(a as int, b as int),
        a >= 0 ==> 0 <= r <= a,
        a < 0 ==> a <= r <= 0,
{
    if a >= 0 {
        let q: u64 = (a as u64) / (b as u64);
        assert(q <= a as u64) by {
            assert((a as u64) / (b as u64) <= a as u64) by (nonlinear_arith)
                requires
                    b as u64 >= 1,
            ;
        };
        q as i64
    } else {
        let n: u64 = (-a) as u64;
        let q: u64 = n / (b as u64);
        assert(q <= n) by {
            assert(n / (b as u64) <= n) by (nonlinear_arith)
                requires
                    b as u64 >= 1,
            ;
        };
        -(q as i64)
    }
}

/// Truncating signed division on 128-bit intermediates.
pub fn div_trunc_i128(a: i128, b: i128) -> (r: i128)
    requires
        b > 0,
        a > i128::MIN,
    ensures
        r == div_trunc(a as int, b as int),
        a >= 0 ==> 0 <= r <= a,
        a < 0 ==> a <= r <= 0,
{
    if a >= 0 {
        let q: u128 = (a as u128) / (b as u128);
        assert(q <= a as u128) by {
            assert((a as u128) / (b as u128) <= a as u128) by (nonlinear_arith)
                requires
                    b as u128 >= 1,
            ;
        };
        q as i128
    } else {
        let n: u128 = (-a) as u128;
        let q: u128 = n / (b as u128);
        assert(q <= n) by {
            assert(n / (b as u128) <= n) by (nonlinear_arith)
                requires
                    b as u128 >= 1,
            ;
        };
        -(q as i128)
    }
}

/// Integer square root: the unique `r` with `r * r <= n < (r + 1) * (r + 1)`.
pub open spec fn spec_isqrt(n: nat) -> nat
    decreases n,
{
    if n == 0 {
        0
    } else {
        let p = spec_isqrt((n - 1) as nat);
        if (p + 1) * (p + 1) <= n {
            p + 1
        } else {
            p
        }
    }
}

pub proof fn lemma_isqrt_bounds(n: nat)
    ensures
        spec_isqrt(n) * spec_isqrt(n) <= n,
        n < (spec_isqrt(n) + 1) * (spec_isqrt(n) + 1),
    decreases n,
{
    if n == 0 {
        assert(spec_isqrt(0) == 0);
        assert((spec_isqrt(n) + 1) * (spec_isqrt(n) + 1) == 1) by (nonlinear_arith)
            requires
                spec_isqrt(n) == 0,
        ;
    } else {
        lemma_isqrt_bounds((n - 1) as nat);
        let p = spec_isqrt((n - 1) as nat);
        assert(p * p <= n - 1);
        assert(n - 1 < (p + 1) * (p + 1));
        if (p + 1) * (p + 1) <= n {
            assert(spec_isqrt(n) == p + 1);
            assert(n < (p + 2) * (p + 2)) by (nonlinear_arith)
                requires
                    n <= (p + 1) * (p + 1),
                    p >= 0,
            ;
            assert(spec_isqrt(n) * spec_isqrt(n) <= n);
            assert(n < (spec_isqrt(n) + 1) * (spec_isqrt(n) + 1));
        } else {
            assert(spec_isqrt(n) == p);
            assert(spec_isqrt(n) * spec_isqrt(n) <= n);
            assert(n < (spec_isqrt(n) + 1) * (spec_isqrt(n) + 1));
        }
    }
}

pub proof fn lemma_isqrt_unique(n: nat, r: nat)
    requires
        r * r <= n,
        n < (r + 1) * (r + 1),
    ensures
        r == spec_isqrt(n),
{
    lemma_isqrt_bounds(n);
    let s = spec_isqrt(n);
    if r < s {
        assert((r + 1) * (r + 1) <= s * s) by (nonlinear_arith)
            requires
                r + 1 <= s,
        ;
    }
    if s < r {
        assert((s + 1) * (s + 1) <= r * r) by (nonlinear_arith)
            requires
                s + 1 <= r,
        ;
    }
}

/// Executable integer square root by bisection.
pub fn isqrt_u64(n: u64) -> (r: u64)
    ensures
        r == spec_isqrt(n as nat),
        r * r <= n,
{
    let mut lo: u64 = 0;
    let mut hi: u64 = 4294967295;
    if n < hi {
        hi = n;
    }
    assert((hi + 1) * (hi + 1) > n) by (nonlinear_arith)
        requires
            n < 18446744073709551616,
            hi <= 4294967295,
            n <= hi || hi == 4294967295,
    ;
    while lo < hi
        invariant
            lo <= hi,
            hi <= 4294967295,
            lo * lo <= n,
            n < (hi + 1) * (hi + 1),
        decreases hi - lo,
    {
        let mid: u64 = lo + (hi - lo + 1) / 2;
        assert(lo < mid <= hi);
        assert(mid * mid <= 4294967295 * 4294967295) by (nonlinear_arith)
            requires
                0 <= mid <= 4294967295,
        ;
        if mid * mid <= n {
            lo = mid;
        } else {
            hi = mid - 1;
        }
    }
    proof {
        lemma_isqrt_unique(n as nat, lo as nat);
    }
    lo
}

/// Linear interpolation with a rational parameter `num / den`, truncating
/// toward zero: `a + (b - a) * num / den`.
pub open spec fn spec_lerp(a: int, b: int, num: int, den: int) -> int {
    a + div_trunc((b - a) * num, den)
}

pub fn lerp_i64(a: i64, b: i64, num: i64, den: i64) -> (r: i64)
    requires
        0 < den,
        0 <= num <= den,
        den <= 0x4000000000000,
        -0x100000000000 <= a <= 0x100000000000,
        -0x100000000000 <= b <= 0x100000000000,
    ensures
        r == spec_lerp(a as int, b as int, num as int, den as int),
        a <= b ==> a <= r <= b,
        b <= a ==> b <= r <= a,
        num == 0 ==> r == a,
        num == den ==> r == b,
{
    proof {
        lemma_lerp_step(a as int, b as int, num as int, den as int);
        assert(-0x800000000000000000000000 <= (b - a) * num <= 0x800000000000000000000000)
            by (nonlinear_arith)
            requires
                -0x200000000000 <= b - a <= 0x200000000000,
                0 <= num <= 0x4000000000000,
        ;
    }
    let d: i128 = (b - a) as i128 * num as i128;
    let q: i128 = div_trunc_i128(d, den as i128);
    (a as i128 + q) as i64
}

/// `(b - a) * num / den` stays between `0` and `b - a`, and the endpoints of
/// the interpolation are exact.
proof fn lemma_lerp_step(a: int, b: int, num: int, den: int)
    requires
        0 < den,
        0 <= num <= den,
    ensures
        b >= a ==> 0 <= div_trunc((b - a) * num, den) <= b - a,
        b < a ==> b - a <= div_trunc((b - a) * num, den) <= 0,
        num == 0 ==> spec_lerp(a, b, num, den) == a,
        num == den ==> spec_lerp(a, b, num, den) == b,
{
    let d = b - a;
    if d >= 0 {
        assert(0 <= d * num <= d * den) by (nonlinear_arith)
            requires
                d >= 0,
                0 <= num <= den,
        ;
        assert(d * num / den <= d * den / den) by (nonlinear_arith)
            requires
                den > 0,
                d * num <= d * den,
        ;
        assert(d * den / den == d) by (nonlinear_arith)
            requires
                den > 0,
        ;
        if num == den {
            assert(d * num == d * den);
        }
    } else {
        let e = 0 - d;
        assert(e * num == -(d * num)) by (nonlinear_arith)
            requires
                e == 0 - d,
        ;
        assert(0 <= e * num <= e * den) by (nonlinear_arith)
            requires
                e >= 0,
                0 <= num <= den,
        ;
        assert(e * num / den <= e * den / den) by (nonlinear_arith)
            requires
                den > 0,
                e * num <= e * den,
        ;
        assert(e * den / den == e) by (nonlinear_arith)
            requires
                den > 0,
        ;
        if num == den {
            assert(e * num == e * den);
        }
    }
}

impl Point {
    pub fn origin() -> (r: Point)
        ensures
            r.x == 0 && r.y == 0,
    {
        Point { x: 0, y: 0 }
    }

    /// Vector from `rhs` to `self`.
    pub fn sub(self, rhs: Point) -> (r: Vector)
        requires
            point_in_range(self),
            point_in_range(rhs),
        ensures
            r.x == self.x - rhs.x,
            r.y == self.y - rhs.y,
    {
        Vector { x: self.x - rhs.x, y: self.y - rhs.y }
    }

    /// Translation, clamped into the coordinate range so that positions stay
    /// well formed whatever the motion was.
    pub fn add_clamped(self, v: Vector) -> (r: Point)
        requires
            point_in_range(self),
            -0x7fffffffffffff <= v.x <= 0x7fffffffffffff,
            -0x7fffffffffffff <= v.y <= 0x7fffffffffffff,
        ensures
            r.x == spec_clamp(self.x + v.x, -COORD_LIMIT as int, COORD_LIMIT as int),
            r.y == spec_clamp(self.y + v.y, -COORD_LIMIT as int, COORD_LIMIT as int),
            point_in_range(r),
    {
        Point {
            x: clamp_i64(self.x + v.x, -COORD_LIMIT, COORD_LIMIT),
            y: clamp_i64(self.y + v.y, -COORD_LIMIT, COORD_LIMIT),
        }
    }

    pub open spec fn spec_lerp_point(a: Point, b: Point, num: int, den: int) -> Point {
        Point {
            x: spec_lerp(a.x as int, b.x as int, num, den) as i64,
            y: spec_lerp(a.y as int, b.y as int, num, den) as i64,
        }
    }

    /// Componentwise interpolation between two points at `num / den`.
    pub fn lerp(a: Point, b: Point, num: i64, den: i64) -> (r: Point)
        requires
            0 < den <= 0x4000000000000,
            0 <= num <= den,
            point_in_range(a),
            point_in_range(b),
        ensures
            r == Point::spec_lerp_point(a, b, num as int, den as int),
            point_in_range(r),
            num == 0 ==> r == a,
            num == den ==> r == b,
    {
        Point { x: lerp_i64(a.x, b.x, num, den), y: lerp_i64(a.y, b.y, num, den) }
    }
}

impl Vector {
    /// Squared Euclidean length.
    pub fn len2(self) -> (r: u64)
        requires
            -0x40000000 <= self.x <= 0x40000000,
            -0x40000000 <= self.y <= 0x40000000,
        ensures
            r == self.x * self.x + self.y * self.y,
    {
        proof {
            assert(0 <= self.x * self.x <= 0x1000000000000000) by (nonlinear_arith)
                requires
                    -0x40000000 <= self.x <= 0x40000000,
            ;
            assert(0 <= self.y * self.y <= 0x1000000000000000) by (nonlinear_arith)
                requires
                    -0x40000000 <= self.y <= 0x40000000,
            ;
        }
        (self.x * self.x) as u64 + (self.y * self.y) as u64
    }

    /// Euclidean length rounded down.
    pub fn len(self) -> (r: u64)
        requires
            -0x40000000 <= self.x <= 0x40000000,
            -0x40000000 <= self.y <= 0x40000000,
        ensures
            r == spec_isqrt((self.x * self.x + self.y * self.y) as nat),
    {
        isqrt_u64(self.len2())
    }

    pub open spec fn spec_cross(self, rhs: Vector) -> int {
        self.x * rhs.y - self.y * rhs.x
    }

    pub fn cross(self, rhs: Vector) -> (r: i64)
        requires
            -0x40000000 <= self.x <= 0x40000000,
            -0x40000000 <= self.y <= 0x40000000,
            -0x40000000 <= rhs.x <= 0x40000000,
            -0x40000000 <= rhs.y <= 0x40000000,
        ensures
            r == self.spec_cross(rhs),
    {
        proof {
            lemma_mul_bound_30(self.x as int, rhs.y as int);
            lemma_mul_bound_30(self.y as int, rhs.x as int);
        }
        self.x * rhs.y - self.y * rhs.x
    }

    pub open spec fn spec_dot(self, rhs: Vector) -> int {
        self.x * rhs.x + self.y * rhs.y
    }

    pub fn dot(self, rhs: Vector) -> (r: i64)
        requires
            -0x40000000 <= self.x <= 0x40000000,
            -0x40000000 <= self.y <= 0x40000000,
            -0x40000000 <= rhs.x <= 0x40000000,
            -0x40000000 <= rhs.y <= 0x40000000,
        ensures
            r == self.spec_dot(rhs),
    {
        proof {
            lemma_mul_bound_30(self.x as int, rhs.x as int);
            lemma_mul_bound_30(self.y as int, rhs.y as int);
        }
        self.x * rhs.x + self.y * rhs.y
    }

    pub fn left_perpendicular(self) -> (r: Vector)
        requires
            self.x > i64::MIN,
            self.y > i64::MIN,
        ensures
            r.x == -self.y,
            r.y == self.x,
    {
        Vector { x: -self.y, y: self.x }
    }

    pub open spec fn spec_polar(rot: Complex, len: int) -> Vector {
        Vector {
            x: div_trunc(rot.r * len, ROT_ONE as int) as i64,
            y: div_trunc(rot.i * len, ROT_ONE as int) as i64,
        }
    }

    /// The vector of length `len / ROT_ONE * |rot|` pointing along `rot`.
    pub fn polar(rot: Complex, len: i64) -> (r: Vector)
        requires
            rot_in_range(rot),
            -0x2000000000000 <= len <= 0x2000000000000,
        ensures
            r == Vector::spec_polar(rot, len as int),
            -0x8000000000000 <= r.x <= 0x8000000000000,
            -0x8000000000000 <= r.y <= 0x8000000000000,
    {
        proof {
            lemma_polar_bound(rot.r as int, len as int);
            lemma_polar_bound(rot.i as int, len as int);
        }
        let x: i128 = div_trunc_i128(rot.r as i128 * len as i128, ROT_ONE as i128);
        let y: i128 = div_trunc_i128(rot.i as i128 * len as i128, ROT_ONE as i128);
        Vector { x: x as i64, y: y as i64 }
    }

    /// The unit rotation pointing along `self`, scaled by `ROT_ONE`; the
    /// positive real unit when `self` is the zero vector.
    pub fn normalize_into_complex(self) -> (r: Complex)
        requires
            -0x40000000 <= self.x <= 0x40000000,
            -0x40000000 <= self.y <= 0x40000000,
        ensures
            r == Complex::spec_normalized(self),
            rot_in_range(r),
    {
        let l: u64 = self.len();
        if l == 0 {
            Complex { r: ROT_ONE, i: 0 }
        } else {
            proof {
                lemma_normalize_bound(self.x as int, self.y as int, l as int);
                assert(self.x * self.x <= self.x * self.x + self.y * self.y) by (nonlinear_arith);
                assert(self.y * self.y <= self.x * self.x + self.y * self.y) by (nonlinear_arith);
                if self.x >= 0 {
                    lemma_isqrt_ge_root(self.x as nat, (self.x * self.x + self.y * self.y) as nat);
                } else {
                    assert((-self.x) * (-self.x) == self.x * self.x) by (nonlinear_arith);
                    lemma_isqrt_ge_root((-self.x) as nat, (self.x * self.x + self.y * self.y) as nat);
                }
                if self.y >= 0 {
                    lemma_isqrt_ge_root(self.y as nat, (self.x * self.x + self.y * self.y) as nat);
                } else {
                    assert((-self.y) * (-self.y) == self.y * self.y) by (nonlinear_arith);
                    lemma_isqrt_ge_root((-self.y) as nat, (self.x * self.x + self.y * self.y) as nat);
                }
                lemma_normalize_comp(self.x as int, l as int);
                lemma_normalize_comp(self.y as int, l as int);
            }
            let rr: i128 = div_trunc_i128(self.x as i128 * ROT_ONE as i128, l as i128);
            let ii: i128 = div_trunc_i128(self.y as i128 * ROT_ONE as i128, l as i128);
            Complex { r: rr as i64, i: ii as i64 }
        }
    }

    pub fn scale(self, k: i64) -> (r: Vector)
        requires
            -0x200000 <= self.x <= 0x200000,
            -0x200000 <= self.y <= 0x200000,
            -0x100000000 <= k <= 0x100000000,
        ensures
            r.x == self.x * k,
            r.y == self.y * k,
    {
        proof {
            lemma_mul_bound_32(self.x as int, k as int);
            lemma_mul_bound_32(self.y as int, k as int);
        }
        Vector { x: self.x * k, y: self.y * k }
    }
}

proof fn lemma_mul_bound_30(a: int, b: int)
    requires
        -0x40000000 <= a <= 0x40000000,
        -0x40000000 <= b <= 0x40000000,
    ensures
        -0x1000000000000000 <= a * b <= 0x1000000000000000,
{
    assert(-0x1000000000000000 <= a * b <= 0x1000000000000000) by (nonlinear_arith)
        requires
            -0x40000000 <= a <= 0x40000000,
            -0x40000000 <= b <= 0x40000000,
    ;
}

proof fn lemma_mul_bound_32(a: int, b: int)
    requires
        -0x200000 <= a <= 0x200000,
        -0x100000000 <= b <= 0x100000000,
    ensures
        -0x20000000000000 <= a * b <= 0x20000000000000,
{
    assert(-0x20000000000000 <= a * b <= 0x20000000000000) by (nonlinear_arith)
        requires
            -0x200000 <= a <= 0x200000,
            -0x100000000 <= b <= 0x100000000,
    ;
}

proof fn lemma_polar_bound(c: int, len: int)
    requires
        -ROT_COMP_LIMIT <= c <= ROT_COMP_LIMIT,
        -0x2000000000000 <= len <= 0x2000000000000,
    ensures
        -0x8000000000000000 <= c * len <= 0x8000000000000000,
        -0x8000000000000 <= div_trunc(c * len, ROT_ONE as int) <= 0x8000000000000,
{
    assert(-0x8000000000000000 <= c * len <= 0x8000000000000000) by (nonlinear_arith)
        requires
            -0x4000 <= c <= 0x4000,
            -0x2000000000000 <= len <= 0x2000000000000,
    ;
    let p = c * len;
    if p >= 0 {
        assert(p / 0x1000 <= 0x8000000000000) by (nonlinear_arith)
            requires
                0 <= p <= 0x8000000000000000,
        ;
    } else {
        assert((-p) / 0x1000 <= 0x8000000000000) by (nonlinear_arith)
            requires
                0 <= -p <= 0x8000000000000000,
        ;
    }
}

proof fn lemma_normalize_bound(x: int, y: int, l: int)
    requires
        -0x40000000 <= x <= 0x40000000,
        -0x40000000 <= y <= 0x40000000,
        l >= 1,
    ensures
        -0x4000000000000 <= x * ROT_ONE <= 0x4000000000000,
        -0x4000000000000 <= y * ROT_ONE <= 0x4000000000000,
        -0x4000000000000 <= div_trunc(x * ROT_ONE as int, l) <= 0x4000000000000,
        -0x4000000000000 <= div_trunc(y * ROT_ONE as int, l) <= 0x4000000000000,
{
    assert(-0x4000000000000 <= x * 0x1000 <= 0x4000000000000) by (nonlinear_arith)
        requires
            -0x40000000 <= x <= 0x40000000,
    ;
    assert(-0x4000000000000 <= y * 0x1000 <= 0x4000000000000) by (nonlinear_arith)
        requires
            -0x40000000 <= y <= 0x40000000,
    ;
    lemma_div_trunc_shrinks(x * ROT_ONE as int, l);
    lemma_div_trunc_shrinks(y * ROT_ONE as int, l);
}

/// A square root lower bound: if `a * a <= n` then `a <= spec_isqrt(n)`.
pub proof fn lemma_isqrt_ge_root(a: nat, n: nat)
    requires
        a * a <= n,
    ensures
        a <= spec_isqrt(n),
{
    lemma_isqrt_bounds(n);
    let s = spec_isqrt(n);
    if s < a {
        assert((s + 1) * (s + 1) <= a * a) by (nonlinear_arith)
            requires
                s + 1 <= a,
        ;
    }
}

/// If `|x| <= l` then the normalized component `x * ROT_ONE / l` stays within
/// `ROT_ONE`.
proof fn lemma_normalize_comp(x: int, l: int)
    requires
        l >= 1,
        -l <= x <= l,
    ensures
        -ROT_ONE <= div_trunc(x * ROT_ONE as int, l) <= ROT_ONE,
{
    if x >= 0 {
        assert(0 <= x * 4096 <= l * 4096) by (nonlinear_arith)
            requires
                0 <= x <= l,
        ;
        assert((x * 4096) / l <= (l * 4096) / l) by (nonlinear_arith)
            requires
                l >= 1,
                x * 4096 <= l * 4096,
        ;
        assert((l * 4096) / l == 4096) by (nonlinear_arith)
            requires
                l >= 1,
        ;
    } else {
        let y = -x;
        assert(0 <= y * 4096 <= l * 4096) by (nonlinear_arith)
            requires
                0 <= y <= l,
        ;
        assert((y * 4096) / l <= (l * 4096) / l) by (nonlinear_arith)
            requires
                l >= 1,
                y * 4096 <= l * 4096,
        ;
        assert((l * 4096) / l == 4096) by (nonlinear_arith)
            requires
                l >= 1,
        ;
        assert(y * 4096 == -(x * 4096)) by (nonlinear_arith)
            requires
                y == -x,
        ;
    }
}

/// Dividing `x * k` by `l` stays within `|k|` when `|x| <= l`.
pub proof fn lemma_ratio_div_bound(x: int, k: int, l: int, kb: int)
    requires
        l >= 1,
        -l <= x <= l,
        -kb <= k <= kb,
        kb >= 0,
    ensures
        -(l * kb) <= x * k <= l * kb,
        -kb <= div_trunc(x * k, l) <= kb,
{
    assert(-(l * kb) <= x * k <= l * kb) by (nonlinear_arith)
        requires
            -l <= x <= l,
            -kb <= k <= kb,
            l >= 0,
            kb >= 0,
    ;
    let p = x * k;
    if p >= 0 {
        assert(p / l <= (l * kb) / l) by (nonlinear_arith)
            requires
                l >= 1,
                p <= l * kb,
                p >= 0,
        ;
        assert((l * kb) / l == kb) by (nonlinear_arith)
            requires
                l >= 1,
        ;
        assert(p / l >= 0) by (nonlinear_arith)
            requires
                p >= 0,
                l >= 1,
        ;
    } else {
        let q = -p;
        assert(q / l <= (l * kb) / l) by (nonlinear_arith)
            requires
                l >= 1,
                q <= l * kb,
                q >= 0,
        ;
        assert((l * kb) / l == kb) by (nonlinear_arith)
            requires
                l >= 1,
        ;
        assert(q / l >= 0) by (nonlinear_arith)
            requires
                q >= 0,
                l >= 1,
        ;
    }
}

/// Truncating division by a positive divisor never grows the magnitude.
pub proof fn lemma_div_trunc_shrinks(a: int, b: int)
    requires
        b >= 1,
    ensures
        a >= 0 ==> 0 <= div_trunc(a, b) <= a,
        a < 0 ==> a <= div_trunc(a, b) <= 0,
{
    if a >= 0 {
        assert(0 <= a / b <= a) by (nonlinear_arith)
            requires
                b >= 1,
                a >= 0,
        ;
    } else {
        assert(0 <= (-a) / b <= -a) by (nonlinear_arith)
            requires
                b >= 1,
                -a >= 0,
        ;
    }
}

impl Complex {
    pub open spec fn spec_normalized(v: Vector) -> Complex {
        let n = v.x * v.x + v.y * v.y;
        if spec_isqrt(n as nat) == 0 {
            Complex { r: ROT_ONE, i: 0 }
        } else {
            Complex {
                r: div_trunc(v.x * ROT_ONE, spec_isqrt(n as nat) as int) as i64,
                i: div_trunc(v.y * ROT_ONE, spec_isqrt(n as nat) as int) as i64,
            }
        }
    }

    pub open spec fn spec_lerp_complex(a: Complex, b: Complex, num: int, den: int) -> Complex {
        Complex {
            r: spec_lerp(a.r as int, b.r as int, num, den) as i64,
            i: spec_lerp(a.i as int, b.i as int, num, den) as i64,
        }
    }

    /// Componentwise interpolation between two rotations at `num / den`.
    pub fn lerp(a: Complex, b: Complex, num: i64, den: i64) -> (r: Complex)
        requires
            0 < den <= 0x4000000000000,
            0 <= num <= den,
            rot_in_range(a),
            rot_in_range(b),
        ensures
            r == Complex::spec_lerp_complex(a, b, num as int, den as int),
            rot_in_range(r),
            num == 0 ==> r == a,
            num == den ==> r == b,
    {
        Complex { r: lerp_i64(a.r, b.r, num, den), i: lerp_i64(a.i, b.i, num, den) }
    }

    pub fn inverted_r(self) -> (r: Complex)
        requires
            self.r > i64::MIN,
        ensures
            r.r == -self.r,
            r.i == self.i,
    {
        Complex { r: -self.r, i: self.i }
    }

    pub fn inverted_i(self) -> (r: Complex)
        requires
            self.i > i64::MIN,
        ensures
            r.r == self.r,
            r.i == -self.i,
    {
        Complex { r: self.r, i: -self.i }
    }

    pub fn neg(self) -> (r: Complex)
        requires
            self.r > i64::MIN,
            self.i > i64::MIN,
        ensures
            r.r == -self.r,
            r.i == -self.i,
    {
        Complex { r: -self.r, i: -self.i }
    }

    /// Rotation by a quarter turn counter-clockwise: multiplication by the
    /// imaginary unit.
    pub fn mul_i(self) -> (r: Complex)
        requires
            rot_in_range(self),
        ensures
            r.r == -self.i,
            r.i == self.r,
            rot_in_range(r),
    {
        Complex { r: -self.i, i: self.r }
    }

    /// Rotation by a quarter turn clockwise: multiplication by the negated
    /// imaginary unit.
    pub fn mul_neg_i(self) -> (r: Complex)
        requires
            rot_in_range(self),
        ensures
            r.r == self.i,
            r.i == -self.r,
            rot_in_range(r),
    {
        Complex { r: self.i, i: -self.r }
    }
}

/// Denominator of the parametric line intersection of `a` and `b`:
/// the cross product of the two direction vectors.
pub open spec fn rc_den(a: Segment, b: Segment) -> int {
    (a.p1.x - a.p0.x) * (b.p1.y - b.p0.y) - (a.p1.y - a.p0.y) * (b.p1.x - b.p0.x)
}

/// Numerator of the scalar `t` along `a` at which the carrying lines meet.
pub open spec fn rc_t_num(a: Segment, b: Segment) -> int {
    (b.p0.x - a.p0.x) * (b.p1.y - b.p0.y) - (b.p0.y - a.p0.y) * (b.p1.x - b.p0.x)
}

/// Numerator of the scalar `u` along `b` at which the carrying lines meet.
pub open spec fn rc_u_num(a: Segment, b: Segment) -> int {
    (b.p0.x - a.p0.x) * (a.p1.y - a.p0.y) - (b.p0.y - a.p0.y) * (a.p1.x - a.p0.x)
}

/// Sign-normalized denominator (always non-negative).
pub open spec fn rc_den_n(a: Segment, b: Segment) -> int {
    if rc_den(a, b) >= 0 {
        rc_den(a, b)
    } else {
        -rc_den(a, b)
    }
}

pub open spec fn rc_t_n(a: Segment, b: Segment) -> int {
    if rc_den(a, b) >= 0 {
        rc_t_num(a, b)
    } else {
        -rc_t_num(a, b)
    }
}

pub open spec fn rc_u_n(a: Segment, b: Segment) -> int {
    if rc_den(a, b) >= 0 {
        rc_u_num(a, b)
    } else {
        -rc_u_num(a, b)
    }
}

/// The carrying lines cross strictly inside both segments: both parameters
/// lie in the open unit interval.
pub open spec fn spec_strict_hit(a: Segment, b: Segment) -> bool {
    &&& rc_den(a, b) != 0
    &&& 0 < rc_t_n(a, b) < rc_den_n(a, b)
    &&& 0 < rc_u_n(a, b) < rc_den_n(a, b)
}

/// The closed-interval variant: endpoint touches count as hits.
pub open spec fn spec_including_hit(a: Segment, b: Segment) -> bool {
    &&& rc_den(a, b) != 0
    &&& 0 <= rc_t_n(a, b) <= rc_den_n(a, b)
    &&& 0 <= rc_u_n(a, b) <= rc_den_n(a, b)
}

/// Parametric scalars of a line-line intersection, kept as exact rationals
/// `t = t_num / den` and `u = u_num / den` with a positive denominator.
pub struct RayCastScalars {
    pub segments: (Segment, Segment),
    pub t_num: i64,
    pub u_num: i64,
    pub den: i64,
}

impl RayCastScalars {
    pub open spec fn wf(self) -> bool {
        &&& segment_in_range(self.segments.0)
        &&& segment_in_range(self.segments.1)
        &&& rc_den(self.segments.0, self.segments.1) != 0
        &&& self.den == rc_den_n(self.segments.0, self.segments.1)
        &&& self.t_num == rc_t_n(self.segments.0, self.segments.1)
        &&& self.u_num == rc_u_n(self.segments.0, self.segments.1)
        &&& 0 < self.den <= 0x40000000000
        &&& -0x40000000000 <= self.t_num <= 0x40000000000
        &&& -0x40000000000 <= self.u_num <= 0x40000000000
    }

    pub fn intersects(&self) -> (r: bool)
        requires
            self.wf(),
        ensures
            r == spec_strict_hit(self.segments.0, self.segments.1),
    {
        0 < self.t_num && self.t_num < self.den && 0 < self.u_num && self.u_num < self.den
    }

    pub fn intersects_including(&self) -> (r: bool)
        requires
            self.wf(),
        ensures
            r == spec_including_hit(self.segments.0, self.segments.1),
    {
        0 <= self.t_num && self.t_num <= self.den && 0 <= self.u_num && self.u_num <= self.den
    }

    /// The intersection point, computed along the first segment.
    pub fn intersection_point(&self) -> (r: Point)
        requires
            self.wf(),
            0 <= self.t_num <= self.den,
        ensures
            (r == Point::spec_lerp_point(
                self.segments.0.p0,
                self.segments.0.p1,
                self.t_num as int,
                self.den as int,
            )),
            point_in_range(r),
    {
        Point::lerp(self.segments.0.p0, self.segments.0.p1, self.t_num, self.den)
    }

    /// The point a fraction `mul_num / mul_den` of the way along the second
    /// segment toward the intersection.
    pub fn intersection_point_u_scaled(&self, mul_num: i64, mul_den: i64) -> (r: Point)
        requires
            self.wf(),
            0 <= self.u_num <= self.den,
            0 < mul_den <= 128,
            0 <= mul_num <= mul_den,
        ensures
            (r == Point::spec_lerp_point(
                self.segments.1.p0,
                self.segments.1.p1,
                self.u_num * mul_num,
                self.den * mul_den,
            )),
            point_in_range(r),
    {
        proof {
            assert(0 <= self.u_num * mul_num) by (nonlinear_arith)
                requires
                    0 <= self.u_num,
                    0 <= mul_num,
            ;
            assert(self.u_num * mul_num <= self.den * mul_den) by (nonlinear_arith)
                requires
                    0 <= self.u_num <= self.den,
                    0 <= mul_num <= mul_den,
            ;
            assert(0 < self.den * mul_den <= 0x4000000000000) by (nonlinear_arith)
                requires
                    0 < self.den <= 0x40000000000,
                    0 < mul_den <= 128,
            ;
        }
        Point::lerp(self.segments.1.p0, self.segments.1.p1, self.u_num * mul_num, self.den
            * mul_den)
    }
}

/// Bound on the cross product of two vectors of bounded components.
proof fn lemma_cross_range(ax: int, ay: int, bx: int, bb: int)
    requires
        -0x100000 <= ax <= 0x100000,
        -0x100000 <= ay <= 0x100000,
        -0x100000 <= bx <= 0x100000,
        -0x100000 <= bb <= 0x100000,
    ensures
        -0x40000000000 <= ax * bb - ay * bx <= 0x40000000000,
{
    assert(-0x10000000000 <= ax * bb <= 0x10000000000) by (nonlinear_arith)
        requires
            -0x100000 <= ax <= 0x100000,
            -0x100000 <= bb <= 0x100000,
    ;
    assert(-0x10000000000 <= ay * bx <= 0x10000000000) by (nonlinear_arith)
        requires
            -0x100000 <= ay <= 0x100000,
            -0x100000 <= bx <= 0x100000,
    ;
}

impl Segment {
    /// Direction vector of the segment.
    pub fn vec(self) -> (r: Vector)
        requires
            segment_in_range(self),
        ensures
            r.x == self.p1.x - self.p0.x,
            r.y == self.p1.y - self.p0.y,
    {
        self.p1.sub(self.p0)
    }

    /// Parametric intersection scalars of the carrying lines of `self` and
    /// `rhs`; `None` when the lines are parallel.
    pub fn ray_cast(self, rhs: Segment) -> (r: Option<RayCastScalars>)
        requires
            segment_in_range(self),
            segment_in_range(rhs),
        ensures
            r is None <==> rc_den(self, rhs) == 0,
            r is Some ==> r.unwrap().wf() && r.unwrap().segments == (self, rhs),
    {
        let ab = self.vec();
        let cd = rhs.vec();
        let ac = rhs.p0.sub(self.p0);
        let den0: i64 = ab.cross(cd);
        let t0: i64 = ac.cross(cd);
        let u0: i64 = ac.cross(ab);
        proof {
            lemma_cross_range(ab.x as int, ab.y as int, cd.x as int, cd.y as int);
            lemma_cross_range(ac.x as int, ac.y as int, cd.x as int, cd.y as int);
            lemma_cross_range(ac.x as int, ac.y as int, ab.x as int, ab.y as int);
        }
        if den0 == 0 {
            None
        } else if den0 > 0 {
            Some(RayCastScalars { segments: (self, rhs), t_num: t0, u_num: u0, den: den0 })
        } else {
            Some(RayCastScalars { segments: (self, rhs), t_num: -t0, u_num: -u0, den: -den0 })
        }
    }
}

pub open spec fn spec_rect_points(r: Rect) -> Seq<Point> {
    seq![
        Point { x: r.x, y: r.y },
        Point { x: (r.x + r.w) as i64, y: r.y },
        Point { x: (r.x + r.w) as i64, y: (r.y + r.h) as i64 },
        Point { x: r.x, y: (r.y + r.h) as i64 },
    ]
}

/// The four edges of a rectangle in order: top, right, bottom, left.
pub open spec fn spec_rect_edges(r: Rect) -> Seq<Segment> {
    let p = spec_rect_points(r);
    seq![
        Segment { p0: p[0], p1: p[1] },
        Segment { p0: p[1], p1: p[2] },
        Segment { p0: p[2], p1: p[3] },
        Segment { p0: p[3], p1: p[0] },
    ]
}

impl Rect {
    pub fn points(self) -> (r: Vec<Point>)
        requires
            rect_wf(self),
        ensures
            r@ == spec_rect_points(self),
            r@.len() == 4,
            forall|i: int| 0 <= i < 4 ==> point_in_range(#[trigger] r@[i]),
    {
        let mut v: Vec<Point> = Vec::new();
        v.push(Point { x: self.x, y: self.y });
        v.push(Point { x: self.x + self.w, y: self.y });
        v.push(Point { x: self.x + self.w, y: self.y + self.h });
        v.push(Point { x: self.x, y: self.y + self.h });
        proof {
            assert(v@ =~= spec_rect_points(self));
        }
        v
    }

    pub fn edges(self) -> (r: Vec<Segment>)
        requires
            rect_wf(self),
        ensures
            r@ == spec_rect_edges(self),
            r@.len() == 4,
            forall|i: int| 0 <= i < 4 ==> segment_in_range(#[trigger] r@[i]),
    {
        let p = self.points();
        let mut v: Vec<Segment> = Vec::new();
        v.push(Segment { p0: p[0], p1: p[1] });
        v.push(Segment { p0: p[1], p1: p[2] });
        v.push(Segment { p0: p[2], p1: p[3] });
        v.push(Segment { p0: p[3], p1: p[0] });
        proof {
            assert(v@ =~= spec_rect_edges(self));
        }
        v
    }
}

/// The closed ring of segments through a polygon's points.
pub open spec fn spec_segments_ringe(ps: Seq<Point>) -> Seq<Segment> {
    Seq::new(ps.len(), |i: int| Segment { p0: ps[i], p1: ps[(i + 1) % ps.len() as int] })
}

pub fn segments_ringe(ps: &Vec<Point>) -> (r: Vec<Segment>)
    ensures
        r@ == spec_segments_ringe(ps@),
{
    let mut v: Vec<Segment> = Vec::new();
    let n: usize = ps.len();
    let mut i: usize = 0;
    while i < n
        invariant
            0 <= i <= n,
            n == ps@.len(),
            v@.len() == i,
            forall|j: int| 0 <= j < i ==> v@[j] == spec_segments_ringe(ps@)[j],
        decreases n - i,
    {
        let nxt: usize = if i + 1 == n {
            0
        } else {
            i + 1
        };
        proof {
            if i + 1 == n {
                assert((i + 1) % (n as int) == 0) by (nonlinear_arith)
                    requires
                        i + 1 == n as int,
                        n as int > 0,
                ;
            } else {
                assert((i + 1) % (n as int) == i + 1) by (nonlinear_arith)
                    requires
                        0 <= i + 1 < n as int,
                ;
            }
        }
        v.push(Segment { p0: ps[i], p1: ps[nxt] });
        i = i + 1;
    }
    proof {
        assert(v@ =~= spec_segments_ringe(ps@));
    }
    v
}

/// The open chain of segments between consecutive points.
pub open spec fn spec_segments_chain(ps: Seq<Point>) -> Seq<Segment> {
    if ps.len() == 0 {
        Seq::empty()
    } else {
        Seq::new((ps.len() - 1) as nat, |i: int| Segment { p0: ps[i], p1: ps[i + 1] })
    }
}

pub fn segments(ps: &Vec<Point>) -> (r: Vec<Segment>)
    ensures
        r@ == spec_segments_chain(ps@),
{
    let mut v: Vec<Segment> = Vec::new();
    let n: usize = ps.len();
    let mut i: usize = 1;
    while i < n
        invariant
            1 <= i <= n || (n == 0 && i == 1),
            n == ps@.len(),
            n > 0 ==> v@.len() == i - 1,
            n == 0 ==> v@.len() == 0,
            forall|j: int| 0 <= j < v@.len() ==> v@[j] == spec_segments_chain(ps@)[j],
        decreases n - i,
    {
        v.push(Segment { p0: ps[i - 1], p1: ps[i] });
        i = i + 1;
    }
    proof {
        assert(v@ =~= spec_segments_chain(ps@));
    }
    v
}

/// Mirror image of a rotation across the line carrying direction `d`,
/// components clamped into the rotation range. Identity when `d` is zero.
pub open spec fn spec_reflect_from(z: Complex, d: Vector) -> Complex {
    let wr = d.x * d.x - d.y * d.y;
    let wi = 2 * d.x * d.y;
    let den = d.x * d.x + d.y * d.y;
    if den == 0 {
        z
    } else {
        Complex {
            r: spec_clamp(
                div_trunc(wr * z.r + wi * z.i, den),
                -ROT_COMP_LIMIT as int,
                ROT_COMP_LIMIT as int,
            ) as i64,
            i: spec_clamp(
                div_trunc(wi * z.r - wr * z.i, den),
                -ROT_COMP_LIMIT as int,
                ROT_COMP_LIMIT as int,
            ) as i64,
        }
    }
}

impl Complex {
    pub fn reflect_from(self, d: Vector) -> (r: Complex)
        requires
            rot_in_range(self),
            -0x200000 <= d.x <= 0x200000,
            -0x200000 <= d.y <= 0x200000,
        ensures
            r == spec_reflect_from(self, d),
            rot_in_range(r),
    {
        proof {
            assert(0 <= d.x * d.x + d.y * d.y <= 0x80000000000 && -0x40000000000 <= d.x * d.x - d.y
                * d.y <= 0x40000000000 && -0x80000000000 <= 2 * d.x * d.y <= 0x80000000000)
                by (nonlinear_arith)
                requires
                    -0x200000 <= d.x <= 0x200000,
                    -0x200000 <= d.y <= 0x200000,
            ;
        }
        let wr: i64 = d.x * d.x - d.y * d.y;
        let wi: i64 = 2 * d.x * d.y;
        let den: i64 = d.x * d.x + d.y * d.y;
        if den == 0 {
            self
        } else {
            proof {
                assert(-0x2000000000000000 <= wr as int * self.r as int <= 0x2000000000000000)
                    by (nonlinear_arith)
                    requires
                        -0x80000000000 <= wr <= 0x80000000000,
                        -0x4000 <= self.r <= 0x4000,
                ;
                assert(-0x2000000000000000 <= wi as int * self.i as int <= 0x2000000000000000)
                    by (nonlinear_arith)
                    requires
                        -0x80000000000 <= wi <= 0x80000000000,
                        -0x4000 <= self.i <= 0x4000,
                ;
                assert(-0x2000000000000000 <= wi as int * self.r as int <= 0x2000000000000000)
                    by (nonlinear_arith)
                    requires
                        -0x80000000000 <= wi <= 0x80000000000,
                        -0x4000 <= self.r <= 0x4000,
                ;
                assert(-0x2000000000000000 <= wr as int * self.i as int <= 0x2000000000000000)
                    by (nonlinear_arith)
                    requires
                        -0x80000000000 <= wr <= 0x80000000000,
                        -0x4000 <= self.i <= 0x4000,
                ;
            }
            let nr: i128 = wr as i128 * self.r as i128 + wi as i128 * self.i as i128;
            let ni: i128 = wi as i128 * self.r as i128 - wr as i128 * self.i as i128;
            let qr: i128 = div_trunc_i128(nr, den as i128);
            let qi: i128 = div_trunc_i128(ni, den as i128);
            Complex {
                r: clamp_i64(qr as i64, -ROT_COMP_LIMIT, ROT_COMP_LIMIT),
                i: clamp_i64(qi as i64, -ROT_COMP_LIMIT, ROT_COMP_LIMIT),
            }
        }
    }
}

/// Fixed-point sine of an angle between 0 and 180 degrees, by the rational
/// approximation `4 d (180 - d) / (40500 - d (180 - d))`, scaled by `ROT_ONE`.
pub open spec fn spec_sin_half(d: int) -> int {
    div_trunc(4 * (d * (180 - d)) * ROT_ONE, 40500 - d * (180 - d))
}

/// Fixed-point sine of an angle between 0 and 360 degrees.
pub open spec fn spec_sin_deg(d: int) -> int {
    if d <= 180 {
        spec_sin_half(d)
    } else {
        -spec_sin_half(d - 180)
    }
}

/// Fixed-point cosine, as the sine shifted by a quarter turn.
pub open spec fn spec_cos_deg(d: int) -> int {
    spec_sin_deg((d + 90) % 360)
}

proof fn lemma_sin_half_bounds(d: int)
    requires
        0 <= d <= 180,
    ensures
        0 <= d * (180 - d) <= 8100,
        0 <= spec_sin_half(d) <= ROT_ONE,
{
    let x = d * (180 - d);
    assert(0 <= d * (180 - d) <= 8100) by (nonlinear_arith)
        requires
            0 <= d <= 180,
    ;
    let num = 4 * x * ROT_ONE as int;
    let den = 40500 - x;
    assert(num <= den * 4096) by (nonlinear_arith)
        requires
            0 <= x <= 8100,
            num == 4 * x * 4096,
            den == 40500 - x,
    ;
    assert(num / den <= (den * 4096) / den) by (nonlinear_arith)
        requires
            den >= 1,
            num <= den * 4096,
            num >= 0,
    ;
    assert((den * 4096) / den == 4096) by (nonlinear_arith)
        requires
            den >= 1,
    ;
    assert(num / den >= 0) by (nonlinear_arith)
        requires
            num >= 0,
            den >= 1,
    ;
}

/// Executable fixed-point sine for angles up to 360 degrees.
pub fn sin_deg(deg: u64) -> (r: i64)
    requires
        deg <= 360,
    ensures
        r == spec_sin_deg(deg as int),
        -ROT_ONE <= r <= ROT_ONE,
{
    if deg <= 180 {
        let d: u64 = deg;
        proof {
            lemma_sin_half_bounds(d as int);
        }
        let x: u64 = d * (180 - d);
        let q: u64 = (4 * x * 4096) / (40500 - x);
        q as i64
    } else {
        let d: u64 = deg - 180;
        proof {
            lemma_sin_half_bounds(d as int);
        }
        let x: u64 = d * (180 - d);
        let q: u64 = (4 * x * 4096) / (40500 - x);
        -(q as i64)
    }
}

/// Executable fixed-point cosine.
pub fn cos_deg(deg: u64) -> (r: i64)
    requires
        deg <= 360,
    ensures
        r == spec_cos_deg(deg as int),
        -ROT_ONE <= r <= ROT_ONE,
{
    sin_deg((deg + 90) % 360)
}

/// Rotation pointing `num / den` of a full turn counter-clockwise from the
/// positive real axis.
pub open spec fn spec_from_turn_fraction(num: int, den: int) -> Complex {
    let deg = div_trunc(num * 360, den);
    Complex { r: spec_cos_deg(deg) as i64, i: spec_sin_deg(deg) as i64 }
}

pub fn from_turn_fraction(num: u64, den: u64) -> (r: Complex)
    requires
        0 < den <= 1000,
        num < den,
    ensures
        r == spec_from_turn_fraction(num as int, den as int),
        rot_in_range(r),
        -ROT_ONE <= r.r <= ROT_ONE,
        -ROT_ONE <= r.i <= ROT_ONE,
{
    let deg: u64 = num * 360 / den;
    assert(deg < 360) by (nonlinear_arith)
        requires
            deg as int == (num as int * 360) / den as int,
            num < den,
            0 < den <= 1000,
    ;
    Complex { r: cos_deg(deg), i: sin_deg(deg) }
}



/// The fourteen outline points of a heart shape of scale `k` centered near
/// `p`, used to draw health markers.
pub open spec fn spec_heart_vertices(p: Point, k: int) -> Seq<Point> {
    seq![
        Point { x: p.x, y: (p.y - k) as i64 },
        Point { x: (p.x + k) as i64, y: (p.y - k * 2) as i64 },
        Point { x: (p.x + k * 2) as i64, y: (p.y - k * 2) as i64 },
        Point { x: (p.x + k * 3) as i64, y: (p.y - k) as i64 },
        Point { x: (p.x + k * 3) as i64, y: p.y },
        Point { x: (p.x + k * 2) as i64, y: (p.y + k) as i64 },
        Point { x: (p.x + k) as i64, y: (p.y + k * 2) as i64 },
        Point { x: p.x, y: (p.y + k * 3) as i64 },
        Point { x: (p.x - k) as i64, y: (p.y + k * 2) as i64 },
        Point { x: (p.x - k * 2) as i64, y: (p.y + k) as i64 },
        Point { x: (p.x - k * 3) as i64, y: p.y },
        Point { x: (p.x - k * 3) as i64, y: (p.y - k) as i64 },
        Point { x: (p.x - k * 2) as i64, y: (p.y - k * 2) as i64 },
        Point { x: (p.x - k) as i64, y: (p.y - k * 2) as i64 },
    ]
}

/// The heart outline, executable.
pub fn heart_vertices(p: Point, k: i64) -> (r: Vec<Point>)
    requires
        point_in_range(p),
        0 <= k <= 100000,
    ensures
        r@ == spec_heart_vertices(p, k as int),
        r@.len() == 14,
{
    let mut v: Vec<Point> = Vec::new();
    v.push(Point { x: p.x, y: p.y - k });
    v.push(Point { x: p.x + k, y: p.y - k * 2 });
    v.push(Point { x: p.x + k * 2, y: p.y - k * 2 });
    v.push(Point { x: p.x + k * 3, y: p.y - k });
    v.push(Point { x: p.x + k * 3, y: p.y });
    v.push(Point { x: p.x + k * 2, y: p.y + k });
    v.push(Point { x: p.x + k, y: p.y + k * 2 });
    v.push(Point { x: p.x, y: p.y + k * 3 });
    v.push(Point { x: p.x - k, y: p.y + k * 2 });
    v.push(Point { x: p.x - k * 2, y: p.y + k });
    v.push(Point { x: p.x - k * 3, y: p.y });
    v.push(Point { x: p.x - k * 3, y: p.y - k });
    v.push(Point { x: p.x - k * 2, y: p.y - k * 2 });
    v.push(Point { x: p.x - k, y: p.y - k * 2 });
    proof {
        assert(v@ =~= spec_heart_vertices(p, k as int));
    }
    v
}

} // verus!
