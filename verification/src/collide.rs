use vstd::prelude::*;

use crate::math::COORD_LIMIT;
use crate::math::Point;
use crate::math::Segment;
use crate::math::Vector;
use crate::math::div_trunc;
use crate::math::div_trunc_i128;
use crate::math::point_in_range;
use crate::math::segment_in_range;
use crate::math::spec_clamp;

verus! {

// Separating-axis collision between two convex shapes given as segment lists.
// Every edge of either shape contributes one candidate axis, its left
// perpendicular. Both shapes are projected onto each axis; a gap on any axis
// means no collision, and otherwise the exit vector is taken along the axis
// of least penetration.
/// The left perpendicular of a segment's direction vector: the candidate
/// separating axis the segment contributes.
pub open spec fn spec_axis_of(s: Segment) -> Vector {
    Vector { x: (s.p0.y - s.p1.y) as i64, y: (s.p1.x - s.p0.x) as i64 }
}

pub open spec fn spec_zero_axis(v: Vector) -> bool {
    v.x == 0 && v.y == 0
}

/// The candidate axis with index `i`, counting first the edges of `a`, then
/// those of `b`.
pub open spec fn spec_axis_at(a: Seq<Segment>, b: Seq<Segment>, i: int) -> Vector {
    if i < a.len() {
        spec_axis_of(a[i])
    } else {
        spec_axis_of(b[i - a.len()])
    }
}

/// Scalar projection of a point onto an axis, scaled by the axis length.
pub open spec fn sproj(p: Point, v: Vector) -> int {
    p.x * v.x + p.y * v.y
}

pub open spec fn spec_min(a: int, b: int) -> int {
    if a < b {
        a
    } else {
        b
    }
}

pub open spec fn spec_max(a: int, b: int) -> int {
    if a > b {
        a
    } else {
        b
    }
}

pub open spec fn seg_lo(s: Segment, v: Vector) -> int {
    spec_min(sproj(s.p0, v), sproj(s.p1, v))
}

pub open spec fn seg_hi(s: Segment, v: Vector) -> int {
    spec_max(sproj(s.p0, v), sproj(s.p1, v))
}

/// Least scalar projection of any endpoint of the shape.
pub open spec fn shape_lo(sh: Seq<Segment>, v: Vector) -> int
    decreases sh.len(),
{
    if sh.len() == 0 {
        0
    } else if sh.len() == 1 {
        seg_lo(sh[0], v)
    } else {
        spec_min(shape_lo(sh.drop_last(), v), seg_lo(sh.last(), v))
    }
}

/// Greatest scalar projection of any endpoint of the shape.
pub open spec fn shape_hi(sh: Seq<Segment>, v: Vector) -> int
    decreases sh.len(),
{
    if sh.len() == 0 {
        0
    } else if sh.len() == 1 {
        seg_hi(sh[0], v)
    } else {
        spec_max(shape_hi(sh.drop_last(), v), seg_hi(sh.last(), v))
    }
}

/// The projected intervals of the two shapes onto `v` intersect (closed
/// intervals).
pub open spec fn spec_axis_overlaps(a: Seq<Segment>, b: Seq<Segment>, v: Vector) -> bool {
    shape_lo(a, v) <= shape_hi(b, v) && shape_lo(b, v) <= shape_hi(a, v)
}

pub open spec fn spec_abs(a: int) -> int {
    if a < 0 {
        -a
    } else {
        a
    }
}

/// The signed overlap of the two projected intervals: of the two ways out,
/// the one of smaller magnitude (scaled by the axis length).
pub open spec fn spec_axis_exit_num(a: Seq<Segment>, b: Seq<Segment>, v: Vector) -> int {
    let c1 = shape_hi(b, v) - shape_lo(a, v);
    let c2 = shape_lo(b, v) - shape_hi(a, v);
    if spec_abs(c1) < spec_abs(c2) {
        c1
    } else {
        c2
    }
}

/// Squared axis length, the denominator of the exact exit vector.
pub open spec fn spec_axis_den(v: Vector) -> int {
    v.x * v.x + v.y * v.y
}

/// All candidate axes are usable and show overlap: the shapes collide.
pub open spec fn spec_shapes_collide(a: Seq<Segment>, b: Seq<Segment>) -> bool {
    forall|i: int|
        0 <= i < a.len() + b.len() ==> (!spec_zero_axis(#[trigger] spec_axis_at(a, b, i))
            && spec_axis_overlaps(a, b, spec_axis_at(a, b, i)))
}

/// The penetration along axis `i` is no deeper than along axis `j`, compared
/// as exact rationals `num^2 / den` by cross-multiplication.
pub open spec fn spec_axis_le(a: Seq<Segment>, b: Seq<Segment>, i: int, j: int) -> bool {
    let oi = spec_axis_exit_num(a, b, spec_axis_at(a, b, i));
    let oj = spec_axis_exit_num(a, b, spec_axis_at(a, b, j));
    oi * oi * spec_axis_den(spec_axis_at(a, b, j)) <= oj * oj * spec_axis_den(
        spec_axis_at(a, b, i),
    )
}

/// Index of the axis of least penetration among the first `n` axes; ties
/// resolve to the axis of largest index.
pub open spec fn spec_best_axis(a: Seq<Segment>, b: Seq<Segment>, n: int) -> int
    decreases n,
{
    if n <= 1 {
        0
    } else {
        let p = spec_best_axis(a, b, n - 1);
        if spec_axis_le(a, b, n - 1, p) {
            n - 1
        } else {
            p
        }
    }
}

/// An exit vector as an exact rational multiple of a candidate axis:
/// `axis * num / den` with `den` the squared axis length.
#[derive(Clone, Copy, PartialEq, Eq, Structural, Debug)]
pub struct ExitVector {
    pub axis: Vector,
    pub num: i64,
    pub den: i64,
}

/// The translated point `p + axis * num / den`, each component rounded
/// toward zero and clamped into the coordinate range.
pub open spec fn spec_exit_apply(e: ExitVector, p: Point) -> Point {
    Point {
        x: spec_clamp(
            p.x + div_trunc(e.axis.x * e.num, e.den as int),
            -COORD_LIMIT as int,
            COORD_LIMIT as int,
        ) as i64,
        y: spec_clamp(
            p.y + div_trunc(e.axis.y * e.num, e.den as int),
            -COORD_LIMIT as int,
            COORD_LIMIT as int,
        ) as i64,
    }
}

impl ExitVector {
    pub open spec fn wf(self) -> bool {
        &&& 0 < self.den <= 0x20000000000
        &&& -0x20000000000 <= self.num <= 0x20000000000
        &&& -0x100000 <= self.axis.x <= 0x100000
        &&& -0x100000 <= self.axis.y <= 0x100000
    }

    /// Push a point out along the exit vector.
    pub fn apply_to(&self, p: Point) -> (r: Point)
        requires
            self.wf(),
            point_in_range(p),
        ensures
            r == spec_exit_apply(*self, p),
            point_in_range(r),
    {
        proof {
            assert(-0x8000000000000000 <= self.axis.x * self.num <= 0x8000000000000000)
                by (nonlinear_arith)
                requires
                    -0x100000 <= self.axis.x <= 0x100000,
                    -0x20000000000 <= self.num <= 0x20000000000,
            ;
            assert(-0x8000000000000000 <= self.axis.y * self.num <= 0x8000000000000000)
                by (nonlinear_arith)
                requires
                    -0x100000 <= self.axis.y <= 0x100000,
                    -0x20000000000 <= self.num <= 0x20000000000,
            ;
        }
        let dx: i128 = div_trunc_i128(self.axis.x as i128 * self.num as i128, self.den as i128);
        let dy: i128 = div_trunc_i128(self.axis.y as i128 * self.num as i128, self.den as i128);
        let nx: i128 = p.x as i128 + dx;
        let ny: i128 = p.y as i128 + dy;
        let cx: i128 = if nx < -(COORD_LIMIT as i128) {
            -(COORD_LIMIT as i128)
        } else if nx > COORD_LIMIT as i128 {
            COORD_LIMIT as i128
        } else {
            nx
        };
        let cy: i128 = if ny < -(COORD_LIMIT as i128) {
            -(COORD_LIMIT as i128)
        } else if ny > COORD_LIMIT as i128 {
            COORD_LIMIT as i128
        } else {
            ny
        };
        Point { x: cx as i64, y: cy as i64 }
    }
}

/// Scalar projection of a point, executable.
fn proj_point(p: Point, v: Vector) -> (r: i64)
    requires
        point_in_range(p),
        -0x100000 <= v.x <= 0x100000,
        -0x100000 <= v.y <= 0x100000,
    ensures
        r == sproj(p, v),
        -0x10000000000 <= r <= 0x10000000000,
{
    proof {
        assert(-0x8000000000 <= p.x * v.x <= 0x8000000000) by (nonlinear_arith)
            requires
                -0x80000 <= p.x <= 0x80000,
                -0x100000 <= v.x <= 0x100000,
        ;
        assert(-0x8000000000 <= p.y * v.y <= 0x8000000000) by (nonlinear_arith)
            requires
                -0x80000 <= p.y <= 0x80000,
                -0x100000 <= v.y <= 0x100000,
        ;
    }
    p.x * v.x + p.y * v.y
}

/// The projected interval of a whole shape onto an axis.
fn project_shape(sh: &Vec<Segment>, v: Vector) -> (r: (i64, i64))
    requires
        sh@.len() >= 1,
        forall|i: int| 0 <= i < sh@.len() ==> segment_in_range(#[trigger] sh@[i]),
        -0x100000 <= v.x <= 0x100000,
        -0x100000 <= v.y <= 0x100000,
    ensures
        r.0 == shape_lo(sh@, v),
        r.1 == shape_hi(sh@, v),
        -0x10000000000 <= r.0 <= 0x10000000000,
        -0x10000000000 <= r.1 <= 0x10000000000,
{
    let s0 = sh[0];
    let a0: i64 = proj_point(s0.p0, v);
    let b0: i64 = proj_point(s0.p1, v);
    let mut lo: i64 = if a0 < b0 {
        a0
    } else {
        b0
    };
    let mut hi: i64 = if a0 > b0 {
        a0
    } else {
        b0
    };
    let mut i: usize = 1;
    assert(sh@.subrange(0, 1) =~= seq![sh@[0]]);
    while i < sh.len()
        invariant
            1 <= i <= sh@.len(),
            forall|j: int| 0 <= j < sh@.len() ==> segment_in_range(#[trigger] sh@[j]),
            -0x100000 <= v.x <= 0x100000,
            -0x100000 <= v.y <= 0x100000,
            lo == shape_lo(sh@.subrange(0, i as int), v),
            hi == shape_hi(sh@.subrange(0, i as int), v),
            -0x10000000000 <= lo <= 0x10000000000,
            -0x10000000000 <= hi <= 0x10000000000,
        decreases sh@.len() - i,
    {
        let s = sh[i];
        let a: i64 = proj_point(s.p0, v);
        let b: i64 = proj_point(s.p1, v);
        let slo: i64 = if a < b {
            a
        } else {
            b
        };
        let shi: i64 = if a > b {
            a
        } else {
            b
        };
        proof {
            let pre = sh@.subrange(0, i as int);
            let cur = sh@.subrange(0, i + 1);
            assert(cur.drop_last() =~= pre);
            assert(cur.last() == sh@[i as int]);
        }
        if slo < lo {
            lo = slo;
        }
        if shi > hi {
            hi = shi;
        }
        i = i + 1;
    }
    proof {
        assert(sh@.subrange(0, sh@.len() as int) =~= sh@);
    }
    (lo, hi)
}

/// Separating-axis collision test. Returns the exit vector along the axis of
/// least penetration when the shapes collide on every candidate axis, and
/// `None` when some axis shows a gap or a degenerate edge contributes no
/// axis.
pub fn collide(lhs: &Vec<Segment>, rhs: &Vec<Segment>) -> (r: Option<ExitVector>)
    requires
        lhs@.len() >= 1,
        rhs@.len() >= 1,
        lhs@.len() + rhs@.len() <= 0x10000,
        forall|i: int| 0 <= i < lhs@.len() ==> segment_in_range(#[trigger] lhs@[i]),
        forall|i: int| 0 <= i < rhs@.len() ==> segment_in_range(#[trigger] rhs@[i]),
    ensures
        r is Some <==> spec_shapes_collide(lhs@, rhs@),
        r is Some ==> ({
            let k = spec_best_axis(lhs@, rhs@, lhs@.len() + rhs@.len() as int);
            let v = spec_axis_at(lhs@, rhs@, k);
            &&& r.unwrap().axis == v
            &&& r.unwrap().num == spec_axis_exit_num(lhs@, rhs@, v)
            &&& r.unwrap().den == spec_axis_den(v)
            &&& r.unwrap().wf()
        }),
{
    let n0: usize = lhs.len();
    let n1: usize = rhs.len();
    let n: usize = n0 + n1;
    let mut best: Option<ExitVector> = None;
    let ghost mut best_idx: int = 0;
    let mut i: usize = 0;
    while i < n
        invariant
            0 <= i <= n,
            n == n0 + n1,
            n0 == lhs@.len(),
            n1 == rhs@.len(),
            n0 >= 1,
            n1 >= 1,
            n <= 0x10000,
            forall|j: int| 0 <= j < lhs@.len() ==> segment_in_range(#[trigger] lhs@[j]),
            forall|j: int| 0 <= j < rhs@.len() ==> segment_in_range(#[trigger] rhs@[j]),
            forall|j: int|
                0 <= j < i ==> (!spec_zero_axis(#[trigger] spec_axis_at(lhs@, rhs@, j))
                    && spec_axis_overlaps(lhs@, rhs@, spec_axis_at(lhs@, rhs@, j))),
            i == 0 ==> best is None,
            i > 0 ==> best is Some,
            i > 0 ==> best_idx == spec_best_axis(lhs@, rhs@, i as int),
            best is Some ==> ({
                let v = spec_axis_at(lhs@, rhs@, best_idx);
                &&& 0 <= best_idx < i
                &&& best.unwrap().axis == v
                &&& best.unwrap().num == spec_axis_exit_num(lhs@, rhs@, v)
                &&& best.unwrap().den == spec_axis_den(v)
                &&& best.unwrap().wf()
            }),
        decreases n - i,
    {
        let seg: Segment = if i < n0 {
            lhs[i]
        } else {
            rhs[i - n0]
        };
        let axis = Vector { x: seg.p0.y - seg.p1.y, y: seg.p1.x - seg.p0.x };
        proof {
            assert(axis == spec_axis_at(lhs@, rhs@, i as int));
        }
        if axis.x == 0 && axis.y == 0 {
            proof {
                assert(spec_zero_axis(spec_axis_at(lhs@, rhs@, i as int)));
            }
            return None;
        }
        let (lo0, hi0) = project_shape(lhs, axis);
        let (lo1, hi1) = project_shape(rhs, axis);
        let c1: i64 = hi1 - lo0;
        let c2: i64 = lo1 - hi0;
        if !(c1 >= 0 && c2 <= 0) {
            proof {
                assert(!spec_axis_overlaps(lhs@, rhs@, spec_axis_at(lhs@, rhs@, i as int)));
            }
            return None;
        }
        let a1: i64 = if c1 < 0 {
            -c1
        } else {
            c1
        };
        let a2: i64 = if c2 < 0 {
            -c2
        } else {
            c2
        };
        let o: i64 = if a1 < a2 {
            c1
        } else {
            c2
        };
        proof {
            assert(0 <= axis.x * axis.x <= 0x10000000000) by (nonlinear_arith)
                requires
                    -0x100000 <= axis.x <= 0x100000,
            ;
            assert(0 <= axis.y * axis.y <= 0x10000000000) by (nonlinear_arith)
                requires
                    -0x100000 <= axis.y <= 0x100000,
            ;
            if axis.x != 0 {
                assert(axis.x * axis.x >= 1) by (nonlinear_arith)
                    requires
                        axis.x != 0,
                ;
            } else {
                assert(axis.y * axis.y >= 1) by (nonlinear_arith)
                    requires
                        axis.y != 0,
                ;
            }
        }
        let den: i64 = axis.x * axis.x + axis.y * axis.y;
        let cand = ExitVector { axis, num: o, den };
        proof {
            assert(cand.num == spec_axis_exit_num(
                lhs@,
                rhs@,
                spec_axis_at(lhs@, rhs@, i as int),
            ));
            assert(cand.den == spec_axis_den(spec_axis_at(lhs@, rhs@, i as int)));
        }
        match best {
            None => {
                best = Some(cand);
                proof {
                    best_idx = i as int;
                    assert(spec_best_axis(lhs@, rhs@, 1) == 0);
                }
            },
            Some(b) => {
                proof {
                    lemma_mag_bounds(cand.num as int, cand.den as int, b.num as int, b.den as int);
                }
                let cand_le: bool = (cand.num as i128 * cand.num as i128) * b.den as i128 <= (
                b.num as i128 * b.num as i128) * cand.den as i128;
                if cand_le {
                    best = Some(cand);
                    proof {
                        assert(spec_axis_le(lhs@, rhs@, i as int, best_idx));
                        best_idx = i as int;
                    }
                } else {
                    proof {
                        assert(!spec_axis_le(lhs@, rhs@, i as int, best_idx));
                    }
                }
            },
        }
        i = i + 1;
    }
    best
}


/// A nonzero axis has positive squared length.
proof fn lemma_den_pos(v: Vector)
    requires
        !spec_zero_axis(v),
    ensures
        spec_axis_den(v) >= 1,
{
    if v.x != 0 {
        assert(v.x * v.x >= 1) by (nonlinear_arith)
            requires
                v.x != 0,
        ;
        assert(v.y * v.y >= 0) by (nonlinear_arith);
    } else {
        assert(v.y * v.y >= 1) by (nonlinear_arith)
            requires
                v.y != 0,
        ;
        assert(v.x * v.x >= 0) by (nonlinear_arith);
    }
}

/// Transitivity of the cross-multiplied rational comparison
/// `A/di <= B/dj <= C/dk` for non-negative numerators and positive
/// denominators.
proof fn lemma_rat_le_trans(a: int, b: int, c: int, di: int, dj: int, dk: int)
    requires
        a >= 0,
        b >= 0,
        c >= 0,
        di >= 1,
        dj >= 1,
        dk >= 1,
        a * dj <= b * di,
        b * dk <= c * dj,
    ensures
        a * dk <= c * di,
{
    assert((a * dk) * dj <= (c * di) * dj) by (nonlinear_arith)
        requires
            a * dj <= b * di,
            b * dk <= c * dj,
            dk >= 0,
            di >= 0,
    ;
    assert(a * dk <= c * di) by (nonlinear_arith)
        requires
            (a * dk) * dj <= (c * di) * dj,
            dj >= 1,
    ;
}

/// Squares are non-negative.
proof fn lemma_sq_nonneg(a: int)
    ensures
        a * a >= 0,
{
    assert(a * a >= 0) by (nonlinear_arith);
}

/// The axis selected by the collision routine has the least penetration: for
/// colliding shapes, the exit vector's magnitude equals the smallest overlap
/// over all candidate axes (compared as exact rationals).
pub proof fn lemma_exit_vector_minimal(a: Seq<Segment>, b: Seq<Segment>, n: int)
    requires
        1 <= n <= a.len() + b.len(),
        spec_shapes_collide(a, b),
    ensures
        0 <= spec_best_axis(a, b, n) < n,
        forall|j: int| 0 <= j < n ==> spec_axis_le(a, b, spec_best_axis(a, b, n), j),
    decreases n,
{
    if n == 1 {
        assert(spec_best_axis(a, b, 1) == 0);
        assert(spec_axis_le(a, b, 0, 0));
    } else {
        lemma_exit_vector_minimal(a, b, n - 1);
        let p = spec_best_axis(a, b, n - 1);
        let k = n - 1;
        assert(!spec_zero_axis(spec_axis_at(a, b, p)));
        assert(!spec_zero_axis(spec_axis_at(a, b, k)));
        lemma_den_pos(spec_axis_at(a, b, p));
        lemma_den_pos(spec_axis_at(a, b, k));
        let op = spec_axis_exit_num(a, b, spec_axis_at(a, b, p));
        let ok = spec_axis_exit_num(a, b, spec_axis_at(a, b, k));
        lemma_sq_nonneg(op);
        lemma_sq_nonneg(ok);
        if spec_axis_le(a, b, k, p) {
            assert(spec_best_axis(a, b, n) == k);
            assert forall|j: int| 0 <= j < n implies spec_axis_le(a, b, k, j) by {
                if j < n - 1 {
                    assert(spec_axis_le(a, b, p, j));
                    assert(!spec_zero_axis(spec_axis_at(a, b, j)));
                    lemma_den_pos(spec_axis_at(a, b, j));
                    let oj = spec_axis_exit_num(a, b, spec_axis_at(a, b, j));
                    lemma_sq_nonneg(oj);
                    lemma_rat_le_trans(
                        ok * ok,
                        op * op,
                        oj * oj,
                        spec_axis_den(spec_axis_at(a, b, k)),
                        spec_axis_den(spec_axis_at(a, b, p)),
                        spec_axis_den(spec_axis_at(a, b, j)),
                    );
                } else {
                    assert(spec_axis_le(a, b, k, k));
                }
            }
        } else {
            assert(spec_best_axis(a, b, n) == p);
            assert forall|j: int| 0 <= j < n implies spec_axis_le(a, b, p, j) by {
                if j < n - 1 {
                    assert(spec_axis_le(a, b, p, j));
                } else {
                    assert(op * op * spec_axis_den(spec_axis_at(a, b, k)) <= ok * ok
                        * spec_axis_den(spec_axis_at(a, b, p)));
                }
            }
        }
    }
}

/// Bounds of the cross-multiplied penetration comparison.
proof fn lemma_mag_bounds(n1: int, d1: int, n2: int, d2: int)
    requires
        -0x20000000000 <= n1 <= 0x20000000000,
        0 < d1 <= 0x20000000000,
        -0x20000000000 <= n2 <= 0x20000000000,
        0 < d2 <= 0x20000000000,
    ensures
        0 <= n1 * n1 <= 0x400000000000000000000,
        0 <= n2 * n2 <= 0x400000000000000000000,
        0 <= (n1 * n1) * d2 <= 0x8000000000000000000000000000000,
        0 <= (n2 * n2) * d1 <= 0x8000000000000000000000000000000,
{
    assert(0 <= n1 * n1 <= 0x400000000000000000000) by (nonlinear_arith)
        requires
            -0x20000000000 <= n1 <= 0x20000000000,
    ;
    assert(0 <= n2 * n2 <= 0x400000000000000000000) by (nonlinear_arith)
        requires
            -0x20000000000 <= n2 <= 0x20000000000,
    ;
    assert(0 <= (n1 * n1) * d2 <= 0x8000000000000000000000000000000) by (nonlinear_arith)
        requires
            0 <= n1 * n1 <= 0x400000000000000000000,
            0 < d2 <= 0x20000000000,
    ;
    assert(0 <= (n2 * n2) * d1 <= 0x8000000000000000000000000000000) by (nonlinear_arith)
        requires
            0 <= n2 * n2 <= 0x400000000000000000000,
            0 < d1 <= 0x20000000000,
    ;
}

} // verus!
