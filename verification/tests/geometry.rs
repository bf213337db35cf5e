use arena_shooter::collide::collide;
use arena_shooter::math::Complex;
use arena_shooter::math::Point;
use arena_shooter::math::ROT_ONE;
use arena_shooter::math::Rect;
use arena_shooter::math::Segment;
use arena_shooter::math::Vector;
use arena_shooter::math::cos_deg;
use arena_shooter::math::from_turn_fraction;
use arena_shooter::math::isqrt_u64;
use arena_shooter::math::lerp_i64;
use arena_shooter::math::segments;
use arena_shooter::math::segments_ringe;
use arena_shooter::math::sin_deg;

fn square(x: i64, y: i64, side: i64) -> Vec<Segment> {
    let pts = vec![
        Point { x, y },
        Point { x: x + side, y },
        Point { x: x + side, y: y + side },
        Point { x, y: y + side },
    ];
    segments_ringe(&pts)
}

#[test]
fn disjoint_boxes_with_x_gap_do_not_collide() {
    let a = square(0, 0, 10);
    let b = square(20, 0, 10);
    assert!(collide(&a, &b).is_none());
}

#[test]
fn touching_boxes_report_zero_exit() {
    // Closed-interval projections: boxes sharing an edge still count.
    let a = square(0, 0, 10);
    let b = square(10, 0, 10);
    let e = collide(&a, &b).unwrap();
    assert_eq!(e.num, 0);
}

#[test]
fn overlapping_boxes_exit_magnitude_is_minimum_overlap() {
    // Boxes overlap by 2 on the x-axis and by 10 on the y-axis: the exit
    // vector lies on a horizontal axis and its magnitude is exactly 2.
    let a = square(0, 0, 10);
    let b = square(8, 0, 10);
    let e = collide(&a, &b).unwrap();
    assert_eq!(e.axis.y, 0);
    // magnitude^2 == num^2 / den == 4
    assert_eq!(e.num * e.num, 4 * e.den);
}

#[test]
fn exit_vector_pushes_the_first_box_out() {
    let a = square(0, 0, 10);
    let b = square(8, 0, 10);
    let e = collide(&a, &b).unwrap();
    // Moving the first box along the exit vector separates the two boxes:
    // x moves from 0 to -2 (the true minimum translation).
    let moved = e.apply_to(Point { x: 0, y: 0 });
    assert_eq!(moved, Point { x: -2, y: 0 });
}

#[test]
fn segment_against_box_collides_when_crossing() {
    let b = square(0, 0, 10);
    let cross = vec![Segment {
        p0: Point { x: -5, y: 5 },
        p1: Point { x: 5, y: 5 },
    }];
    assert!(collide(&cross, &b).is_some());
    let away = vec![Segment {
        p0: Point { x: -5, y: 50 },
        p1: Point { x: 5, y: 50 },
    }];
    assert!(collide(&away, &b).is_none());
}

#[test]
fn ray_cast_finds_strict_crossing() {
    let a = Segment {
        p0: Point { x: 0, y: 0 },
        p1: Point { x: 10, y: 0 },
    };
    let m = Segment {
        p0: Point { x: 5, y: -5 },
        p1: Point { x: 5, y: 5 },
    };
    let rc = a.ray_cast(m).unwrap();
    assert!(rc.intersects());
    assert_eq!(rc.intersection_point(), Point { x: 5, y: 0 });

    let parallel = Segment {
        p0: Point { x: 0, y: 1 },
        p1: Point { x: 10, y: 1 },
    };
    assert!(a.ray_cast(parallel).is_none());

    let touch = Segment {
        p0: Point { x: 0, y: 0 },
        p1: Point { x: 0, y: 5 },
    };
    let rc = a.ray_cast(touch).unwrap();
    assert!(!rc.intersects());
    assert!(rc.intersects_including());
}

#[test]
fn isqrt_matches_perfect_and_imperfect_squares() {
    assert_eq!(isqrt_u64(0), 0);
    assert_eq!(isqrt_u64(1), 1);
    assert_eq!(isqrt_u64(15), 3);
    assert_eq!(isqrt_u64(16), 4);
    assert_eq!(isqrt_u64(u64::MAX), 4294967295);
}

#[test]
fn lerp_hits_both_endpoints_exactly() {
    assert_eq!(lerp_i64(10, 30, 0, 4), 10);
    assert_eq!(lerp_i64(10, 30, 4, 4), 30);
    assert_eq!(lerp_i64(10, 30, 2, 4), 20);
    assert_eq!(lerp_i64(30, 10, 2, 4), 20);
}

#[test]
fn fixed_point_sine_quarters() {
    assert_eq!(sin_deg(0), 0);
    assert_eq!(sin_deg(90), ROT_ONE);
    assert_eq!(sin_deg(180), 0);
    assert_eq!(sin_deg(270), -ROT_ONE);
    assert_eq!(cos_deg(0), ROT_ONE);
    assert_eq!(cos_deg(180), -ROT_ONE);
}

#[test]
fn turn_fractions_point_around_the_circle() {
    let east = from_turn_fraction(0, 4);
    assert_eq!(east, Complex { r: ROT_ONE, i: 0 });
    let south = from_turn_fraction(1, 4);
    assert_eq!(south, Complex { r: 0, i: ROT_ONE });
    let west = from_turn_fraction(2, 4);
    assert_eq!(west, Complex { r: -ROT_ONE, i: 0 });
}

#[test]
fn normalize_into_complex_points_along_vector() {
    let v = Vector { x: 100, y: 0 };
    assert_eq!(v.normalize_into_complex(), Complex { r: ROT_ONE, i: 0 });
    let d = Vector { x: 30, y: 40 };
    let c = d.normalize_into_complex();
    // 3-4-5 triangle: components are exactly 3/5 and 4/5 of the scale.
    assert_eq!(c, Complex { r: ROT_ONE * 3 / 5, i: ROT_ONE * 4 / 5 });
}

#[test]
fn rect_edges_run_clockwise_from_top() {
    let r = Rect { x: 0, y: 0, w: 4, h: 2 };
    let e = r.edges();
    assert_eq!(e[0].p0, Point { x: 0, y: 0 });
    assert_eq!(e[0].p1, Point { x: 4, y: 0 });
    assert_eq!(e[2].p0, Point { x: 4, y: 2 });
    assert_eq!(e[2].p1, Point { x: 0, y: 2 });
}

#[test]
fn chain_has_one_less_segment_than_ring() {
    let pts = vec![
        Point { x: 0, y: 0 },
        Point { x: 1, y: 0 },
        Point { x: 1, y: 1 },
    ];
    assert_eq!(segments(&pts).len(), 2);
    assert_eq!(segments_ringe(&pts).len(), 3);
}

#[test]
fn heart_outline_is_symmetric() {
    let pts = arena_shooter::math::heart_vertices(Point { x: 100, y: 100 }, 2);
    assert_eq!(pts.len(), 14);
    assert_eq!(pts[0], Point { x: 100, y: 98 });
    assert_eq!(pts[3], Point { x: 106, y: 98 });
    assert_eq!(pts[7], Point { x: 100, y: 106 });
    assert_eq!(pts[10], Point { x: 94, y: 100 });
}
