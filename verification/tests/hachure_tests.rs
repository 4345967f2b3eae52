use rough::fixed::{fx_add, fx_div, fx_mul, SCALE};
use rough::geometry::{Line, Point};
use rough::hachure::{polygon_hachure_lines, resolve_gap, Options};
use rough::trig::{cos_micro, sin_micro};

const M: i64 = SCALE;

fn pt(x: i64, y: i64) -> Point {
    Point { x, y }
}

fn rect_100_50() -> Vec<Point> {
    vec![pt(0, 0), pt(100 * M, 0), pt(100 * M, 50 * M), pt(0, 50 * M)]
}

fn opts(angle: Option<i64>, gap: Option<i64>, stroke: Option<i64>) -> Options {
    Options { hachure_angle: angle, hachure_gap: gap, stroke_width: stroke }
}

#[test]
fn fill_empty_input() {
    let mut polys: Vec<Vec<Point>> = vec![];
    let lines = polygon_hachure_lines(&mut polys, &opts(None, None, None));
    assert!(lines.is_empty());
    let lines = polygon_hachure_lines(&mut polys, &opts(Some(45 * M), Some(3 * M), Some(M)));
    assert!(lines.is_empty());
}

#[test]
fn rectangle_baseline() {
    // At a configured angle of -90 degrees the effective rotation vanishes,
    // so the sweep works on the rectangle itself: horizontal spans at
    // y = 0, 10, ..., 40, each exactly from x = 0 to x = 100.
    let mut polys = vec![rect_100_50()];
    let lines = polygon_hachure_lines(&mut polys, &opts(Some(-90 * M), Some(10 * M), None));
    assert_eq!(lines.len(), 5);
    for (i, line) in lines.iter().enumerate() {
        let t = i as i64 * 10 * M;
        assert_eq!(*line, Line { start: pt(0, t), end: pt(100 * M, t) });
    }
}

#[test]
fn rectangle_angle_zero() {
    // Angle 0 gets the internal quarter-turn offset: the polygons rotate a
    // quarter turn, the sweep runs there, and the emitted spans rotate back
    // into vertical lines spaced one gap apart across the width.
    let mut polys = vec![rect_100_50()];
    let lines = polygon_hachure_lines(&mut polys, &opts(Some(0), Some(10 * M), None));
    assert_eq!(lines.len(), 10);
    for (i, line) in lines.iter().enumerate() {
        let t = i as i64 * 10 * M;
        assert_eq!(*line, Line { start: pt(t, 50 * M), end: pt(t, 0) });
    }
}

#[test]
fn gap_floor() {
    // Negative configured gap and zero stroke width clamp to a tenth of a
    // unit.
    let o = opts(Some(-90 * M), Some(-M), Some(0));
    assert_eq!(resolve_gap(&o), M / 10);
    let mut polys = vec![vec![pt(0, 0), pt(2 * M, 0), pt(2 * M, M), pt(0, M)]];
    let lines = polygon_hachure_lines(&mut polys, &o);
    assert_eq!(lines.len(), 10);
    for i in 0..lines.len() - 1 {
        assert_eq!(lines[i + 1].start.y - lines[i].start.y, M / 10);
    }
}

#[test]
fn degenerate_contour() {
    // A two-vertex contour contributes nothing next to a valid rectangle.
    let o = opts(Some(-90 * M), Some(10 * M), None);
    let mut with_degenerate = vec![vec![pt(5 * M, 5 * M), pt(8 * M, 9 * M)], rect_100_50()];
    let mut alone = vec![rect_100_50()];
    let a = polygon_hachure_lines(&mut with_degenerate, &o);
    let b = polygon_hachure_lines(&mut alone, &o);
    assert_eq!(a, b);

    let mut only_degenerate = vec![vec![pt(5 * M, 5 * M), pt(8 * M, 9 * M)]];
    let c = polygon_hachure_lines(&mut only_degenerate, &o);
    assert!(c.is_empty());
}

#[test]
fn rotation_round_trip() {
    // Rotating by an angle and back restores each coordinate within a
    // tenth of a unit.
    let square = vec![pt(10 * M, 10 * M), pt(20 * M, 10 * M), pt(20 * M, 20 * M), pt(10 * M, 20 * M)];
    let center = pt(0, 0);
    let there = rough::geometry::rotate_points(&square, &center, 33 * M);
    let back = rough::geometry::rotate_points(&there, &center, -33 * M);
    assert_eq!(back.len(), square.len());
    for (p, q) in square.iter().zip(back.iter()) {
        assert!((p.x - q.x).abs() <= M / 10);
        assert!((p.y - q.y).abs() <= M / 10);
    }
}

#[test]
fn rotation_round_trip_exact_quarter() {
    // At exact quarter turns the fixed-point sine and cosine are exact, so
    // the round trip restores the points bit for bit.
    let square = rect_100_50();
    let center = pt(0, 0);
    let there = rough::geometry::rotate_points(&square, &center, 90 * M);
    let back = rough::geometry::rotate_points(&there, &center, -90 * M);
    assert_eq!(square, back);
}

#[test]
fn non_mutation() {
    // The caller's polygon set is exactly what it was, even for an angle
    // that makes the wrapper rotate.
    let original = vec![rect_100_50(), vec![pt(3 * M, 4 * M), pt(7 * M, 4 * M), pt(5 * M, 9 * M)]];
    let mut polys = original.clone();
    let _ = polygon_hachure_lines(&mut polys, &opts(Some(33 * M), Some(2 * M), Some(M)));
    assert_eq!(polys, original);
}

#[test]
fn adjacent_pairing() {
    // A non-convex staple shape has four active edges on its lowest scan
    // positions: all three adjacent gaps get a segment, not only the
    // even-odd interior ones.
    let staple = vec![
        pt(0, 0),
        pt(M, 0),
        pt(M, 2 * M),
        pt(2 * M, 2 * M),
        pt(2 * M, 0),
        pt(3 * M, 0),
        pt(3 * M, 3 * M),
        pt(0, 3 * M),
    ];
    let mut polys = vec![staple];
    let lines = polygon_hachure_lines(&mut polys, &opts(Some(-90 * M), Some(M), None));
    let at_zero: Vec<&Line> = lines.iter().filter(|l| l.start.y == 0).collect();
    assert_eq!(at_zero.len(), 3);
    assert_eq!(*at_zero[0], Line { start: pt(0, 0), end: pt(M, 0) });
    assert_eq!(*at_zero[1], Line { start: pt(M, 0), end: pt(2 * M, 0) });
    assert_eq!(*at_zero[2], Line { start: pt(2 * M, 0), end: pt(3 * M, 0) });
    assert_eq!(lines.len(), 7);
}

#[test]
fn determinism() {
    let o = opts(Some(-41 * M), None, Some(M));
    let mut p1 = vec![rect_100_50()];
    let mut p2 = vec![rect_100_50()];
    let a = polygon_hachure_lines(&mut p1, &o);
    let b = polygon_hachure_lines(&mut p2, &o);
    assert_eq!(a, b);
    let c = polygon_hachure_lines(&mut p1, &o);
    assert_eq!(a, c);
}

#[test]
fn sloped_edge_extrapolation() {
    // A right triangle with a slope of exactly -1: the right end of each
    // span recedes by exactly one gap per scan position.
    let tri = vec![pt(0, 0), pt(10 * M, 0), pt(0, 10 * M)];
    let mut polys = vec![tri];
    let lines = polygon_hachure_lines(&mut polys, &opts(Some(-90 * M), Some(M), None));
    assert_eq!(lines.len(), 10);
    for (i, line) in lines.iter().enumerate() {
        let t = i as i64 * M;
        assert_eq!(*line, Line { start: pt(0, t), end: pt(10 * M - t, t) });
    }
}

#[test]
fn trig_exact_values() {
    assert_eq!(sin_micro(0), 0);
    assert_eq!(sin_micro(30 * M), M / 2);
    assert_eq!(sin_micro(90 * M), M);
    assert_eq!(sin_micro(180 * M), 0);
    assert_eq!(sin_micro(-30 * M), -M / 2);
    assert_eq!(cos_micro(0), M);
    assert_eq!(cos_micro(60 * M), M / 2);
    assert_eq!(cos_micro(-60 * M), M / 2);
    assert_eq!(cos_micro(90 * M), 0);
}

#[test]
fn fixed_point_arithmetic() {
    assert_eq!(fx_mul(2_500_000, 2_000_000), 5_000_000);
    assert_eq!(fx_div(M, 3 * M), 333_333);
    assert_eq!(fx_div(-M, 3 * M), -333_333);
    assert_eq!(fx_add(i64::MAX, 1), i64::MAX);
    assert_eq!(fx_add(i64::MIN, -1), i64::MIN);
}

#[test]
fn stroke_width_derived_gap() {
    // Unset or negative gap falls back to four stroke widths.
    let o = opts(None, None, Some(3 * M));
    assert_eq!(resolve_gap(&o), 12 * M);
    let o = opts(None, Some(-5 * M), Some(2 * M));
    assert_eq!(resolve_gap(&o), 8 * M);
    let o = opts(None, Some(5 * M), Some(2 * M));
    assert_eq!(resolve_gap(&o), 5 * M);
}
