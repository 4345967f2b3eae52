//! Points, line segments and rotation about an arbitrary center.

use vstd::prelude::*;
use crate::fixed::{sat64, spec_fx_mul, fx_add, fx_sub, fx_mul};
use crate::trig::{spec_sin, spec_cos, sin_micro, cos_micro};

verus! {

/// A 2-D coordinate in micro-units.
#[derive(Clone, Copy, PartialEq, Eq, Structural, Debug)]
pub struct Point {
    pub x: i64,
    pub y: i64,
}

/// One emitted fill segment.
#[derive(Clone, Copy, PartialEq, Eq, Structural, Debug)]
pub struct Line {
    pub start: Point,
    pub end: Point,
}

/// Rotate `p` about `c`, given the scaled sine and cosine of the angle.
pub open spec fn rotate_point_sc(p: Point, c: Point, s: int, co: int) -> Point {
    let dx: int = sat64(p.x - c.x);
    let dy: int = sat64(p.y - c.y);
    let nx: int = sat64(c.x + sat64(spec_fx_mul(dx, co) - spec_fx_mul(dy, s)));
    let ny: int = sat64(c.y + sat64(spec_fx_mul(dx, s) + spec_fx_mul(dy, co)));
    Point { x: nx as i64, y: ny as i64 }
}

/// Rotate a point sequence about `c` by `deg` micro-degrees.
pub open spec fn spec_rotate_points(pts: Seq<Point>, c: Point, deg: int) -> Seq<Point>
    decreases pts.len(),
{
    if pts.len() == 0 {
        Seq::empty()
    } else {
        spec_rotate_points(pts.drop_last(), c, deg).push(
            rotate_point_sc(pts.last(), c, spec_sin(deg), spec_cos(deg)),
        )
    }
}

/// Rotate a line sequence about `c` by `deg` micro-degrees.
pub open spec fn spec_rotate_lines(lines: Seq<Line>, c: Point, deg: int) -> Seq<Line>
    decreases lines.len(),
{
    if lines.len() == 0 {
        Seq::empty()
    } else {
        spec_rotate_lines(lines.drop_last(), c, deg).push(
            Line {
                start: rotate_point_sc(lines.last().start, c, spec_sin(deg), spec_cos(deg)),
                end: rotate_point_sc(lines.last().end, c, spec_sin(deg), spec_cos(deg)),
            },
        )
    }
}

/// Rotate one point about `center`, given scaled sine and cosine.
fn rotate_one(p: &Point, center: &Point, s: i64, co: i64) -> (r: Point)
    ensures
        r == rotate_point_sc(*p, *center, s as int, co as int),
{
    let dx = fx_sub(p.x, center.x);
    let dy = fx_sub(p.y, center.y);
    let nx = fx_add(center.x, fx_sub(fx_mul(dx, co), fx_mul(dy, s)));
    let ny = fx_add(center.y, fx_add(fx_mul(dx, s), fx_mul(dy, co)));
    Point { x: nx, y: ny }
}

/// Rotate one point about `center` by `degrees` micro-degrees.
pub fn rotate_point(p: &Point, center: &Point, degrees: i64) -> (r: Point)
    ensures
        r == rotate_point_sc(*p, *center, spec_sin(degrees as int), spec_cos(degrees as int)),
{
    let s = sin_micro(degrees);
    let co = cos_micro(degrees);
    rotate_one(p, center, s, co)
}

/// Rotate every point of a contour about `center` by `degrees` micro-degrees.
pub fn rotate_points(points: &Vec<Point>, center: &Point, degrees: i64) -> (r: Vec<Point>)
    ensures
        r@ == spec_rotate_points(points@, *center, degrees as int),
{
    let s = sin_micro(degrees);
    let co = cos_micro(degrees);
    let mut out: Vec<Point> = Vec::new();
    let mut i: usize = 0;
    while i < points.len()
        invariant
            i <= points@.len(),
            s as int == spec_sin(degrees as int),
            co as int == spec_cos(degrees as int),
            out@ == spec_rotate_points(points@.take(i as int), *center, degrees as int),
        decreases points@.len() - i,
    {
        let q = rotate_one(&points[i], center, s, co);
        out.push(q);
        proof {
            assert(points@.take(i + 1 as int).drop_last() =~= points@.take(i as int));
            assert(points@.take(i + 1 as int).last() == points@[i as int]);
        }
        i = i + 1;
    }
    proof {
        assert(points@.take(points@.len() as int) =~= points@);
    }
    out
}

/// Rotate every segment of a line list about `center` by `degrees` micro-degrees.
pub fn rotate_lines(lines: &Vec<Line>, center: &Point, degrees: i64) -> (r: Vec<Line>)
    ensures
        r@ == spec_rotate_lines(lines@, *center, degrees as int),
{
    let s = sin_micro(degrees);
    let co = cos_micro(degrees);
    let mut out: Vec<Line> = Vec::new();
    let mut i: usize = 0;
    while i < lines.len()
        invariant
            i <= lines@.len(),
            s as int == spec_sin(degrees as int),
            co as int == spec_cos(degrees as int),
            out@ == spec_rotate_lines(lines@.take(i as int), *center, degrees as int),
        decreases lines@.len() - i,
    {
        let a = rotate_one(&lines[i].start, center, s, co);
        let b = rotate_one(&lines[i].end, center, s, co);
        out.push(Line { start: a, end: b });
        proof {
            assert(lines@.take(i + 1 as int).drop_last() =~= lines@.take(i as int));
            assert(lines@.take(i + 1 as int).last() == lines@[i as int]);
        }
        i = i + 1;
    }
    proof {
        assert(lines@.take(lines@.len() as int) =~= lines@);
    }
    out
}

} // verus!
