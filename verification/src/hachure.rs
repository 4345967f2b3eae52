//! The angle wrapper: realizes an arbitrary hachure angle by rotating the
//! polygons into horizontal-fill space, sweeping, and rotating the emitted
//! lines back.

use vstd::prelude::*;
use crate::fixed::sat64;
use crate::geometry::{Point, Line, rotate_points, rotate_lines, spec_rotate_points, spec_rotate_lines};
use crate::scanline::{MIN_GAP, polys_view, straight_hachure_lines, spec_straight_hachure_lines};

verus! {

/// Micro-degrees added to the configured angle before rotating.
pub const ANGLE_OFFSET_MICRO: i64 = 90_000_000;

/// The fill options this engine reads. Angles are micro-degrees, lengths
/// micro-units.
#[derive(Clone, Copy, PartialEq, Eq, Structural, Debug)]
pub struct Options {
    pub hachure_angle: Option<i64>,
    pub hachure_gap: Option<i64>,
    pub stroke_width: Option<i64>,
}

impl Default for Options {
    /// No field set: angle 0, gap derived from the stroke width.
    fn default() -> (r: Options)
        ensures
            r.hachure_angle.is_none(),
            r.hachure_gap.is_none(),
            r.stroke_width.is_none(),
    {
        Options { hachure_angle: None, hachure_gap: None, stroke_width: None }
    }
}

/// The angle the polygons are rotated by: the configured hachure angle,
/// a quarter turn ahead.
pub open spec fn spec_effective_angle(o: Options) -> int {
    let base: int = match o.hachure_angle {
        Some(a) => a as int,
        None => 0,
    };
    sat64(base + ANGLE_OFFSET_MICRO as int)
}

/// The scan gap: the configured gap when set and non-negative, else four
/// stroke widths; floored at `MIN_GAP` either way.
pub open spec fn spec_resolved_gap(o: Options) -> int {
    let sw: int = match o.stroke_width {
        Some(w) => w as int,
        None => 0,
    };
    let g0: int = match o.hachure_gap {
        Some(g) => if g >= 0 {
            g as int
        } else {
            sat64(sw * 4)
        },
        None => sat64(sw * 4),
    };
    if g0 < MIN_GAP as int {
        MIN_GAP as int
    } else {
        g0
    }
}

/// Every line of the fill, pinned value by value.
pub open spec fn spec_polygon_hachure_lines(polys: Seq<Seq<Point>>, o: Options) -> Seq<Line> {
    let angle: int = spec_effective_angle(o);
    let gap: int = spec_resolved_gap(o);
    let center = Point { x: 0, y: 0 };
    let work: Seq<Seq<Point>> = if angle != 0 {
        Seq::new(polys.len(), |i: int| spec_rotate_points(polys[i], center, angle))
    } else {
        polys
    };
    let lines = spec_straight_hachure_lines(work, gap as i64);
    if angle != 0 {
        spec_rotate_lines(lines, center, -angle)
    } else {
        lines
    }
}

/// The angle the polygons are rotated by, executable.
pub fn effective_angle(o: &Options) -> (r: i64)
    ensures
        r as int == spec_effective_angle(*o),
        r > i64::MIN,
{
    let base: i64 = match o.hachure_angle {
        Some(a) => a,
        None => 0,
    };
    crate::fixed::fx_add(base, ANGLE_OFFSET_MICRO)
}

/// The scan gap, executable. It is always at least `MIN_GAP`.
pub fn resolve_gap(o: &Options) -> (r: i64)
    ensures
        r as int == spec_resolved_gap(*o),
        r >= MIN_GAP,
{
    let sw: i64 = match o.stroke_width {
        Some(w) => w,
        None => 0,
    };
    let s4: i128 = sw as i128 * 4;
    let derived: i64 = if s4 < i64::MIN as i128 {
        i64::MIN
    } else if s4 > i64::MAX as i128 {
        i64::MAX
    } else {
        s4 as i64
    };
    let g0: i64 = match o.hachure_gap {
        Some(g) => if g >= 0 {
            g
        } else {
            derived
        },
        None => derived,
    };
    if g0 < MIN_GAP {
        MIN_GAP
    } else {
        g0
    }
}

/// Fill a polygon set with hachure lines. The caller's polygon set is left
/// exactly as it was supplied: the rotation works on a private copy.
pub fn polygon_hachure_lines(polygon_list: &mut Vec<Vec<Point>>, options: &Options) -> (r: Vec<
    Line,
>)
    ensures
        final(polygon_list)@ == old(polygon_list)@,
        r@ == spec_polygon_hachure_lines(polys_view(old(polygon_list)@), *options),
{
    let angle = effective_angle(options);
    let gap = resolve_gap(options);
    let center = Point { x: 0, y: 0 };
    if angle != 0 {
        let mut work: Vec<Vec<Point>> = Vec::new();
        let mut i: usize = 0;
        let ghost rotated = Seq::new(
            polys_view(polygon_list@).len(),
            |j: int| spec_rotate_points(polys_view(polygon_list@)[j], center, angle as int),
        );
        while i < polygon_list.len()
            invariant
                i <= polygon_list@.len(),
                angle as int == spec_effective_angle(*options),
                rotated == Seq::new(
                    polys_view(polygon_list@).len(),
                    |j: int|
                        spec_rotate_points(polys_view(polygon_list@)[j], center, angle as int),
                ),
                polys_view(work@) == rotated.take(i as int),
            decreases polygon_list@.len() - i,
        {
            let rp = rotate_points(&polygon_list[i], &center, angle);
            let ghost w0 = work@;
            work.push(rp);
            proof {
                assert(rotated.len() == polygon_list@.len());
                assert(polys_view(w0) == rotated.take(i as int));
                assert(polys_view(w0).len() == w0.len());
                assert(w0.len() == i as int);
                assert(work@ == w0.push(rp));
                assert forall|j: int|
                    0 <= j < i + 1 implies polys_view(work@)[j] == rotated.take(i + 1 as int)[j] by {
                    assert(rotated.take(i + 1 as int)[j] == rotated[j]);
                    if j < i as int {
                        assert(work@[j] == w0[j]);
                        assert(polys_view(w0)[j] == rotated.take(i as int)[j]);
                    } else {
                        assert(work@[j]@ == rp@);
                        assert(rotated[j] == spec_rotate_points(
                            polys_view(polygon_list@)[j],
                            center,
                            angle as int,
                        ));
                        assert(polys_view(polygon_list@)[j] == polygon_list@[j]@);
                    }
                }
                assert(polys_view(work@) =~= rotated.take(i + 1 as int));
            }
            i = i + 1;
        }
        proof {
            assert(rotated.take(polygon_list@.len() as int) =~= rotated);
        }
        let lines = straight_hachure_lines(&work, gap);
        rotate_lines(&lines, &center, -angle)
    } else {
        let lines = straight_hachure_lines(polygon_list, gap);
        lines
    }
}

} // verus!
