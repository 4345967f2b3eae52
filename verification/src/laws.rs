//! Library-wide laws, stated over the spec model and proved once.

use vstd::prelude::*;
use crate::fixed::iabs;
use crate::trig::{norm360, half_sine, sine_of_norm, quarter_ahead, spec_sin, spec_cos};
use crate::geometry::{Point, Line};
use crate::hachure::{Options, spec_effective_angle, spec_polygon_hachure_lines};
use crate::scanline::{spec_all_edges, spec_all_edges_upto, spec_close, spec_poly_edges, spec_sort_edges};
use crate::geometry::{spec_rotate_lines, spec_rotate_points};

verus! {

/// Determinism: the fill is a function of the polygon set and the options
/// alone, so two results for the same input are identical.
pub proof fn lemma_fill_deterministic(
    polys: Seq<Seq<Point>>,
    o: Options,
    r1: Seq<Line>,
    r2: Seq<Line>,
)
    requires
        r1 == spec_polygon_hachure_lines(polys, o),
        r2 == spec_polygon_hachure_lines(polys, o),
    ensures
        r1 == r2,
{
}

/// An empty polygon set fills to an empty line list, whatever the options.
pub proof fn lemma_fill_empty(o: Options)
    ensures
        spec_polygon_hachure_lines(Seq::empty(), o) == Seq::<Line>::empty(),
{
    let angle: int = spec_effective_angle(o);
    let center = (Point { x: 0, y: 0 });
    let empty_polys = Seq::<Seq<Point>>::empty();
    if angle != 0 {
        let work = Seq::new(
            empty_polys.len(),
            |i: int| crate::geometry::spec_rotate_points(empty_polys[i], center, angle),
        );
        assert(work =~= Seq::<Seq<Point>>::empty());
    }
    assert(spec_all_edges_upto(Seq::<Seq<Point>>::empty(), 0) =~= Seq::<crate::scanline::Edge>::empty());
    assert(spec_sort_edges(Seq::<crate::scanline::Edge>::empty()) =~= Seq::<
        crate::scanline::Edge,
    >::empty());
    assert(spec_rotate_lines(Seq::<Line>::empty(), center, -angle) =~= Seq::<Line>::empty());
}

/// The half-wave vanishes at both ends.
proof fn lemma_half_sine_zero()
    ensures
        half_sine(0) == 0,
        half_sine(180_000_000) == 0,
{
    vstd::arithmetic::div_mod::lemma_div_basics(40_500_000_000_000_000);
    assert(half_sine(0) == 0int / 40_500_000_000_000_000);
    assert(half_sine(180_000_000) == 0int / 40_500_000_000_000_000);
}

/// Bhaskara's half-wave is symmetric about the quarter turn.
proof fn lemma_half_sine_symmetry(m: int)
    requires
        0 <= m <= 180_000_000,
    ensures
        half_sine(180_000_000 - m) == half_sine(m),
{
    assert((180_000_000 - m) * (180_000_000 - (180_000_000 - m)) == m * (180_000_000 - m))
        by (nonlinear_arith);
}

/// The normalized angles of `a` and `-a` mirror one another.
proof fn lemma_norm_neg(a: int)
    ensures
        norm360(-a) == if norm360(a) == 0 {
            0
        } else {
            360_000_000 - norm360(a)
        },
{
    vstd::arithmetic::div_mod::lemma_mod_bound(iabs(a), 360_000_000);
    assert(iabs(-a) == iabs(a));
}

/// The sine of a normalized, mirrored angle is the negated sine.
proof fn lemma_sine_of_norm_mirror(m: int)
    requires
        0 < m < 360_000_000,
    ensures
        sine_of_norm(360_000_000 - m) == -sine_of_norm(m),
{
    if m < 180_000_000 {
        lemma_half_sine_symmetry(m);
        assert(sine_of_norm(360_000_000 - m) == -half_sine(180_000_000 - m));
    } else if m == 180_000_000 {
        lemma_half_sine_zero();
        assert(sine_of_norm(180_000_000) == 0);
    } else {
        lemma_half_sine_symmetry(m - 180_000_000);
        assert(sine_of_norm(360_000_000 - m) == half_sine(360_000_000 - m));
        assert(360_000_000 - m == 180_000_000 - (m - 180_000_000));
    }
}

/// Negating the angle negates the sine exactly.
pub proof fn lemma_sin_neg(a: int)
    ensures
        spec_sin(-a) == -spec_sin(a),
{
    vstd::arithmetic::div_mod::lemma_mod_bound(iabs(a), 360_000_000);
    lemma_norm_neg(a);
    let m: int = norm360(a);
    if m == 0 {
        lemma_half_sine_zero();
    } else {
        lemma_sine_of_norm_mirror(m);
    }
}

/// Negating the angle keeps the cosine exactly.
pub proof fn lemma_cos_neg(a: int)
    ensures
        spec_cos(-a) == spec_cos(a),
{
    vstd::arithmetic::div_mod::lemma_mod_bound(iabs(a), 360_000_000);
    lemma_norm_neg(a);
    let m: int = norm360(a);
    if m == 0 {
    } else if m < 90_000_000 {
        // mirrored angle lands in the last quarter
        assert(quarter_ahead(360_000_000 - m) == 90_000_000 - m);
        assert(quarter_ahead(m) == m + 90_000_000);
        lemma_half_sine_symmetry(90_000_000 - m);
        assert(180_000_000 - (90_000_000 - m) == m + 90_000_000);
    } else if m == 90_000_000 {
        assert(quarter_ahead(m) == 180_000_000);
        assert(quarter_ahead(270_000_000) == 0);
        lemma_half_sine_zero();
    } else if m < 270_000_000 {
        assert(quarter_ahead(m) == m + 90_000_000);
        assert(quarter_ahead(360_000_000 - m) == 450_000_000 - m);
        lemma_half_sine_symmetry(m - 90_000_000);
        assert(180_000_000 - (m - 90_000_000) == 270_000_000 - m);
        assert(sine_of_norm(m + 90_000_000) == -half_sine(m - 90_000_000));
        assert(sine_of_norm(450_000_000 - m) == -half_sine(270_000_000 - m));
    } else if m == 270_000_000 {
        assert(quarter_ahead(m) == 0);
        assert(quarter_ahead(90_000_000) == 180_000_000);
        lemma_half_sine_zero();
    } else {
        // last quarter: the mirrored angle lands in the first
        assert(quarter_ahead(m) == m - 270_000_000);
        assert(quarter_ahead(360_000_000 - m) == 450_000_000 - m);
        lemma_half_sine_symmetry(m - 270_000_000);
        assert(180_000_000 - (m - 270_000_000) == 450_000_000 - m);
    }
}

/// Rotating back by the negated angle uses the exact inverse pair: the same
/// cosine and the negated sine.
pub proof fn lemma_rotation_negated_angle(deg: int)
    ensures
        spec_sin(-deg) == -spec_sin(deg),
        spec_cos(-deg) == spec_cos(deg),
{
    lemma_sin_neg(deg);
    lemma_cos_neg(deg);
}

/// Rotation maps a point sequence index by index.
proof fn lemma_rotate_points_props(pts: Seq<Point>, c: Point, deg: int)
    ensures
        spec_rotate_points(pts, c, deg).len() == pts.len(),
        forall|j: int|
            0 <= j < pts.len() ==> spec_rotate_points(pts, c, deg)[j]
                == crate::geometry::rotate_point_sc(pts[j], c, spec_sin(deg), spec_cos(deg)),
    decreases pts.len(),
{
    if pts.len() > 0 {
        lemma_rotate_points_props(pts.drop_last(), c, deg);
        assert forall|j: int|
            0 <= j < pts.len() implies spec_rotate_points(pts, c, deg)[j]
            == crate::geometry::rotate_point_sc(pts[j], c, spec_sin(deg), spec_cos(deg)) by {
            if j < pts.len() - 1 {
                assert(pts.drop_last()[j] == pts[j]);
            }
        }
    }
}

/// A contour that closes to at most three points keeps that bound under
/// rotation.
proof fn lemma_rotate_degenerate(p: Seq<Point>, c: Point, deg: int)
    requires
        spec_close(p).len() <= 3,
    ensures
        spec_close(spec_rotate_points(p, c, deg)).len() <= 3,
{
    lemma_rotate_points_props(p, c, deg);
    let rp = spec_rotate_points(p, c, deg);
    if p.len() == 3 {
        assert(p.first() == p.last());
        assert(rp[0] == rp[2]);
        assert(rp.first() == rp.last());
    }
}

/// The first `n` contours alone decide the edge table prefix.
proof fn lemma_upto_prefix_eq(a: Seq<Seq<Point>>, b: Seq<Seq<Point>>, n: int)
    requires
        0 <= n <= a.len(),
        n <= b.len(),
        forall|k: int| 0 <= k < n ==> a[k] == b[k],
    ensures
        spec_all_edges_upto(a, n) == spec_all_edges_upto(b, n),
    decreases n,
{
    if n > 0 {
        lemma_upto_prefix_eq(a, b, n - 1);
    }
}

/// Inserting a contour with no edges leaves the edge table as it was.
proof fn lemma_upto_insert(polys: Seq<Seq<Point>>, i: int, p: Seq<Point>, n: int)
    requires
        0 <= i <= n <= polys.len(),
        spec_poly_edges(p) == Seq::<crate::scanline::Edge>::empty(),
    ensures
        spec_all_edges_upto(polys.insert(i, p), n + 1) == spec_all_edges_upto(polys, n),
    decreases n - i,
{
    let ins = polys.insert(i, p);
    polys.insert_ensures(i, p);
    if n == i {
        assert(ins[i] == p);
        lemma_upto_prefix_eq(ins, polys, i);
        assert(spec_all_edges_upto(ins, i + 1) == spec_all_edges_upto(ins, i)
            + spec_poly_edges(p));
        assert(spec_all_edges_upto(polys, i) + Seq::<crate::scanline::Edge>::empty()
            =~= spec_all_edges_upto(polys, i));
    } else {
        lemma_upto_insert(polys, i, p, n - 1);
        assert(ins[n] == polys[n - 1]);
    }
}

/// A contour that closes to at most three points contributes no edges, so a
/// polygon set with it inserted anywhere fills to exactly the same lines.
pub proof fn lemma_degenerate_contour(polys: Seq<Seq<Point>>, i: int, p: Seq<Point>, o: Options)
    requires
        0 <= i <= polys.len(),
        spec_close(p).len() <= 3,
    ensures
        spec_polygon_hachure_lines(polys.insert(i, p), o) == spec_polygon_hachure_lines(polys, o),
{
    let ins = polys.insert(i, p);
    polys.insert_ensures(i, p);
    let angle: int = spec_effective_angle(o);
    let center = (Point { x: 0, y: 0 });
    if angle == 0 {
        lemma_upto_insert(polys, i, p, polys.len() as int);
        assert(spec_all_edges(ins) == spec_all_edges(polys));
    } else {
        let rot_p = crate::geometry::spec_rotate_points(p, center, angle);
        let work_ins = Seq::new(
            ins.len(),
            |j: int| crate::geometry::spec_rotate_points(ins[j], center, angle),
        );
        let work_orig = Seq::new(
            polys.len(),
            |j: int| crate::geometry::spec_rotate_points(polys[j], center, angle),
        );
        work_orig.insert_ensures(i, rot_p);
        assert forall|j: int| 0 <= j < work_ins.len() implies work_ins[j] == work_orig.insert(
            i,
            rot_p,
        )[j] by {
            if j < i {
                assert(ins[j] == polys[j]);
            } else if j == i {
                assert(ins[j] == p);
            } else {
                assert(ins[j] == polys[j - 1]);
                assert(work_orig.insert(i, rot_p)[j] == work_orig[j - 1]);
            }
        }
        assert(work_ins =~= work_orig.insert(i, rot_p));
        lemma_rotate_degenerate(p, center, angle);
        lemma_upto_insert(work_orig, i, rot_p, work_orig.len() as int);
        assert(spec_all_edges(work_ins) == spec_all_edges(work_orig));
    }
}

} // verus!
