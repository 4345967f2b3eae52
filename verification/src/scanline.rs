//! The scanline sweep: edge table, deterministic edge order, active set
//! and the adjacent-pair line emitter.

use vstd::prelude::*;
use crate::fixed::{sat64, spec_fx_div, spec_fx_mul, fx_add, fx_sub, fx_div, fx_mul};
use crate::geometry::{Point, Line};

verus! {

/// Floor for the scan gap, one tenth of a unit.
pub const MIN_GAP: i64 = 100_000;

/// One non-horizontal polygon side, as the sweep consumes it.
#[derive(Clone, Copy, PartialEq, Eq, Structural, Debug)]
pub struct Edge {
    pub ymin: i64,
    pub ymax: i64,
    pub x: i64,
    pub islope: i64,
}

/// An edge the sweep is currently crossing, with the scan position at which
/// it became active.
#[derive(Clone, Copy, PartialEq, Eq, Structural, Debug)]
pub struct ActiveEdge {
    pub s: i64,
    pub edge: Edge,
}

/// A contour, closed: the first point is appended when the contour does not
/// already end where it starts.
pub open spec fn spec_close(poly: Seq<Point>) -> Seq<Point> {
    if poly.len() == 0 {
        poly
    } else if poly.first() == poly.last() {
        poly
    } else {
        poly.push(poly.first())
    }
}

/// The edge of one polygon side, or `None` when the side is horizontal.
pub open spec fn spec_pair_edge(p1: Point, p2: Point) -> Option<Edge> {
    if p1.y == p2.y {
        None
    } else {
        Some(
            Edge {
                ymin: if p1.y < p2.y { p1.y } else { p2.y },
                ymax: if p1.y < p2.y { p2.y } else { p1.y },
                x: if p1.y < p2.y { p1.x } else { p2.x },
                islope: spec_fx_div(sat64(p2.x - p1.x), sat64(p2.y - p1.y)) as i64,
            },
        )
    }
}

/// Edges of the sides among the first `n` points of a closed contour.
pub open spec fn spec_pair_edges(pts: Seq<Point>, n: int) -> Seq<Edge>
    decreases n,
{
    if n <= 1 {
        Seq::empty()
    } else {
        let rest = spec_pair_edges(pts, n - 1);
        match spec_pair_edge(pts[n - 2], pts[n - 1]) {
            Some(e) => rest.push(e),
            None => rest,
        }
    }
}

/// All edges of one contour. A contour whose closed form has fewer than
/// three distinct sides is dropped and contributes nothing.
pub open spec fn spec_poly_edges(poly: Seq<Point>) -> Seq<Edge> {
    let closed = spec_close(poly);
    if closed.len() > 3 {
        spec_pair_edges(closed, closed.len() as int)
    } else {
        Seq::empty()
    }
}

/// Edges of the first `n` contours of a polygon set.
pub open spec fn spec_all_edges_upto(polys: Seq<Seq<Point>>, n: int) -> Seq<Edge>
    decreases n,
{
    if n <= 0 {
        Seq::empty()
    } else {
        spec_all_edges_upto(polys, n - 1) + spec_poly_edges(polys[n - 1])
    }
}

/// Edges of every contour of a polygon set, in contour order.
pub open spec fn spec_all_edges(polys: Seq<Seq<Point>>) -> Seq<Edge> {
    spec_all_edges_upto(polys, polys.len() as int)
}

/// Total order on edges: `ymin` ascending, then `x`, then `ymax`.
pub open spec fn spec_edge_le(e1: Edge, e2: Edge) -> bool {
    if e1.ymin != e2.ymin {
        e1.ymin < e2.ymin
    } else if e1.x != e2.x {
        e1.x < e2.x
    } else {
        e1.ymax <= e2.ymax
    }
}

/// Stable insertion of an edge: it lands after every edge ordered at or
/// before it.
pub open spec fn spec_insert_edge(e: Edge, s: Seq<Edge>) -> Seq<Edge>
    decreases s.len(),
{
    if s.len() == 0 {
        seq![e]
    } else if spec_edge_le(s[0], e) {
        seq![s[0]] + spec_insert_edge(e, s.drop_first())
    } else {
        seq![e] + s
    }
}

/// Stable insertion sort of the edge table.
pub open spec fn spec_sort_edges(s: Seq<Edge>) -> Seq<Edge>
    decreases s.len(),
{
    if s.len() == 0 {
        Seq::empty()
    } else {
        spec_insert_edge(s.last(), spec_sort_edges(s.drop_last()))
    }
}

/// Order on active edges: current `x` ascending, equal `x` compare equal.
pub open spec fn spec_active_le(a1: ActiveEdge, a2: ActiveEdge) -> bool {
    a1.edge.x <= a2.edge.x
}

/// Stable insertion of an active edge by current `x`.
pub open spec fn spec_insert_active(e: ActiveEdge, s: Seq<ActiveEdge>) -> Seq<ActiveEdge>
    decreases s.len(),
{
    if s.len() == 0 {
        seq![e]
    } else if spec_active_le(s[0], e) {
        seq![s[0]] + spec_insert_active(e, s.drop_first())
    } else {
        seq![e] + s
    }
}

/// Stable insertion sort of the active set by current `x`.
pub open spec fn spec_sort_active(s: Seq<ActiveEdge>) -> Seq<ActiveEdge>
    decreases s.len(),
{
    if s.len() == 0 {
        Seq::empty()
    } else {
        spec_insert_active(s.last(), spec_sort_active(s.drop_last()))
    }
}

/// How many leading pending edges have `ymin <= y`.
pub open spec fn spec_count_ready(pending: Seq<Edge>, y: i64) -> int
    decreases pending.len(),
{
    if pending.len() > 0 && pending[0].ymin <= y {
        1 + spec_count_ready(pending.drop_first(), y)
    } else {
        0
    }
}

/// Tag edges with the scan position at which they become active.
pub open spec fn spec_tag(moved: Seq<Edge>, y: i64) -> Seq<ActiveEdge>
    decreases moved.len(),
{
    if moved.len() == 0 {
        Seq::empty()
    } else {
        spec_tag(moved.drop_last(), y).push(ActiveEdge { s: y, edge: moved.last() })
    }
}

/// Keep the active edges the sweep has not passed: those with `ymax > y`.
pub open spec fn spec_keep_active(active: Seq<ActiveEdge>, y: i64) -> Seq<ActiveEdge>
    decreases active.len(),
{
    if active.len() == 0 {
        Seq::empty()
    } else {
        let rest = spec_keep_active(active.drop_last(), y);
        if active.last().edge.ymax > y {
            rest.push(active.last())
        } else {
            rest
        }
    }
}

/// Segments between the adjacent pairs of the first `n` active edges.
pub open spec fn spec_emit_upto(act: Seq<ActiveEdge>, y: i64, n: int) -> Seq<Line>
    decreases n,
{
    if n <= 1 {
        Seq::empty()
    } else {
        spec_emit_upto(act, y, n - 1).push(
            Line {
                start: Point { x: act[n - 2].edge.x, y: y },
                end: Point { x: act[n - 1].edge.x, y: y },
            },
        )
    }
}

/// Segments between all adjacent pairs of the sorted active set.
pub open spec fn spec_emit(act: Seq<ActiveEdge>, y: i64) -> Seq<Line> {
    spec_emit_upto(act, y, act.len() as int)
}

/// Extrapolate every active edge's `x` one gap further along its slope.
pub open spec fn spec_advance(act: Seq<ActiveEdge>, gap: i64) -> Seq<ActiveEdge>
    decreases act.len(),
{
    if act.len() == 0 {
        Seq::empty()
    } else {
        let ae = act.last();
        spec_advance(act.drop_last(), gap).push(
            ActiveEdge {
                s: ae.s,
                edge: Edge {
                    ymin: ae.edge.ymin,
                    ymax: ae.edge.ymax,
                    x: sat64(ae.edge.x + spec_fx_mul(gap as int, ae.edge.islope as int)) as i64,
                    islope: ae.edge.islope,
                },
            },
        )
    }
}

/// One whole sweep from scan position `y`, accumulating into `lines`.
/// It stops once a scan position emits nothing new into an empty run, or
/// the active set empties, or the scan position can no longer advance.
pub open spec fn spec_sweep(
    pending: Seq<Edge>,
    active: Seq<ActiveEdge>,
    y: i64,
    gap: i64,
    lines: Seq<Line>,
) -> Seq<Line>
    decreases i64::MAX - y,
{
    let k = spec_count_ready(pending, y);
    let active1 = active + spec_tag(pending.take(k), y);
    let active2 = spec_keep_active(active1, y);
    let active3 = spec_sort_active(active2);
    let lines1 = lines + spec_emit(active3, y);
    let y1 = sat64(y + gap) as i64;
    let active4 = spec_advance(active3, gap);
    if lines1.len() == 0 || active4.len() == 0 || y1 <= y {
        lines1
    } else {
        spec_sweep(pending.skip(k), active4, y1, gap, lines1)
    }
}

/// The straight sweep of a polygon set with horizontal scan lines.
pub open spec fn spec_straight_hachure_lines(polys: Seq<Seq<Point>>, gap: i64) -> Seq<Line> {
    let g: i64 = if gap < MIN_GAP { MIN_GAP } else { gap };
    let edges = spec_sort_edges(spec_all_edges(polys));
    if edges.len() == 0 {
        Seq::empty()
    } else {
        spec_sweep(edges, Seq::empty(), edges[0].ymin, g, Seq::empty())
    }
}

/// The contours of a polygon set as point sequences.
pub open spec fn polys_view(v: Seq<Vec<Point>>) -> Seq<Seq<Point>> {
    Seq::new(v.len(), |i: int| v[i]@)
}

/// Close one contour, copying it.
fn close_polygon(poly: &Vec<Point>) -> (r: Vec<Point>)
    ensures
        r@ == spec_close(poly@),
{
    let mut out: Vec<Point> = Vec::new();
    let mut i: usize = 0;
    while i < poly.len()
        invariant
            i <= poly@.len(),
            out@ == poly@.take(i as int),
        decreases poly@.len() - i,
    {
        let p = poly[i];
        out.push(p);
        proof {
            assert(poly@.take(i + 1 as int) =~= poly@.take(i as int).push(poly@[i as int]));
        }
        i = i + 1;
    }
    proof {
        assert(poly@.take(poly@.len() as int) =~= poly@);
    }
    if out.len() > 0 {
        let first = out[0];
        let last = out[out.len() - 1];
        if !(first == last) {
            out.push(first);
        }
    }
    out
}

/// The edge of one polygon side, or `None` for a horizontal side.
fn pair_edge(p1: &Point, p2: &Point) -> (r: Option<Edge>)
    ensures
        r == spec_pair_edge(*p1, *p2),
{
    if p1.y == p2.y {
        None
    } else {
        let dy = fx_sub(p2.y, p1.y);
        let dx = fx_sub(p2.x, p1.x);
        let islope = fx_div(dx, dy);
        Some(
            Edge {
                ymin: if p1.y < p2.y { p1.y } else { p2.y },
                ymax: if p1.y < p2.y { p2.y } else { p1.y },
                x: if p1.y < p2.y { p1.x } else { p2.x },
                islope,
            },
        )
    }
}

/// All edges of one contour.
fn poly_edges(poly: &Vec<Point>) -> (r: Vec<Edge>)
    ensures
        r@ == spec_poly_edges(poly@),
{
    let closed = close_polygon(poly);
    let mut out: Vec<Edge> = Vec::new();
    if closed.len() <= 3 {
        return out;
    }
    let mut i: usize = 1;
    while i < closed.len()
        invariant
            1 <= i <= closed@.len(),
            closed@ == spec_close(poly@),
            out@ == spec_pair_edges(closed@, i as int),
        decreases closed@.len() - i,
    {
        match pair_edge(&closed[i - 1], &closed[i]) {
            Some(e) => out.push(e),
            None => (),
        }
        i = i + 1;
    }
    out
}

/// The edge table of a whole polygon set.
fn build_all_edges(polys: &Vec<Vec<Point>>) -> (r: Vec<Edge>)
    ensures
        r@ == spec_all_edges(polys_view(polys@)),
{
    let mut out: Vec<Edge> = Vec::new();
    let mut i: usize = 0;
    while i < polys.len()
        invariant
            i <= polys@.len(),
            out@ == spec_all_edges_upto(polys_view(polys@), i as int),
        decreases polys@.len() - i,
    {
        let mut next = poly_edges(&polys[i]);
        proof {
            assert(polys_view(polys@)[i as int] == polys@[i as int]@);
        }
        out.append(&mut next);
        i = i + 1;
    }
    out
}

/// Compare edges in the table order.
fn edge_le(e1: &Edge, e2: &Edge) -> (r: bool)
    ensures
        r == spec_edge_le(*e1, *e2),
{
    if e1.ymin != e2.ymin {
        e1.ymin < e2.ymin
    } else if e1.x != e2.x {
        e1.x < e2.x
    } else {
        e1.ymax <= e2.ymax
    }
}

/// Where a stable insertion of `e` lands in `s`.
proof fn lemma_insert_edge_at(e: Edge, s: Seq<Edge>, j: int)
    requires
        0 <= j <= s.len(),
        forall|k: int| 0 <= k < j ==> spec_edge_le(s[k], e),
        j < s.len() ==> !spec_edge_le(s[j as int], e),
    ensures
        spec_insert_edge(e, s) == s.insert(j, e),
    decreases j,
{
    if s.len() == 0 {
        assert(spec_insert_edge(e, s) =~= s.insert(0, e));
    } else if j == 0 {
        assert(!spec_edge_le(s[0], e));
        assert(spec_insert_edge(e, s) =~= s.insert(0, e));
    } else {
        assert(spec_edge_le(s[0], e));
        let t = s.drop_first();
        assert forall|k: int| 0 <= k < j - 1 implies spec_edge_le(t[k], e) by {
            assert(t[k] == s[k + 1]);
        }
        if j - 1 < t.len() {
            assert(t[j - 1] == s[j as int]);
        }
        lemma_insert_edge_at(e, t, j - 1);
        assert(spec_insert_edge(e, s) == seq![s[0]] + t.insert(j - 1, e));
        assert(seq![s[0]] + t.insert(j - 1, e) =~= s.insert(j, e));
    }
}

/// Sort the edge table, stably.
fn sort_edges(v: &Vec<Edge>) -> (r: Vec<Edge>)
    ensures
        r@ == spec_sort_edges(v@),
{
    let mut out: Vec<Edge> = Vec::new();
    let mut i: usize = 0;
    while i < v.len()
        invariant
            i <= v@.len(),
            out@ == spec_sort_edges(v@.take(i as int)),
        decreases v@.len() - i,
    {
        let e = v[i];
        let mut j: usize = 0;
        while j < out.len()
            invariant_except_break
                j <= out@.len(),
                forall|k: int| 0 <= k < j ==> spec_edge_le(out@[k], e),
            ensures
                j <= out@.len(),
                forall|k: int| 0 <= k < j ==> spec_edge_le(out@[k], e),
                j < out@.len() ==> !spec_edge_le(out@[j as int], e),
            decreases out@.len() - j,
        {
            if !edge_le(&out[j], &e) {
                break;
            }
            j = j + 1;
        }
        proof {
            lemma_insert_edge_at(e, out@, j as int);
            assert(v@.take(i + 1 as int).drop_last() =~= v@.take(i as int));
            assert(v@.take(i + 1 as int).last() == v@[i as int]);
        }
        out.insert(j, e);
        i = i + 1;
    }
    proof {
        assert(v@.take(v@.len() as int) =~= v@);
    }
    out
}

/// Compare active edges by current `x`.
fn active_le(a1: &ActiveEdge, a2: &ActiveEdge) -> (r: bool)
    ensures
        r == spec_active_le(*a1, *a2),
{
    a1.edge.x <= a2.edge.x
}

/// Where a stable insertion of an active edge lands.
proof fn lemma_insert_active_at(e: ActiveEdge, s: Seq<ActiveEdge>, j: int)
    requires
        0 <= j <= s.len(),
        forall|k: int| 0 <= k < j ==> spec_active_le(s[k], e),
        j < s.len() ==> !spec_active_le(s[j as int], e),
    ensures
        spec_insert_active(e, s) == s.insert(j, e),
    decreases j,
{
    if s.len() == 0 {
        assert(spec_insert_active(e, s) =~= s.insert(0, e));
    } else if j == 0 {
        assert(!spec_active_le(s[0], e));
        assert(spec_insert_active(e, s) =~= s.insert(0, e));
    } else {
        assert(spec_active_le(s[0], e));
        let t = s.drop_first();
        assert forall|k: int| 0 <= k < j - 1 implies spec_active_le(t[k], e) by {
            assert(t[k] == s[k + 1]);
        }
        if j - 1 < t.len() {
            assert(t[j - 1] == s[j as int]);
        }
        lemma_insert_active_at(e, t, j - 1);
        assert(spec_insert_active(e, s) == seq![s[0]] + t.insert(j - 1, e));
        assert(seq![s[0]] + t.insert(j - 1, e) =~= s.insert(j, e));
    }
}

/// Sort the active set by current `x`, stably.
fn sort_active(v: &Vec<ActiveEdge>) -> (r: Vec<ActiveEdge>)
    ensures
        r@ == spec_sort_active(v@),
{
    let mut out: Vec<ActiveEdge> = Vec::new();
    let mut i: usize = 0;
    while i < v.len()
        invariant
            i <= v@.len(),
            out@ == spec_sort_active(v@.take(i as int)),
        decreases v@.len() - i,
    {
        let e = v[i];
        let mut j: usize = 0;
        while j < out.len()
            invariant_except_break
                j <= out@.len(),
                forall|k: int| 0 <= k < j ==> spec_active_le(out@[k], e),
            ensures
                j <= out@.len(),
                forall|k: int| 0 <= k < j ==> spec_active_le(out@[k], e),
                j < out@.len() ==> !spec_active_le(out@[j as int], e),
            decreases out@.len() - j,
        {
            if !active_le(&out[j], &e) {
                break;
            }
            j = j + 1;
        }
        proof {
            lemma_insert_active_at(e, out@, j as int);
            assert(v@.take(i + 1 as int).drop_last() =~= v@.take(i as int));
            assert(v@.take(i + 1 as int).last() == v@[i as int]);
        }
        out.insert(j, e);
        i = i + 1;
    }
    proof {
        assert(v@.take(v@.len() as int) =~= v@);
    }
    out
}

/// The leading ready run is well defined.
proof fn lemma_count_ready_props(pending: Seq<Edge>, y: i64)
    ensures
        0 <= spec_count_ready(pending, y) <= pending.len(),
        forall|i: int|
            0 <= i < spec_count_ready(pending, y) ==> #[trigger] pending[i].ymin <= y,
        spec_count_ready(pending, y) < pending.len() ==> pending[spec_count_ready(
            pending,
            y,
        )].ymin > y,
    decreases pending.len(),
{
    if pending.len() > 0 && pending[0].ymin <= y {
        let t = pending.drop_first();
        lemma_count_ready_props(t, y);
        assert forall|i: int|
            0 <= i < spec_count_ready(pending, y) implies #[trigger] pending[i].ymin <= y by {
            if i > 0 {
                assert(t[i - 1] == pending[i]);
            }
        }
        if spec_count_ready(pending, y) < pending.len() {
            assert(t[spec_count_ready(t, y)] == pending[spec_count_ready(pending, y)]);
        }
    }
}

/// Move every ready pending edge into the active set, tagging it with `y`.
fn move_ready(pending: &mut Vec<Edge>, active: &mut Vec<ActiveEdge>, y: i64)
    ensures
        final(pending)@ == old(pending)@.skip(spec_count_ready(old(pending)@, y)),
        final(active)@ == old(active)@ + spec_tag(
            old(pending)@.take(spec_count_ready(old(pending)@, y)),
            y,
        ),
{
    proof {
        lemma_count_ready_props(pending@, y);
    }
    let ghost p0 = pending@;
    let ghost a0 = active@;
    let ghost k = spec_count_ready(p0, y);
    let n0: usize = pending.len();
    proof {
        assert(p0.len() == n0 as int);
    }
    let mut t: usize = 0;
    proof {
        assert(p0.skip(0) =~= p0);
        assert(spec_tag(p0.take(0), y) =~= Seq::<ActiveEdge>::empty());
        assert(a0 + spec_tag(p0.take(0), y) =~= a0);
    }
    while pending.len() > 0 && pending[0].ymin <= y
        invariant
            t as int <= k,
            k == spec_count_ready(p0, y),
            0 <= k <= p0.len(),
            forall|i: int| 0 <= i < k ==> #[trigger] p0[i].ymin <= y,
            k < p0.len() ==> p0[k as int].ymin > y,
            p0.len() <= usize::MAX,
            pending@ == p0.skip(t as int),
            active@ == a0 + spec_tag(p0.take(t as int), y),
        decreases p0.len() - t,
    {
        proof {
            assert(pending@[0] == p0[t as int]);
            if t as int == k {
                assert(k < p0.len());
                assert(false);
            }
        }
        let e = pending.remove(0);
        active.push(ActiveEdge { s: y, edge: e });
        proof {
            assert(p0.skip(t as int).remove(0) =~= p0.skip(t + 1 as int));
            assert(p0.take(t + 1 as int).drop_last() =~= p0.take(t as int));
            assert(p0.take(t + 1 as int).last() == p0[t as int]);
            assert(a0 + spec_tag(p0.take(t + 1 as int), y) =~= (a0 + spec_tag(
                p0.take(t as int),
                y,
            )).push(ActiveEdge { s: y, edge: p0[t as int] }));
        }
        t = t + 1;
    }
    proof {
        if (t as int) < k {
            assert(p0[t as int].ymin <= y);
            assert(pending@[0] == p0[t as int]);
            assert(false);
        }
    }
}

/// Drop the active edges the sweep has passed.
fn filter_active(v: &Vec<ActiveEdge>, y: i64) -> (r: Vec<ActiveEdge>)
    ensures
        r@ == spec_keep_active(v@, y),
{
    let mut out: Vec<ActiveEdge> = Vec::new();
    let mut i: usize = 0;
    while i < v.len()
        invariant
            i <= v@.len(),
            out@ == spec_keep_active(v@.take(i as int), y),
        decreases v@.len() - i,
    {
        let ae = v[i];
        if ae.edge.ymax > y {
            out.push(ae);
        }
        proof {
            assert(v@.take(i + 1 as int).drop_last() =~= v@.take(i as int));
            assert(v@.take(i + 1 as int).last() == v@[i as int]);
        }
        i = i + 1;
    }
    proof {
        assert(v@.take(v@.len() as int) =~= v@);
    }
    out
}

/// Emit one segment per adjacent pair of the sorted active set.
fn emit_segments(lines: &mut Vec<Line>, act: &Vec<ActiveEdge>, y: i64)
    ensures
        final(lines)@ == old(lines)@ + spec_emit(act@, y),
{
    let ghost l0 = lines@;
    if act.len() <= 1 {
        proof {
            assert(l0 + spec_emit(act@, y) =~= l0);
        }
        return ;
    }
    let mut i: usize = 1;
    proof {
        assert(l0 + spec_emit_upto(act@, y, 1) =~= l0);
    }
    while i < act.len()
        invariant
            1 <= i <= act@.len(),
            lines@ == l0 + spec_emit_upto(act@, y, i as int),
        decreases act@.len() - i,
    {
        let a = act[i - 1].edge.x;
        let b = act[i].edge.x;
        lines.push(Line { start: Point { x: a, y }, end: Point { x: b, y } });
        proof {
            assert(lines@ =~= l0 + spec_emit_upto(act@, y, i + 1 as int));
        }
        i = i + 1;
    }
}

/// Advance every active edge's `x` one gap further.
fn advance_active(v: &Vec<ActiveEdge>, gap: i64) -> (r: Vec<ActiveEdge>)
    ensures
        r@ == spec_advance(v@, gap),
{
    let mut out: Vec<ActiveEdge> = Vec::new();
    let mut i: usize = 0;
    while i < v.len()
        invariant
            i <= v@.len(),
            out@ == spec_advance(v@.take(i as int), gap),
        decreases v@.len() - i,
    {
        let ae = v[i];
        let nx = fx_add(ae.edge.x, fx_mul(gap, ae.edge.islope));
        out.push(
            ActiveEdge {
                s: ae.s,
                edge: Edge { ymin: ae.edge.ymin, ymax: ae.edge.ymax, x: nx, islope: ae.edge.islope },
            },
        );
        proof {
            assert(v@.take(i + 1 as int).drop_last() =~= v@.take(i as int));
            assert(v@.take(i + 1 as int).last() == v@[i as int]);
        }
        i = i + 1;
    }
    proof {
        assert(v@.take(v@.len() as int) =~= v@);
    }
    out
}

/// Sweep a polygon set with horizontal scan lines spaced `gap` apart
/// (floored at `MIN_GAP`), bottom-up from the least edge `ymin`.
pub fn straight_hachure_lines(polygon_list: &Vec<Vec<Point>>, gap: i64) -> (r: Vec<Line>)
    ensures
        r@ == spec_straight_hachure_lines(polys_view(polygon_list@), gap),
{
    let g: i64 = if gap < MIN_GAP { MIN_GAP } else { gap };
    let built = build_all_edges(polygon_list);
    let mut edges = sort_edges(&built);
    let mut lines: Vec<Line> = Vec::new();
    if edges.len() == 0 {
        return lines;
    }
    let mut active: Vec<ActiveEdge> = Vec::new();
    let mut y: i64 = edges[0].ymin;
    let ghost target = spec_sweep(edges@, active@, y, g, lines@);
    loop
        invariant_except_break
            spec_sweep(edges@, active@, y, g, lines@) == target,
        ensures
            lines@ == target,
        decreases i64::MAX - y,
    {
        let ghost p_pre = edges@;
        let ghost a_pre = active@;
        let ghost l_pre = lines@;
        let ghost y_pre = y;
        move_ready(&mut edges, &mut active, y);
        let kept = filter_active(&active, y);
        let sorted = sort_active(&kept);
        emit_segments(&mut lines, &sorted, y);
        let advanced = advance_active(&sorted, g);
        active = advanced;
        let y_new = fx_add(y, g);
        proof {
            assert(spec_sweep(p_pre, a_pre, y_pre, g, l_pre) == if lines@.len() == 0
                || active@.len() == 0 || y_new <= y_pre {
                lines@
            } else {
                spec_sweep(edges@, active@, y_new, g, lines@)
            });
        }
        if lines.is_empty() || active.is_empty() || y_new <= y {
            break;
        }
        y = y_new;
    }
    lines
}

} // verus!
