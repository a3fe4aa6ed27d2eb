//! Self-intersection analysis of closed polygons given by their vertex
//! positions: proper crossings between non-adjacent edges, crossing points,
//! and per-edge crossing lists.
use vstd::prelude::*;
use crate::polygon::cyc_next;
use crate::geometry::{Vec2, COORD_LIMIT, in_range, all_in_range, cross_spec, dist2_spec, div_trunc, diff, cross2, distance2};

verus! {

/// Orientation of `c` relative to the directed line `a -> b`: the cross
/// product of `b - a` and `c - a`.
pub open spec fn orient_spec(a: Vec2, b: Vec2, c: Vec2) -> int {
    cross_spec(b.x - a.x, b.y - a.y, c.x - a.x, c.y - a.y)
}

/// Strictly opposite signs.
pub open spec fn opposite(o1: int, o2: int) -> bool {
    (o1 < 0 && o2 > 0) || (o1 > 0 && o2 < 0)
}

/// The segments `a-b` and `c-d` cross at a single point interior to both.
pub open spec fn cross_spec_seg(a: Vec2, b: Vec2, c: Vec2, d: Vec2) -> bool {
    opposite(orient_spec(a, b, c), orient_spec(a, b, d)) && opposite(
        orient_spec(c, d, a),
        orient_spec(c, d, b),
    )
}

pub open spec fn abs_spec(v: int) -> int {
    if v < 0 {
        -v
    } else {
        v
    }
}

/// The crossing point of `a-b` and `c-d`: `c + (d - c) * |o1| / (|o1| + |o2|)`
/// with `o1`, `o2` the orientations of `c` and `d` relative to `a -> b`,
/// each coordinate's displacement rounded toward zero.
pub open spec fn crossing_point_spec(a: Vec2, b: Vec2, c: Vec2, d: Vec2) -> Vec2 {
    let o1 = abs_spec(orient_spec(a, b, c));
    let o2 = abs_spec(orient_spec(a, b, d));
    Vec2 {
        x: (c.x + div_trunc((d.x - c.x) * o1, o1 + o2)) as i64,
        y: (c.y + div_trunc((d.y - c.y) * o1, o1 + o2)) as i64,
    }
}

/// Orientation of `c` relative to `a -> b`.
pub fn orientation(a: Vec2, b: Vec2, c: Vec2) -> (r: i128)
    requires
        in_range(a),
        in_range(b),
        in_range(c),
    ensures
        r == orient_spec(a, b, c),
        -0x8000_0000_0000_0000 <= r <= 0x8000_0000_0000_0000,
{
    let u = diff(a, b);
    let v = diff(a, c);
    let r = cross2(u, v);
    assert(-0x8000_0000_0000_0000 <= r <= 0x8000_0000_0000_0000) by (nonlinear_arith)
        requires
            r == u.x * v.y - u.y * v.x,
            -0x8000_0000 <= u.x <= 0x8000_0000,
            -0x8000_0000 <= u.y <= 0x8000_0000,
            -0x8000_0000 <= v.x <= 0x8000_0000,
            -0x8000_0000 <= v.y <= 0x8000_0000,
    ;
    r
}

/// Whether `a-b` and `c-d` cross at a point interior to both.
pub fn segments_cross(a: Vec2, b: Vec2, c: Vec2, d: Vec2) -> (r: bool)
    requires
        in_range(a),
        in_range(b),
        in_range(c),
        in_range(d),
    ensures
        r == cross_spec_seg(a, b, c, d),
{
    let o1 = orientation(a, b, c);
    let o2 = orientation(a, b, d);
    let o3 = orientation(c, d, a);
    let o4 = orientation(c, d, b);
    ((o1 < 0 && o2 > 0) || (o1 > 0 && o2 < 0)) && ((o3 < 0 && o4 > 0) || (o3 > 0 && o4 < 0))
}

pub open spec fn min_spec(a: int, b: int) -> int {
    if a <= b {
        a
    } else {
        b
    }
}

pub open spec fn max_spec(a: int, b: int) -> int {
    if a >= b {
        a
    } else {
        b
    }
}

/// The closed segments `a-b` and `c-d` have a point in common: when all four
/// points lie on one line, their extents overlap on both axes; otherwise each
/// segment's endpoints lie on opposite sides of, or on, the other's line.
pub open spec fn intersect_spec_seg(a: Vec2, b: Vec2, c: Vec2, d: Vec2) -> bool {
    let o1 = orient_spec(a, b, c);
    let o2 = orient_spec(a, b, d);
    let o3 = orient_spec(c, d, a);
    let o4 = orient_spec(c, d, b);
    if o1 == 0 && o2 == 0 && o3 == 0 && o4 == 0 {
        min_spec(a.x as int, b.x as int) <= max_spec(c.x as int, d.x as int) && min_spec(
            c.x as int,
            d.x as int,
        ) <= max_spec(a.x as int, b.x as int) && min_spec(a.y as int, b.y as int) <= max_spec(
            c.y as int,
            d.y as int,
        ) && min_spec(c.y as int, d.y as int) <= max_spec(a.y as int, b.y as int)
    } else {
        ((o1 <= 0 && o2 >= 0) || (o1 >= 0 && o2 <= 0)) && ((o3 <= 0 && o4 >= 0) || (o3 >= 0 && o4
            <= 0))
    }
}

fn min_i64(a: i64, b: i64) -> (r: i64)
    ensures
        r == min_spec(a as int, b as int),
{
    if a <= b {
        a
    } else {
        b
    }
}

fn max_i64(a: i64, b: i64) -> (r: i64)
    ensures
        r == max_spec(a as int, b as int),
{
    if a >= b {
        a
    } else {
        b
    }
}

/// Whether the closed segments `a-b` and `c-d` have a point in common.
pub fn segments_intersect(a: Vec2, b: Vec2, c: Vec2, d: Vec2) -> (r: bool)
    requires
        in_range(a),
        in_range(b),
        in_range(c),
        in_range(d),
    ensures
        r == intersect_spec_seg(a, b, c, d),
{
    let o1 = orientation(a, b, c);
    let o2 = orientation(a, b, d);
    let o3 = orientation(c, d, a);
    let o4 = orientation(c, d, b);
    if o1 == 0 && o2 == 0 && o3 == 0 && o4 == 0 {
        min_i64(a.x, b.x) <= max_i64(c.x, d.x) && min_i64(c.x, d.x) <= max_i64(a.x, b.x) && min_i64(
            a.y,
            b.y,
        ) <= max_i64(c.y, d.y) && min_i64(c.y, d.y) <= max_i64(a.y, b.y)
    } else {
        ((o1 <= 0 && o2 >= 0) || (o1 >= 0 && o2 <= 0)) && ((o3 <= 0 && o4 >= 0) || (o3 >= 0 && o4
            <= 0))
    }
}

/// A point strictly between `c` and `c + dc`, at the fraction
/// `o1 / (o1 + o2)` rounded toward `c`, stays within the coordinate range.
pub proof fn lemma_between(c: int, dc: int, o1: int, o2: int)
    requires
        o1 > 0,
        o2 > 0,
        -COORD_LIMIT <= c <= COORD_LIMIT,
        -COORD_LIMIT <= c + dc <= COORD_LIMIT,
    ensures
        -COORD_LIMIT <= c + div_trunc(dc * o1, o1 + o2) <= COORD_LIMIT,
{
    if dc >= 0 {
        assert(dc * o1 >= 0) by (nonlinear_arith)
            requires
                dc >= 0,
                o1 > 0,
        ;
        assert(dc * o1 <= dc * (o1 + o2)) by (nonlinear_arith)
            requires
                dc >= 0,
                o2 > 0,
        ;
        assert((dc * o1) / (o1 + o2) <= dc) by (nonlinear_arith)
            requires
                0 <= dc * o1 <= dc * (o1 + o2),
                o1 + o2 > 0,
        ;
        assert((dc * o1) / (o1 + o2) >= 0) by (nonlinear_arith)
            requires
                dc * o1 >= 0,
                o1 + o2 > 0,
        ;
    } else {
        let e = -dc;
        assert(-(dc * o1) == e * o1) by (nonlinear_arith)
            requires
                e == -dc,
        ;
        assert(e * o1 > 0) by (nonlinear_arith)
            requires
                e > 0,
                o1 > 0,
        ;
        assert(e * o1 <= e * (o1 + o2)) by (nonlinear_arith)
            requires
                e > 0,
                o2 > 0,
        ;
        assert((e * o1) / (o1 + o2) <= e) by (nonlinear_arith)
            requires
                0 <= e * o1 <= e * (o1 + o2),
                o1 + o2 > 0,
        ;
        assert((e * o1) / (o1 + o2) >= 0) by (nonlinear_arith)
            requires
                e * o1 >= 0,
                o1 + o2 > 0,
        ;
    }
}

/// The crossing point of two properly crossing segments, see
/// `crossing_point_spec`.
pub fn crossing_point(a: Vec2, b: Vec2, c: Vec2, d: Vec2) -> (r: Vec2)
    requires
        in_range(a),
        in_range(b),
        in_range(c),
        in_range(d),
        cross_spec_seg(a, b, c, d),
    ensures
        r == crossing_point_spec(a, b, c, d),
        in_range(r),
{
    let o1 = orientation(a, b, c);
    let o2 = orientation(a, b, d);
    let o1 = if o1 < 0 { -o1 } else { o1 };
    let o2 = if o2 < 0 { -o2 } else { o2 };
    let dx = d.x as i128 - c.x as i128;
    let dy = d.y as i128 - c.y as i128;
    assert(-0x4000_0000_0000_0000_0000_0000 <= dx * o1 <= 0x4000_0000_0000_0000_0000_0000) by (nonlinear_arith)
        requires
            -0x8000_0000 <= dx <= 0x8000_0000,
            0 <= o1 <= 0x8000_0000_0000_0000,
    ;
    assert(-0x4000_0000_0000_0000_0000_0000 <= dy * o1 <= 0x4000_0000_0000_0000_0000_0000) by (nonlinear_arith)
        requires
            -0x8000_0000 <= dy <= 0x8000_0000,
            0 <= o1 <= 0x8000_0000_0000_0000,
    ;
    proof {
        lemma_between(c.x as int, dx as int, o1 as int, o2 as int);
        lemma_between(c.y as int, dy as int, o1 as int, o2 as int);
    }
    let x = c.x as i128 + (dx * o1) / (o1 + o2);
    let y = c.y as i128 + (dy * o1) / (o1 + o2);
    Vec2 { x: x as i64, y: y as i64 }
}


/// A crossing of an edge with another: the other edge's index and the
/// crossing point.
#[derive(Clone, Copy, Debug, PartialEq, Eq, Structural)]
pub struct Crossing {
    pub edge: usize,
    pub point: Vec2,
}

/// Edges `e` and `k` of a cycle of `n` edges are distinct and share no vertex
/// index.
pub open spec fn nonadjacent(n: int, e: int, k: int) -> bool {
    e != k && cyc_next(n, e) != k && cyc_next(n, k) != e
}

/// Edges `e` and `k` of the closed polygon `s` cross properly.
pub open spec fn edges_cross(s: Seq<Vec2>, e: int, k: int) -> bool {
    let n = s.len() as int;
    cross_spec_seg(s[e], s[cyc_next(n, e)], s[k], s[cyc_next(n, k)])
}

/// The crossing point of edges `e` and `k`, computed from the edge of lower
/// index so that both edges record the same point.
pub open spec fn pair_point(s: Seq<Vec2>, e: int, k: int) -> Vec2 {
    let n = s.len() as int;
    if e < k {
        crossing_point_spec(s[e], s[cyc_next(n, e)], s[k], s[cyc_next(n, k)])
    } else {
        crossing_point_spec(s[k], s[cyc_next(n, k)], s[e], s[cyc_next(n, e)])
    }
}

/// The crossings of edge `e` with the edges below `k`, in increasing order of
/// the other edge.
pub open spec fn crossings_upto(s: Seq<Vec2>, e: int, k: int) -> Seq<Crossing>
    decreases k,
{
    if k <= 0 {
        Seq::empty()
    } else {
        let rest = crossings_upto(s, e, k - 1);
        if nonadjacent(s.len() as int, e, k - 1) && edges_cross(s, e, k - 1) {
            rest.push(Crossing { edge: (k - 1) as usize, point: pair_point(s, e, k - 1) })
        } else {
            rest
        }
    }
}

/// All proper crossings of edge `e` with non-adjacent edges, in increasing
/// order of the other edge.
pub open spec fn edge_crossings(s: Seq<Vec2>, e: int) -> Seq<Crossing> {
    crossings_upto(s, e, s.len() as int)
}

/// Some two non-adjacent edges of the closed polygon `s` cross properly.
pub open spec fn self_crossing(s: Seq<Vec2>) -> bool {
    exists|e: int, k: int|
        0 <= e < k < s.len() && nonadjacent(s.len() as int, e, k) && #[trigger] edges_cross(s, e, k)
}

/// The first entry among the first `k` of `list` nearest to `from`.
pub open spec fn nearest_upto(list: Seq<Crossing>, from: Vec2, k: int) -> Option<Crossing>
    decreases k,
{
    if k <= 0 {
        None
    } else {
        let best = nearest_upto(list, from, k - 1);
        match best {
            None => Some(list[k - 1]),
            Some(b) => if dist2_spec(from, list[k - 1].point) < dist2_spec(from, b.point) {
                Some(list[k - 1])
            } else {
                best
            },
        }
    }
}

/// The first entry of `list` nearest to `from`, if the list is not empty.
pub open spec fn nearest(list: Seq<Crossing>, from: Vec2) -> Option<Crossing> {
    nearest_upto(list, from, list.len() as int)
}

pub open spec fn crossings_in_range(list: Seq<Crossing>, n: int) -> bool {
    forall|i: int| 0 <= i < list.len() ==> (#[trigger] list[i]).edge < n && in_range(list[i].point)
}

proof fn lemma_crossings_upto_in_range(s: Seq<Vec2>, e: int, k: int)
    requires
        all_in_range(s),
        0 <= e < s.len(),
        k <= s.len(),
    ensures
        crossings_in_range(crossings_upto(s, e, k), s.len() as int),
    decreases k,
{
    if k > 0 {
        lemma_crossings_upto_in_range(s, e, k - 1);
        let n = s.len() as int;
        if nonadjacent(n, e, k - 1) && edges_cross(s, e, k - 1) {
            let k1 = k - 1;
            assert(in_range(s[e]) && in_range(s[cyc_next(n, e)]) && in_range(s[k1]) && in_range(
                s[cyc_next(n, k1)],
            ));
            lemma_crossing_point_in_range(s, e, k1);
        }
    }
}

proof fn lemma_crossing_point_in_range(s: Seq<Vec2>, e: int, k: int)
    requires
        all_in_range(s),
        0 <= e < s.len(),
        0 <= k < s.len(),
        edges_cross(s, e, k),
    ensures
        in_range(pair_point(s, e, k)),
{
    let n = s.len() as int;
    let a = s[e];
    let b = s[cyc_next(n, e)];
    let c = s[k];
    let d = s[cyc_next(n, k)];
    assert(in_range(a) && in_range(b) && in_range(c) && in_range(d));
    if e < k {
        let o1 = abs_spec(orient_spec(a, b, c));
        let o2 = abs_spec(orient_spec(a, b, d));
        lemma_between(c.x as int, d.x - c.x, o1, o2);
        lemma_between(c.y as int, d.y - c.y, o1, o2);
    } else {
        let o1 = abs_spec(orient_spec(c, d, a));
        let o2 = abs_spec(orient_spec(c, d, b));
        lemma_between(a.x as int, b.x - a.x, o1, o2);
        lemma_between(a.y as int, b.y - a.y, o1, o2);
    }
}

/// Every recorded crossing names an edge of the polygon and a point in range.
pub proof fn lemma_edge_crossings_in_range(s: Seq<Vec2>, e: int)
    requires
        all_in_range(s),
        0 <= e < s.len(),
    ensures
        crossings_in_range(edge_crossings(s, e), s.len() as int),
{
    lemma_crossings_upto_in_range(s, e, s.len() as int);
}

/// Whether edges `e` and `k` are distinct and share no vertex.
fn edges_nonadjacent(n: usize, e: usize, k: usize) -> (r: bool)
    requires
        e < n,
        k < n,
    ensures
        r == nonadjacent(n as int, e as int, k as int),
{
    e != k && (e + 1) % n != k && (k + 1) % n != e
}

/// Whether two non-adjacent edges of the closed polygon through `pts` cross
/// properly.
pub fn has_self_crossing(pts: &Vec<Vec2>) -> (r: bool)
    requires
        all_in_range(pts@),
    ensures
        r == self_crossing(pts@),
{
    let n = pts.len();
    let mut e: usize = 0;
    while e < n
        invariant
            n == pts@.len(),
            all_in_range(pts@),
            0 <= e <= n,
            forall|e2: int, k2: int|
                0 <= e2 < e && e2 < k2 < n ==> !(nonadjacent(n as int, e2, k2) && #[trigger] edges_cross(pts@, e2, k2)),
        decreases n - e,
    {
        let mut k: usize = e + 1;
        while k < n
            invariant
                n == pts@.len(),
                all_in_range(pts@),
                0 <= e < n,
                e + 1 <= k <= n,
                forall|e2: int, k2: int|
                    0 <= e2 < e && e2 < k2 < n ==> !(nonadjacent(n as int, e2, k2) && #[trigger] edges_cross(pts@, e2, k2)),
                forall|k2: int|
                    e < k2 < k ==> !(nonadjacent(n as int, e as int, k2) && #[trigger] edges_cross(pts@, e as int, k2)),
            decreases n - k,
        {
            if edges_nonadjacent(n, e, k) {
                let en = (e + 1) % n;
                let kn = (k + 1) % n;
                assert(in_range(pts@[e as int]) && in_range(pts@[en as int]));
                assert(in_range(pts@[k as int]) && in_range(pts@[kn as int]));
                if segments_cross(pts[e], pts[en], pts[k], pts[kn]) {
                    assert(edges_cross(pts@, e as int, k as int));
                    return true;
                }
            }
            k = k + 1;
        }
        e = e + 1;
    }
    false
}

/// For each edge of the closed polygon through `pts`, its proper crossings
/// with non-adjacent edges, in increasing order of the other edge.
pub fn crossing_lists(pts: &Vec<Vec2>) -> (r: Vec<Vec<Crossing>>)
    requires
        all_in_range(pts@),
    ensures
        r@.len() == pts@.len(),
        forall|e: int| 0 <= e < pts@.len() ==> (#[trigger] r@[e])@ == edge_crossings(pts@, e),
{
    let n = pts.len();
    let mut lists: Vec<Vec<Crossing>> = Vec::new();
    let mut e: usize = 0;
    while e < n
        invariant
            n == pts@.len(),
            all_in_range(pts@),
            0 <= e <= n,
            lists@.len() == e,
            forall|e2: int| 0 <= e2 < e ==> (#[trigger] lists@[e2])@ == edge_crossings(pts@, e2),
        decreases n - e,
    {
        let mut list: Vec<Crossing> = Vec::new();
        let mut k: usize = 0;
        while k < n
            invariant
                n == pts@.len(),
                all_in_range(pts@),
                0 <= e < n,
                0 <= k <= n,
                list@ == crossings_upto(pts@, e as int, k as int),
            decreases n - k,
        {
            if edges_nonadjacent(n, e, k) {
                let en = (e + 1) % n;
                let kn = (k + 1) % n;
                assert(in_range(pts@[e as int]) && in_range(pts@[en as int]));
                assert(in_range(pts@[k as int]) && in_range(pts@[kn as int]));
                if segments_cross(pts[e], pts[en], pts[k], pts[kn]) {
                    let point = if e < k {
                        crossing_point(pts[e], pts[en], pts[k], pts[kn])
                    } else {
                        crossing_point(pts[k], pts[kn], pts[e], pts[en])
                    };
                    list.push(Crossing { edge: k, point });
                }
            }
            k = k + 1;
        }
        lists.push(list);
        e = e + 1;
    }
    lists
}

/// The first entry of `list` nearest to `from`, if any.
pub fn nearest_crossing(list: &Vec<Crossing>, from: Vec2) -> (r: Option<Crossing>)
    requires
        in_range(from),
        forall|i: int| 0 <= i < list@.len() ==> in_range((#[trigger] list@[i]).point),
    ensures
        r == nearest(list@, from),
        r matches Some(c) ==> exists|i: int| 0 <= i < list@.len() && list@[i] == c,
{
    let mut best: Option<Crossing> = None;
    let mut best_d: i128 = 0;
    let mut i: usize = 0;
    while i < list.len()
        invariant
            in_range(from),
            forall|j: int| 0 <= j < list@.len() ==> in_range((#[trigger] list@[j]).point),
            0 <= i <= list@.len(),
            best == nearest_upto(list@, from, i as int),
            best matches Some(b) ==> best_d == dist2_spec(from, b.point) && in_range(b.point)
                && exists|j: int| 0 <= j < i && list@[j] == b,
        decreases list@.len() - i,
    {
        let c = list[i];
        assert(in_range(list@[i as int].point));
        let d = distance2(from, c.point);
        proof {
            assert(dist2_spec(from, c.point) == dist2_spec(c.point, from)) by (nonlinear_arith);
        }
        match best {
            None => {
                best = Some(c);
                best_d = d;
            },
            Some(_) => {
                if d < best_d {
                    best = Some(c);
                    best_d = d;
                }
            },
        }
        i = i + 1;
    }
    best
}

/// For each edge of the closed polygon through `pts`, its crossing nearest to
/// the edge's start vertex.
pub fn nearest_crossings(pts: &Vec<Vec2>) -> (r: Vec<Option<Crossing>>)
    requires
        all_in_range(pts@),
    ensures
        r@.len() == pts@.len(),
        forall|e: int|
            0 <= e < pts@.len() ==> #[trigger] r@[e] == nearest(edge_crossings(pts@, e), pts@[e]),
{
    let lists = crossing_lists(pts);
    let n = pts.len();
    let mut r: Vec<Option<Crossing>> = Vec::new();
    let mut e: usize = 0;
    while e < n
        invariant
            n == pts@.len(),
            all_in_range(pts@),
            lists@.len() == n,
            forall|e2: int| 0 <= e2 < n ==> (#[trigger] lists@[e2])@ == edge_crossings(pts@, e2),
            0 <= e <= n,
            r@.len() == e,
            forall|e2: int| 0 <= e2 < e ==> #[trigger] r@[e2] == nearest(edge_crossings(pts@, e2), pts@[e2]),
        decreases n - e,
    {
        proof {
            lemma_edge_crossings_in_range(pts@, e as int);
            assert(lists@[e as int]@ == edge_crossings(pts@, e as int));
        }
        assert(in_range(pts@[e as int]));
        r.push(nearest_crossing(&lists[e], pts[e]));
        e = e + 1;
    }
    r
}

} // verus!
