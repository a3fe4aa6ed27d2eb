//! The offset engine: moves every vertex along its miter vector and, where
//! that naive offset crosses itself, walks its outer boundary.
use vstd::prelude::*;
use crate::geometry::{
    Vec2, COORD_LIMIT, UNIT, in_range, all_in_range, small, div_trunc, dist2_spec, turn_spec,
    miter_spec, is_right_turn, distance2, lemma_miter_small,
};
use crate::polygon::{Polygon, cyc_prev, cyc_next};
use crate::crossing::{self_crossing, nonadjacent, edges_cross, crossings_upto};
use crate::crossing::{
    Crossing, edge_crossings, nearest, crossing_lists, nearest_crossing, crossings_in_range,
    lemma_edge_crossings_in_range,
};

verus! {

/// Largest vertex count the offset engine accepts, so that the repaired
/// contour's point count stays below `isize::MAX` on every target.
pub const MAX_OFFSET_VERTICES: usize = 16384;

/// `v` limited to `[-COORD_LIMIT, COORD_LIMIT]`.
pub open spec fn clamp_coord(v: int) -> int {
    if v < -COORD_LIMIT {
        -COORD_LIMIT as int
    } else if v > COORD_LIMIT {
        COORD_LIMIT as int
    } else {
        v
    }
}

/// `p` moved by `d` times the fixed-point vector `m`, rounded toward zero
/// and kept within the coordinate range.
pub open spec fn offset_point(p: Vec2, m: Vec2, d: int) -> Vec2 {
    Vec2 {
        x: clamp_coord(p.x + div_trunc(m.x * d, UNIT as int)) as i64,
        y: clamp_coord(p.y + div_trunc(m.y * d, UNIT as int)) as i64,
    }
}

/// Every vertex of `s` moved by `d` along its miter offset vector.
pub open spec fn naive_positions(s: Seq<Vec2>, d: int) -> Seq<Vec2> {
    Seq::new(
        s.len(),
        |i: int|
            offset_point(
                s[i],
                miter_spec(s[cyc_prev(s.len() as int, i)], s[i], s[cyc_next(s.len() as int, i)]),
                d,
            ),
    )
}

/// The crossing lists of every edge of `s`.
pub open spec fn lists_of(s: Seq<Vec2>) -> Seq<Seq<Crossing>> {
    Seq::new(s.len(), |e: int| edge_crossings(s, e))
}

/// No edge has a crossing.
pub open spec fn no_crossings(cr: Seq<Seq<Crossing>>) -> bool {
    forall|e: int| 0 <= e < cr.len() ==> (#[trigger] cr[e]).len() == 0
}

/// Index of the first vertex of smallest x among the first `k` (`k >= 1`).
pub open spec fn min_x_upto(s: Seq<Vec2>, k: int) -> int
    decreases k,
{
    if k <= 1 {
        0
    } else {
        let b = min_x_upto(s, k - 1);
        if s[k - 1].x < s[b].x {
            k - 1
        } else {
            b
        }
    }
}

/// A candidate continuation of the boundary chain: its point makes a right
/// turn after the last two boundary points (taken last first), and its edge
/// is not the edge the chain just came from.
pub open spec fn turn_valid(c: Crossing, last: Vec2, second: Vec2, prev_line: int) -> bool {
    turn_spec(last, second, c.point) < 0 && c.edge != prev_line
}

/// The first valid continuation among the first `k` of `list` nearest to
/// `last`.
pub open spec fn turn_pick_upto(
    list: Seq<Crossing>,
    last: Vec2,
    second: Vec2,
    prev_line: int,
    k: int,
) -> Option<Crossing>
    decreases k,
{
    if k <= 0 {
        None
    } else {
        let best = turn_pick_upto(list, last, second, prev_line, k - 1);
        let c = list[k - 1];
        if !turn_valid(c, last, second, prev_line) {
            best
        } else {
            match best {
                None => Some(c),
                Some(b) => if dist2_spec(last, c.point) < dist2_spec(last, b.point) {
                    Some(c)
                } else {
                    best
                },
            }
        }
    }
}

pub open spec fn turn_pick(list: Seq<Crossing>, last: Vec2, second: Vec2, prev_line: int) -> Option<
    Crossing,
> {
    turn_pick_upto(list, last, second, prev_line, list.len() as int)
}

/// Follows the chain of crossings from `cur` for at most `fuel` steps: each
/// step moves to the valid continuation on `cur`'s other edge and appends its
/// point. Returns the points and the last crossing reached.
pub open spec fn chain(
    cr: Seq<Seq<Crossing>>,
    pts: Seq<Vec2>,
    cur: Crossing,
    prev_line: int,
    fuel: nat,
) -> (Seq<Vec2>, Crossing)
    decreases fuel,
{
    if fuel == 0 {
        (pts, cur)
    } else {
        match turn_pick(cr[cur.edge as int], pts.last(), pts[pts.len() - 2], prev_line) {
            None => (pts, cur),
            Some(c) => chain(cr, pts.push(c.point), c, cur.edge as int, (fuel - 1) as nat),
        }
    }
}

/// One step of the boundary walk at vertex `i` of `pos`: appends the vertex;
/// if its edge has crossings, jumps to the nearest one and follows the chain.
/// Returns the next vertex and the points.
pub open spec fn walk_step(cr: Seq<Seq<Crossing>>, pos: Seq<Vec2>, i: int, pts: Seq<Vec2>) -> (
    int,
    Seq<Vec2>,
) {
    let n = pos.len() as int;
    let pts1 = pts.push(pos[i]);
    match nearest(cr[i], pos[i]) {
        None => (cyc_next(n, i), pts1),
        Some(c) => {
            let (pts2, last_c) = chain(cr, pts1.push(c.point), c, i, n as nat);
            let ni = if turn_spec(pts2.last(), pts2[pts2.len() - 2], last_c.point) < 0 {
                last_c.edge as int
            } else {
                cyc_next(n, last_c.edge as int)
            };
            (ni, pts2)
        },
    }
}

/// The boundary walk from vertex `i` after `iter` steps: stops when it is back
/// at `start` or after `n + 1` steps.
pub open spec fn walk(
    cr: Seq<Seq<Crossing>>,
    pos: Seq<Vec2>,
    start: int,
    i: int,
    pts: Seq<Vec2>,
    iter: nat,
) -> Seq<Vec2>
    decreases pos.len() + 1 - iter,
{
    if iter > pos.len() {
        pts
    } else {
        let (ni, pts1) = walk_step(cr, pos, i, pts);
        if iter + 1 > pos.len() || ni == start {
            pts1
        } else {
            walk(cr, pos, start, ni, pts1, iter + 1)
        }
    }
}

/// The outer boundary of the self-crossing contour `pos`, closed back to its
/// start vertex (the first of smallest x).
pub open spec fn outer_points(pos: Seq<Vec2>) -> Seq<Vec2> {
    let start = min_x_upto(pos, pos.len() as int);
    walk(lists_of(pos), pos, start, start, Seq::empty(), 0).push(pos[start])
}

/// The offset contour of `s` at distance `d`: the naive offset when `naive`
/// is set or when the naive offset has no crossing, else its outer boundary.
pub open spec fn offset_spec(s: Seq<Vec2>, d: int, naive: bool) -> Seq<Vec2> {
    let np = naive_positions(s, d);
    if naive || no_crossings(lists_of(np)) {
        np
    } else {
        outer_points(np)
    }
}


/// `v` limited to `[-COORD_LIMIT, COORD_LIMIT]`.
pub fn clamp_to_range(v: i128) -> (r: i64)
    ensures
        r == clamp_coord(v as int),
{
    if v < -(COORD_LIMIT as i128) {
        -COORD_LIMIT
    } else if v > COORD_LIMIT as i128 {
        COORD_LIMIT
    } else {
        v as i64
    }
}

/// `p` moved by `d` times the fixed-point vector `m`, see `offset_point`.
pub fn offset_position(p: Vec2, m: Vec2, d: i64) -> (r: Vec2)
    requires
        in_range(p),
        small(m),
        0 <= d <= COORD_LIMIT,
    ensures
        r == offset_point(p, m, d as int),
        in_range(r),
{
    assert(-0x40_0000_0000_0000_0000 <= m.x * d <= 0x40_0000_0000_0000_0000) by (nonlinear_arith)
        requires
            -0x100_0000_0000 <= m.x <= 0x100_0000_0000,
            0 <= d <= 0x4000_0000,
    ;
    assert(-0x40_0000_0000_0000_0000 <= m.y * d <= 0x40_0000_0000_0000_0000) by (nonlinear_arith)
        requires
            -0x100_0000_0000 <= m.y <= 0x100_0000_0000,
            0 <= d <= 0x4000_0000,
    ;
    let unit = UNIT as i128;
    let dx = (m.x as i128 * d as i128) / unit;
    let dy = (m.y as i128 * d as i128) / unit;
    Vec2 { x: clamp_to_range(p.x as i128 + dx), y: clamp_to_range(p.y as i128 + dy) }
}

/// Index of the first vertex of smallest x (`pts` not empty).
fn min_x_index(pts: &Vec<Vec2>) -> (r: usize)
    requires
        pts@.len() >= 1,
    ensures
        r == min_x_upto(pts@, pts@.len() as int),
        r < pts@.len(),
{
    let mut best: usize = 0;
    let mut k: usize = 1;
    while k < pts.len()
        invariant
            1 <= k <= pts@.len(),
            best == min_x_upto(pts@, k as int),
            best < k,
        decreases pts@.len() - k,
    {
        if pts[k].x < pts[best].x {
            best = k;
        }
        k = k + 1;
    }
    best
}

/// The first valid chain continuation in `list` nearest to `last`, see
/// `turn_pick`.
fn turn_pick_exec(list: &Vec<Crossing>, last: Vec2, second: Vec2, prev_line: usize) -> (r: Option<Crossing>)
    requires
        in_range(last),
        in_range(second),
        forall|i: int| 0 <= i < list@.len() ==> in_range((#[trigger] list@[i]).point),
    ensures
        r == turn_pick(list@, last, second, prev_line as int),
        r matches Some(c) ==> exists|i: int| 0 <= i < list@.len() && list@[i] == c,
{
    let mut best: Option<Crossing> = None;
    let mut best_d: i128 = 0;
    let mut i: usize = 0;
    while i < list.len()
        invariant
            in_range(last),
            in_range(second),
            forall|j: int| 0 <= j < list@.len() ==> in_range((#[trigger] list@[j]).point),
            0 <= i <= list@.len(),
            best == turn_pick_upto(list@, last, second, prev_line as int, i as int),
            best matches Some(b) ==> best_d == dist2_spec(last, b.point) && exists|j: int|
                0 <= j < i && list@[j] == b,
        decreases list@.len() - i,
    {
        let c = list[i];
        assert(in_range(list@[i as int].point));
        if is_right_turn(last, second, c.point) && c.edge != prev_line {
            let d = distance2(last, c.point);
            proof {
                assert(dist2_spec(last, c.point) == dist2_spec(c.point, last)) by (nonlinear_arith);
            }
            match best {
                None => {
                    best = Some(c);
                    best_d = d;
                },
                Some(_) => {
                    if d < best_d {
                        best = Some(c);
                        best_d = d;
                    }
                },
            }
        }
        i = i + 1;
    }
    best
}


/// The outer boundary walk over the self-crossing contour `pos`, see
/// `outer_points`.
fn outer_walk(pos: &Vec<Vec2>, lists: &Vec<Vec<Crossing>>) -> (r: Vec<Vec2>)
    requires
        1 <= pos@.len() < MAX_OFFSET_VERTICES,
        all_in_range(pos@),
        lists@.len() == pos@.len(),
        forall|e: int| 0 <= e < pos@.len() ==> (#[trigger] lists@[e])@ == edge_crossings(pos@, e),
    ensures
        r@ == outer_points(pos@),
        all_in_range(r@),
        r@.len() < isize::MAX,
{
    let ghost cr = lists_of(pos@);
    let n = pos.len();
    assert forall|e: int| 0 <= e < n implies crossings_in_range(#[trigger] cr[e], n as int) by {
        lemma_edge_crossings_in_range(pos@, e);
    }
    let start = min_x_index(pos);
    let ghost target = walk(cr, pos@, start as int, start as int, Seq::empty(), 0);
    let mut pts: Vec<Vec2> = Vec::new();
    let mut i: usize = start;
    let mut iter: usize = 0;
    loop
        invariant_except_break
            iter <= n,
            walk(cr, pos@, start as int, i as int, pts@, iter as nat) == target,
            pts@.len() <= iter * (n + 2),
        invariant
            n == pos@.len(),
            1 <= n < MAX_OFFSET_VERTICES,
            all_in_range(pos@),
            cr == lists_of(pos@),
            lists@.len() == n,
            forall|e: int| 0 <= e < n ==> (#[trigger] lists@[e])@ == cr[e],
            forall|e: int| 0 <= e < n ==> crossings_in_range(#[trigger] cr[e], n as int),
            start < n,
            i < n,
            all_in_range(pts@),
        ensures
            pts@ == target,
            all_in_range(pts@),
            pts@.len() <= (n + 1) * (n + 2),
        decreases n + 1 - iter,
    {
        let ghost pts0 = pts@;
        let ghost i0 = i as int;
        assert(in_range(pos@[i as int]));
        pts.push(pos[i]);
        let ghost pts1 = pts@;
        assert(lists@[i as int]@ == cr[i as int]);
        match nearest_crossing(&lists[i], pos[i]) {
            None => {
                i = (i + 1) % n;
            },
            Some(c) => {
                assert(crossings_in_range(cr[i0], n as int));
                assert(c.edge < n && in_range(c.point));
                pts.push(c.point);
                let ghost goal = chain(cr, pts@, c, i0, n as nat);
                let mut cur = c;
                let mut prev_line: usize = i;
                let mut fuel: usize = n;
                while fuel > 0
                    invariant
                        n == pos@.len(),
                        cr == lists_of(pos@),
                        lists@.len() == n,
                        forall|e: int| 0 <= e < n ==> (#[trigger] lists@[e])@ == cr[e],
                        forall|e: int| 0 <= e < n ==> crossings_in_range(#[trigger] cr[e], n as int),
                        cur.edge < n,
                        in_range(cur.point),
                        chain(cr, pts@, cur, prev_line as int, fuel as nat) == goal,
                        all_in_range(pts@),
                        pts@.len() >= 2,
                        fuel <= n,
                        pts@.len() == pts1.len() + 1 + (n - fuel),
                    ensures
                        goal == (pts@, cur),
                        all_in_range(pts@),
                        cur.edge < n,
                        pts@.len() >= 2,
                        pts@.len() <= pts1.len() + 1 + n,
                    decreases fuel,
                {
                    let len = pts.len();
                    assert(in_range(pts@[len - 1]) && in_range(pts@[len - 2]));
                    assert(lists@[cur.edge as int]@ == cr[cur.edge as int]);
                    assert(crossings_in_range(cr[cur.edge as int], n as int));
                    match turn_pick_exec(&lists[cur.edge], pts[len - 1], pts[len - 2], prev_line) {
                        None => {
                            break;
                        },
                        Some(c2) => {
                            assert(c2.edge < n && in_range(c2.point));
                            pts.push(c2.point);
                            prev_line = cur.edge;
                            cur = c2;
                            fuel = fuel - 1;
                        },
                    }
                }
                let len = pts.len();
                assert(in_range(pts@[len - 1]) && in_range(pts@[len - 2]));
                if is_right_turn(pts[len - 1], pts[len - 2], cur.point) {
                    i = cur.edge;
                } else {
                    i = (cur.edge + 1) % n;
                }
            },
        }
        assert((i as int, pts@) == walk_step(cr, pos@, i0, pts0));
        assert((iter + 1) * (n + 2) == iter * (n + 2) + n + 2) by (nonlinear_arith);
        assert(pts@.len() <= (iter + 1) * (n + 2));
        assert((iter + 1) * (n + 2) <= (n + 1) * (n + 2)) by (nonlinear_arith)
            requires
                iter <= n,
        ;
        iter = iter + 1;
        if iter > n {
            break;
        }
        if i == start {
            break;
        }
    }
    assert((n + 1) * (n + 2) <= 0x2000_0000) by (nonlinear_arith)
        requires
            0 <= n < 0x4000,
    ;
    assert(in_range(pos@[start as int]));
    pts.push(pos[start]);
    pts
}


fn all_empty(lists: &Vec<Vec<Crossing>>) -> (r: bool)
    ensures
        r == forall|e: int| 0 <= e < lists@.len() ==> (#[trigger] lists@[e])@.len() == 0,
{
    let mut e: usize = 0;
    while e < lists.len()
        invariant
            0 <= e <= lists@.len(),
            forall|e2: int| 0 <= e2 < e ==> (#[trigger] lists@[e2])@.len() == 0,
        decreases lists@.len() - e,
    {
        if lists[e].len() > 0 {
            return false;
        }
        e = e + 1;
    }
    true
}

impl Polygon {
    /// Every vertex moved by `d` along its miter offset vector.
    pub fn naive_offset_positions(&self, d: i64) -> (r: Vec<Vec2>)
        requires
            self.wf(),
            0 <= d <= COORD_LIMIT,
        ensures
            r@ == naive_positions(self.positions(), d as int),
            all_in_range(r@),
    {
        let n = self.points_count();
        let ghost s = self.positions();
        let mut r: Vec<Vec2> = Vec::new();
        let mut i: usize = 0;
        while i < n
            invariant
                self.wf(),
                0 <= d <= COORD_LIMIT,
                s == self.positions(),
                n == self@.len(),
                0 <= i <= n,
                r@ =~= naive_positions(s, d as int).take(i as int),
                all_in_range(r@),
            decreases n - i,
        {
            proof {
                vstd::arithmetic::div_mod::lemma_small_mod(i as nat, n as nat);
                lemma_miter_small(
                    s[cyc_prev(n as int, i as int)],
                    s[i as int],
                    s[cyc_next(n as int, i as int)],
                );
            }
            let m = self.get_offset_vec(i as isize);
            let p = self.get_point_pos(i as isize);
            let q = offset_position(p, m, d);
            r.push(q);
            i = i + 1;
        }
        assert(naive_positions(s, d as int).take(n as int) =~= naive_positions(s, d as int));
        r
    }

    /// The offset contour at distance `d`: the naive offset when `naive` is
    /// set or when the naive offset has no proper crossing; otherwise the
    /// outer boundary of the naive offset, with its inward loops cut away.
    /// The walk over that boundary gives up after `points_count() + 1`
    /// steps, and may then leave a contour that still crosses itself.
    pub fn offset(&self, d: i64, naive: bool) -> (r: Polygon)
        requires
            self.wf(),
            0 <= d <= COORD_LIMIT,
            self@.len() < MAX_OFFSET_VERTICES,
        ensures
            r.wf(),
            r.positions() == offset_spec(self.positions(), d as int, naive),
    {
        let np = self.naive_offset_positions(d);
        let lists = crossing_lists(&np);
        let ghost cr = lists_of(np@);
        let empty = all_empty(&lists);
        proof {
            assert(empty == no_crossings(cr)) by {
                if empty {
                    assert forall|e: int| 0 <= e < cr.len() implies (#[trigger] cr[e]).len() == 0 by {
                        assert(lists@[e]@ == cr[e]);
                    }
                } else {
                    let e = choose|e: int| 0 <= e < lists@.len() && (#[trigger] lists@[e])@.len() != 0;
                    assert(cr[e] == lists@[e]@);
                }
            }
        }
        if naive || empty {
            return Polygon::create(np);
        }
        let pts = outer_walk(&np, &lists);
        Polygon::create(pts)
    }
}

proof fn lemma_no_crossings_upto(s: Seq<Vec2>, e: int, k: int)
    requires
        !self_crossing(s),
        0 <= e < s.len(),
        k <= s.len(),
    ensures
        crossings_upto(s, e, k).len() == 0,
    decreases k,
{
    if k > 0 {
        lemma_no_crossings_upto(s, e, k - 1);
        let j = k - 1;
        if nonadjacent(s.len() as int, e, j) && edges_cross(s, e, j) {
            if e < j {
                assert(edges_cross(s, e, j));
            } else {
                assert(edges_cross(s, j, e));
            }
        }
    }
}

/// When the naive offset does not cross itself, the offset engine returns
/// the naive offset.
pub proof fn lemma_offset_is_naive_without_crossings(s: Seq<Vec2>, d: int, naive: bool)
    requires
        !self_crossing(naive_positions(s, d)),
    ensures
        offset_spec(s, d, naive) == naive_positions(s, d),
{
    let np = naive_positions(s, d);
    assert forall|e: int| 0 <= e < lists_of(np).len() implies (#[trigger] lists_of(np)[e]).len() == 0 by {
        lemma_no_crossings_upto(np, e, np.len() as int);
    }
}

} // verus!
