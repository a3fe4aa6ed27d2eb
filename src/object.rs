//! An edited polygon: its selection, hover and insertion state, and the
//! offset contour kept up to date with it.
use vstd::prelude::*;
use crate::geometry::{Vec2, COORD_LIMIT, in_range, all_in_range, dist2_spec, div_trunc, diff, distance2, dot_prod, cross2};
use crate::polygon::{Polygon, EdgeConstraint, PolygonError, RawPolygonCoords, raw_of, cyc_prev, cyc_next, snapped};
use crate::crossing::self_crossing;
use crate::offset::{MAX_OFFSET_VERTICES, offset_spec, clamp_coord, clamp_to_range};

verus! {

/// Distance within which the mouse hovers a vertex.
pub const POINT_DETECTION_RADIUS: i64 = 10;

/// Distance within which the mouse hovers an edge.
pub const LINE_DETECTION_DISTANCE: i64 = 10;

/// Offset distance of a newly created object.
pub const DEFAULT_OFFSET: i64 = 50;

/// The mouse at `m` hovers vertex `k` of `s`.
pub open spec fn point_hit(s: Seq<Vec2>, m: Vec2, k: int) -> bool {
    dist2_spec(s[k], m) <= POINT_DETECTION_RADIUS * POINT_DETECTION_RADIUS
}

/// Dot product of edge `k` and the vector from its start to `m`.
pub open spec fn edge_dot(s: Seq<Vec2>, m: Vec2, k: int) -> int {
    let a = s[k];
    let b = s[cyc_next(s.len() as int, k)];
    (b.x - a.x) * (m.x - a.x) + (b.y - a.y) * (m.y - a.y)
}

/// Cross product of edge `k` and the vector from its start to `m`.
pub open spec fn edge_cross(s: Seq<Vec2>, m: Vec2, k: int) -> int {
    let a = s[k];
    let b = s[cyc_next(s.len() as int, k)];
    (b.x - a.x) * (m.y - a.y) - (b.y - a.y) * (m.x - a.x)
}

/// Squared length of edge `k`.
pub open spec fn edge_len2(s: Seq<Vec2>, k: int) -> int {
    dist2_spec(s[k], s[cyc_next(s.len() as int, k)])
}

/// The projection of `m` onto edge `k` falls within the edge and `m` lies
/// closer than `LINE_DETECTION_DISTANCE` to it.
pub open spec fn line_hit(s: Seq<Vec2>, m: Vec2, k: int) -> bool {
    let dot = edge_dot(s, m, k);
    let l2 = edge_len2(s, k);
    let c = edge_cross(s, m, k);
    0 <= dot && dot <= l2 && c * c < LINE_DETECTION_DISTANCE * LINE_DETECTION_DISTANCE * l2
}

/// The mouse at `m` may insert a vertex on edge `k`: it hovers the edge but
/// neither of its endpoints.
pub open spec fn insert_hit(s: Seq<Vec2>, m: Vec2, k: int) -> bool {
    !point_hit(s, m, k) && !point_hit(s, m, cyc_next(s.len() as int, k)) && line_hit(s, m, k)
}

/// The projection of `m` onto edge `k`, rounded toward the edge's start.
pub open spec fn projection(s: Seq<Vec2>, m: Vec2, k: int) -> Vec2 {
    let a = s[k];
    let b = s[cyc_next(s.len() as int, k)];
    let dot = edge_dot(s, m, k);
    let l2 = edge_len2(s, k);
    Vec2 {
        x: (a.x + div_trunc((b.x - a.x) * dot, l2)) as i64,
        y: (a.y + div_trunc((b.y - a.y) * dot, l2)) as i64,
    }
}

/// The displacement that a move by `v` gives to a vertex pulled along an
/// edge constrained by `c`: the x part for `Vertical`, the y part for
/// `Horizontal`.
pub open spec fn pull(c: EdgeConstraint, v: Vec2) -> (int, int) {
    match c {
        EdgeConstraint::Vertical => (v.x as int, 0),
        EdgeConstraint::Horizontal => (0, v.y as int),
        EdgeConstraint::Unconstrained => (0, 0),
    }
}

/// The displacement of vertex `k` when the selected vertices move by `v`:
/// a selected vertex moves by `v`; an unselected one follows each selected
/// neighbour along the axis of the constrained edge between them.
pub open spec fn move_delta(sel: Seq<bool>, cons: Seq<EdgeConstraint>, k: int, v: Vec2) -> (int, int) {
    let n = sel.len() as int;
    if sel[k] {
        (v.x as int, v.y as int)
    } else {
        let a = if sel[cyc_next(n, k)] {
            pull(cons[k], v)
        } else {
            (0, 0)
        };
        let b = if sel[cyc_prev(n, k)] {
            pull(cons[cyc_prev(n, k)], v)
        } else {
            (0, 0)
        };
        (a.0 + b.0, a.1 + b.1)
    }
}

/// The positions after moving the selected vertices by `v`, each coordinate
/// kept within range.
pub open spec fn moved(s: Seq<Vec2>, sel: Seq<bool>, cons: Seq<EdgeConstraint>, v: Vec2) -> Seq<Vec2> {
    Seq::new(
        s.len(),
        |k: int|
            Vec2 {
                x: clamp_coord(s[k].x + move_delta(sel, cons, k, v).0) as i64,
                y: clamp_coord(s[k].y + move_delta(sel, cons, k, v).1) as i64,
            },
    )
}

/// Number of `true` entries among the first `k`.
pub open spec fn count_true(s: Seq<bool>, k: int) -> nat
    decreases k,
{
    if k <= 0 {
        0
    } else {
        count_true(s, k - 1) + if s[k - 1] {
            1nat
        } else {
            0nat
        }
    }
}

fn point_hit_at(pts: &Vec<Vec2>, m: Vec2, k: usize) -> (r: bool)
    requires
        all_in_range(pts@),
        in_range(m),
        k < pts@.len(),
    ensures
        r == point_hit(pts@, m, k as int),
{
    assert(in_range(pts@[k as int]));
    let d = distance2(pts[k], m);
    d <= (POINT_DETECTION_RADIUS * POINT_DETECTION_RADIUS) as i128
}

/// Dot product, cross product and squared length for edge `k` and `m`.
fn edge_measures(pts: &Vec<Vec2>, m: Vec2, k: usize) -> (r: (i128, i128, i128))
    requires
        all_in_range(pts@),
        in_range(m),
        k < pts@.len(),
    ensures
        r.0 == edge_dot(pts@, m, k as int),
        r.1 == edge_cross(pts@, m, k as int),
        r.2 == edge_len2(pts@, k as int),
        -0x8000_0000_0000_0000 <= r.1 <= 0x8000_0000_0000_0000,
        0 <= r.2 <= 0x8000_0000_0000_0000,
{
    let n = pts.len();
    let kn = (k + 1) % n;
    assert(in_range(pts@[k as int]) && in_range(pts@[kn as int]));
    let a = pts[k];
    let b = pts[kn];
    let v01 = diff(a, b);
    let v0m = diff(a, m);
    let dot = dot_prod(v01, v0m);
    let c = cross2(v01, v0m);
    let l2 = distance2(a, b);
    assert(-0x8000_0000_0000_0000 <= c <= 0x8000_0000_0000_0000) by (nonlinear_arith)
        requires
            c == v01.x * v0m.y - v01.y * v0m.x,
            -0x8000_0000 <= v01.x <= 0x8000_0000,
            -0x8000_0000 <= v01.y <= 0x8000_0000,
            -0x8000_0000 <= v0m.x <= 0x8000_0000,
            -0x8000_0000 <= v0m.y <= 0x8000_0000,
    ;
    assert(0 <= l2 <= 0x8000_0000_0000_0000) by (nonlinear_arith)
        requires
            l2 == (a.x - b.x) * (a.x - b.x) + (a.y - b.y) * (a.y - b.y),
            -0x4000_0000 <= a.x <= 0x4000_0000,
            -0x4000_0000 <= a.y <= 0x4000_0000,
            -0x4000_0000 <= b.x <= 0x4000_0000,
            -0x4000_0000 <= b.y <= 0x4000_0000,
    ;
    (dot, c, l2)
}

fn line_hit_at(pts: &Vec<Vec2>, m: Vec2, k: usize) -> (r: bool)
    requires
        all_in_range(pts@),
        in_range(m),
        k < pts@.len(),
    ensures
        r == line_hit(pts@, m, k as int),
{
    let (dot, c, l2) = edge_measures(pts, m, k);
    assert(0 <= c * c <= 0x4000_0000_0000_0000_0000_0000_0000_0000) by (nonlinear_arith)
        requires
            -0x8000_0000_0000_0000 <= c <= 0x8000_0000_0000_0000,
    ;
    let lim = (LINE_DETECTION_DISTANCE * LINE_DETECTION_DISTANCE) as i128;
    0 <= dot && dot <= l2 && c * c < lim * l2
}

proof fn lemma_fraction_between(a: int, dv: int, t: int, l: int)
    requires
        0 <= t <= l,
        l > 0,
        -COORD_LIMIT <= a <= COORD_LIMIT,
        -COORD_LIMIT <= a + dv <= COORD_LIMIT,
    ensures
        -COORD_LIMIT <= a + div_trunc(dv * t, l) <= COORD_LIMIT,
{
    if t == 0 {
        assert(dv * t == 0) by (nonlinear_arith)
            requires
                t == 0,
        ;
    } else if t == l {
        assert((dv * t) / l == dv) by (nonlinear_arith)
            requires
                t == l,
                l > 0,
        ;
        assert((-(dv * t)) / l == -dv) by (nonlinear_arith)
            requires
                t == l,
                l > 0,
        ;
    } else {
        crate::crossing::lemma_between(a, dv, t, l - t);
    }
}

/// The projection of `m` onto edge `k`, see `projection`.
fn projection_at(pts: &Vec<Vec2>, m: Vec2, k: usize) -> (r: Vec2)
    requires
        all_in_range(pts@),
        in_range(m),
        k < pts@.len(),
        line_hit(pts@, m, k as int),
    ensures
        r == projection(pts@, m, k as int),
        in_range(r),
{
    let n = pts.len();
    let kn = (k + 1) % n;
    assert(in_range(pts@[k as int]) && in_range(pts@[kn as int]));
    let (dot, _c, l2) = edge_measures(pts, m, k);
    let a = pts[k];
    let b = pts[kn];
    assert(_c * _c >= 0) by (nonlinear_arith);
    let dx = b.x as i128 - a.x as i128;
    let dy = b.y as i128 - a.y as i128;
    assert(-0x8000_0000_0000_0000_0000_0000 <= dx * dot <= 0x8000_0000_0000_0000_0000_0000) by (nonlinear_arith)
        requires
            -0x8000_0000 <= dx <= 0x8000_0000,
            0 <= dot <= 0x8000_0000_0000_0000,
    ;
    assert(-0x8000_0000_0000_0000_0000_0000 <= dy * dot <= 0x8000_0000_0000_0000_0000_0000) by (nonlinear_arith)
        requires
            -0x8000_0000 <= dy <= 0x8000_0000,
            0 <= dot <= 0x8000_0000_0000_0000,
    ;
    proof {
        lemma_fraction_between(a.x as int, dx as int, dot as int, l2 as int);
        lemma_fraction_between(a.y as int, dy as int, dot as int, l2 as int);
    }
    let x = a.x as i128 + (dx * dot) / l2;
    let y = a.y as i128 + (dy * dot) / l2;
    Vec2 { x: x as i64, y: y as i64 }
}

fn pull_exec(c: EdgeConstraint, v: Vec2) -> (r: (i128, i128))
    ensures
        r.0 == pull(c, v).0,
        r.1 == pull(c, v).1,
{
    match c {
        EdgeConstraint::Vertical => (v.x as i128, 0),
        EdgeConstraint::Horizontal => (0, v.y as i128),
        EdgeConstraint::Unconstrained => (0, 0),
    }
}

proof fn lemma_count_none(s: Seq<bool>, k: int)
    requires
        0 <= k <= s.len(),
        forall|j: int| 0 <= j < k ==> !#[trigger] s[j],
    ensures
        count_true(s, k) == 0,
    decreases k,
{
    if k > 0 {
        lemma_count_none(s, k - 1);
    }
}

proof fn lemma_count_ge(s: Seq<bool>, k: int, a: int, b: int)
    requires
        0 <= a < b < k <= s.len(),
        s[a],
        s[b],
    ensures
        count_true(s, k) >= 2,
    decreases k,
{
    if b < k - 1 {
        lemma_count_ge(s, k - 1, a, b);
    } else {
        lemma_count_ge1(s, k - 1, a);
    }
}

proof fn lemma_count_ge1(s: Seq<bool>, k: int, a: int)
    requires
        0 <= a < k <= s.len(),
        s[a],
    ensures
        count_true(s, k) >= 1,
    decreases k,
{
    if a < k - 1 {
        lemma_count_ge1(s, k - 1, a);
    }
}

proof fn lemma_count_ge3(s: Seq<bool>, k: int, a: int, b: int, c: int)
    requires
        0 <= a < b < c < k <= s.len(),
        s[a],
        s[b],
        s[c],
    ensures
        count_true(s, k) >= 3,
    decreases k,
{
    if c < k - 1 {
        lemma_count_ge3(s, k - 1, a, b, c);
    } else {
        lemma_count_ge(s, k - 1, a, b);
    }
}

/// With exactly two selected vertices, the first of which is `i` and has
/// no selected neighbour, no edge has both vertices selected.
proof fn lemma_two_selected_not_adjacent(s: Seq<bool>, i: int)
    requires
        s.len() >= 3,
        0 <= i < s.len(),
        s[i],
        count_true(s, s.len() as int) == 2,
        forall|j: int| 0 <= j < i ==> !#[trigger] s[j],
        !s[cyc_next(s.len() as int, i)],
        !s[cyc_prev(s.len() as int, i)],
    ensures
        !exists|e: int| 0 <= e < s.len() && #[trigger] s[e] && s[cyc_next(s.len() as int, e)],
{
    let n = s.len() as int;
    if exists|e: int| 0 <= e < n && #[trigger] s[e] && s[cyc_next(n, e)] {
        let e = choose|e: int| 0 <= e < n && #[trigger] s[e] && s[cyc_next(n, e)];
        let f = cyc_next(n, e);
        if e + 1 < n {
            vstd::arithmetic::div_mod::lemma_small_mod((e + 1) as nat, n as nat);
        } else {
            vstd::arithmetic::div_mod::lemma_mod_self_0(n);
        }
        if i + 1 < n {
            vstd::arithmetic::div_mod::lemma_small_mod((i + 1) as nat, n as nat);
        } else {
            vstd::arithmetic::div_mod::lemma_mod_self_0(n);
        }
        if i > 0 {
            vstd::arithmetic::div_mod::lemma_small_mod((i - 1) as nat, n as nat);
            assert(cyc_prev(n, i) == i - 1) by {
                vstd::arithmetic::div_mod::lemma_mod_add_multiples_vanish(i - 1, n);
            }
        } else {
            vstd::arithmetic::div_mod::lemma_small_mod((n - 1) as nat, n as nat);
        }
        // e and f are two selected vertices besides i, or one of them is i
        assert(e != i && f != i);
        if e < f {
            if i < e {
                lemma_count_ge3(s, n, i, e, f);
            } else {
                lemma_count_ge3(s, n, e, f, i);
            }
        } else {
            // e == n - 1 and f == 0, so i == 0 would contradict f != i
            lemma_count_ge3(s, n, f, i, e);
        }
    }
}

/// A polygon being edited, with its hover, insertion and offset state.
pub struct PolygonObject {
    polygon: Polygon,
    hover_show_disabled: bool,
    show_offset: bool,
    naive_offset: bool,
    offset_size: i64,
    offset_polygon: Polygon,
    is_point_hovered: bool,
    hovered_point_id: usize,
    is_line_hovered: bool,
    hovered_line_id: usize,
    can_insert: bool,
    insert_pos: Vec2,
}

impl PolygonObject {
    pub closed spec fn poly(&self) -> Polygon {
        self.polygon
    }

    pub closed spec fn offset_poly(&self) -> Polygon {
        self.offset_polygon
    }

    pub closed spec fn shows_offset(&self) -> bool {
        self.show_offset
    }

    pub closed spec fn naive(&self) -> bool {
        self.naive_offset
    }

    pub closed spec fn offset_distance(&self) -> int {
        self.offset_size as int
    }

    pub closed spec fn hover_disabled(&self) -> bool {
        self.hover_show_disabled
    }

    pub closed spec fn point_hovered(&self) -> Option<int> {
        if self.is_point_hovered {
            Some(self.hovered_point_id as int)
        } else {
            None
        }
    }

    pub closed spec fn line_hovered(&self) -> Option<int> {
        if self.is_line_hovered {
            Some(self.hovered_line_id as int)
        } else {
            None
        }
    }

    pub closed spec fn insertion(&self) -> Option<Vec2> {
        if self.can_insert {
            Some(self.insert_pos)
        } else {
            None
        }
    }

    pub open spec fn wf(&self) -> bool {
        &&& self.poly().wf()
        &&& 3 <= self.poly()@.len() < MAX_OFFSET_VERTICES
        &&& self.offset_poly().wf()
        &&& self.state_wf()
    }

    /// The hover, insertion and offset settings are within bounds.
    pub closed spec fn state_wf(&self) -> bool {
        &&& 0 <= self.offset_size <= COORD_LIMIT
        &&& self.hovered_point_id < self.polygon@.len()
        &&& self.hovered_line_id < self.polygon@.len()
        &&& in_range(self.insert_pos)
    }

    /// The offset contour agrees with the polygon when it is shown and the
    /// polygon does not cross itself; otherwise it is `prev`.
    pub open spec fn offset_refreshed(&self, prev: Seq<Vec2>) -> bool {
        if self.shows_offset() && !self_crossing(self.poly().positions()) {
            self.offset_poly().positions() == offset_spec(
                self.poly().positions(),
                self.offset_distance(),
                self.naive(),
            )
        } else {
            self.offset_poly().positions() == prev
        }
    }

    /// Wraps a proper polygon; the offset is hidden, at the default distance.
    pub fn from(raw: Polygon) -> (r: PolygonObject)
        requires
            raw.wf(),
            3 <= raw@.len() < MAX_OFFSET_VERTICES,
        ensures
            r.wf(),
            r.poly()@ == raw@,
            r.poly().name_view() == raw.name_view(),
            !r.shows_offset(),
            !r.naive(),
            r.offset_distance() == DEFAULT_OFFSET,
            r.offset_poly()@.len() == 0,
            !r.hover_disabled(),
            r.point_hovered() is None,
            r.line_hovered() is None,
            r.insertion() is None,
    {
        PolygonObject {
            polygon: raw,
            hover_show_disabled: false,
            show_offset: false,
            naive_offset: false,
            offset_size: DEFAULT_OFFSET,
            offset_polygon: Polygon::new(),
            is_point_hovered: false,
            hovered_point_id: 0,
            is_line_hovered: false,
            hovered_line_id: 0,
            can_insert: false,
            insert_pos: Vec2 { x: 0, y: 0 },
        }
    }

    pub fn polygon(&self) -> (r: &Polygon)
        ensures
            *r == self.poly(),
    {
        &self.polygon
    }

    /// The current offset contour.
    pub fn offset_polygon(&self) -> (r: &Polygon)
        ensures
            *r == self.offset_poly(),
    {
        &self.offset_polygon
    }

    pub fn get_raw(&self) -> (r: RawPolygonCoords)
        requires
            self.wf(),
        ensures
            r.coords@ == raw_of(self.poly().positions()),
    {
        self.polygon.get_raw()
    }

    pub fn can_insert(&self) -> (r: bool)
        ensures
            r == self.insertion() is Some,
    {
        self.can_insert
    }

    pub fn get_insert_pos(&self) -> (r: Vec2)
        requires
            self.wf(),
        ensures
            self.insertion() matches Some(p) ==> r == p,
            in_range(r),
    {
        self.insert_pos
    }

    pub fn is_hover_show_disabled(&self) -> (r: bool)
        ensures
            r == self.hover_disabled(),
    {
        self.hover_show_disabled
    }

    pub fn disable_hover_show(&mut self)
        requires
            old(self).wf(),
        ensures
            final(self).wf(),
            final(self).hover_disabled(),
            final(self).poly() == old(self).poly(),
            final(self).offset_poly() == old(self).offset_poly(),
            final(self).point_hovered() == old(self).point_hovered(),
            final(self).line_hovered() == old(self).line_hovered(),
    {
        self.hover_show_disabled = true;
    }

    pub fn enable_hover_show(&mut self)
        requires
            old(self).wf(),
        ensures
            final(self).wf(),
            !final(self).hover_disabled(),
            final(self).poly() == old(self).poly(),
            final(self).offset_poly() == old(self).offset_poly(),
            final(self).point_hovered() == old(self).point_hovered(),
            final(self).line_hovered() == old(self).line_hovered(),
    {
        self.hover_show_disabled = false;
    }

    pub fn is_point_hovered(&self) -> (r: bool)
        ensures
            r == self.point_hovered() is Some,
    {
        self.is_point_hovered
    }

    pub fn is_line_hovered(&self) -> (r: bool)
        ensures
            r == self.line_hovered() is Some,
    {
        self.is_line_hovered
    }

    pub fn get_hovered_point_id(&self) -> (r: usize)
        requires
            self.wf(),
        ensures
            self.point_hovered() matches Some(k) ==> r == k,
            r < self.poly()@.len(),
    {
        self.hovered_point_id
    }

    /// The two vertices of the hovered edge.
    pub fn get_hovered_line_ids(&self) -> (r: (usize, usize))
        requires
            self.wf(),
        ensures
            self.line_hovered() matches Some(k) ==> r.0 == k && r.1 == cyc_next(
                self.poly()@.len() as int,
                k,
            ),
            r.0 < self.poly()@.len(),
            r.1 < self.poly()@.len(),
    {
        let n = self.polygon.points_count();
        (self.hovered_line_id, (self.hovered_line_id + 1) % n)
    }

    /// Recomputes the offset contour when it is shown and the polygon does
    /// not cross itself; otherwise keeps the previous contour.
    pub fn update_offset(&mut self)
        requires
            old(self).wf(),
        ensures
            final(self).wf(),
            final(self).poly() == old(self).poly(),
            final(self).shows_offset() == old(self).shows_offset(),
            final(self).naive() == old(self).naive(),
            final(self).offset_distance() == old(self).offset_distance(),
            final(self).hover_disabled() == old(self).hover_disabled(),
            final(self).point_hovered() == old(self).point_hovered(),
            final(self).line_hovered() == old(self).line_hovered(),
            final(self).insertion() == old(self).insertion(),
            final(self).offset_refreshed(old(self).offset_poly().positions()),
    {
        if !self.show_offset || self.polygon.is_self_crossing() {
            return;
        }
        self.offset_polygon = self.polygon.offset(self.offset_size, self.naive_offset);
    }

    /// Sets whether the offset is shown, its distance and whether it is
    /// naive; the contour is recomputed when any of them changed.
    pub fn set_offset_options(&mut self, show_offset: bool, offset_size: i64, naive: bool)
        requires
            old(self).wf(),
            0 <= offset_size <= COORD_LIMIT,
        ensures
            final(self).wf(),
            final(self).poly() == old(self).poly(),
            final(self).shows_offset() == show_offset,
            final(self).naive() == naive,
            final(self).offset_distance() == offset_size,
            show_offset == old(self).shows_offset() && naive == old(self).naive() && offset_size
                == old(self).offset_distance() ==> final(self).offset_poly() == old(self).offset_poly(),
            !(show_offset == old(self).shows_offset() && naive == old(self).naive() && offset_size
                == old(self).offset_distance()) ==> final(self).offset_refreshed(
                old(self).offset_poly().positions(),
            ),
    {
        if show_offset != self.show_offset || offset_size != self.offset_size || naive
            != self.naive_offset {
            self.offset_size = offset_size;
            self.naive_offset = naive;
            self.show_offset = show_offset;
            self.update_offset();
        }
    }

    /// Selects vertex `id` (cyclic).
    pub fn select_point(&mut self, id: isize)
        requires
            old(self).wf(),
        ensures
            final(self).wf(),
            final(self).poly().positions() == old(self).poly().positions(),
            final(self).poly().constraints() == old(self).poly().constraints(),
            final(self).poly().selection() == old(self).poly().selection().update(
                old(self).poly().wrap(id as int),
                true,
            ),
            final(self).offset_poly() == old(self).offset_poly(),
    {
        self.polygon.select_point(id);
    }

    /// Deselects vertex `id` (cyclic).
    pub fn deselect_point(&mut self, id: isize)
        requires
            old(self).wf(),
        ensures
            final(self).wf(),
            final(self).poly().positions() == old(self).poly().positions(),
            final(self).poly().constraints() == old(self).poly().constraints(),
            final(self).poly().selection() == old(self).poly().selection().update(
                old(self).poly().wrap(id as int),
                false,
            ),
            final(self).offset_poly() == old(self).offset_poly(),
    {
        self.polygon.deselect_point(id);
    }

    fn set_all_selected(&mut self, flag: bool)
        requires
            old(self).wf(),
        ensures
            final(self).wf(),
            final(self).poly().positions() == old(self).poly().positions(),
            final(self).poly().constraints() == old(self).poly().constraints(),
            final(self).poly().selection() == Seq::new(old(self).poly()@.len(), |i: int| flag),
            final(self).offset_poly() == old(self).offset_poly(),
    {
        let n = self.polygon.points_count();
        let mut i: usize = 0;
        while i < n
            invariant
                self.wf(),
                n == self.polygon@.len(),
                n == old(self).polygon@.len(),
                0 <= i <= n,
                self.polygon.positions() == old(self).polygon.positions(),
                self.polygon.constraints() == old(self).polygon.constraints(),
                self.offset_polygon == old(self).offset_polygon,
                forall|j: int| 0 <= j < i ==> #[trigger] self.polygon.selection()[j] == flag,
            decreases n - i,
        {
            proof {
                vstd::arithmetic::div_mod::lemma_small_mod(i as nat, n as nat);
            }
            if flag {
                self.polygon.select_point(i as isize);
            } else {
                self.polygon.deselect_point(i as isize);
            }
            i = i + 1;
        }
        assert(self.polygon.selection() =~= Seq::new(n as nat, |i: int| flag));
    }

    /// Deselects every vertex.
    pub fn deselect_all_points(&mut self)
        requires
            old(self).wf(),
        ensures
            final(self).wf(),
            final(self).poly().positions() == old(self).poly().positions(),
            final(self).poly().constraints() == old(self).poly().constraints(),
            final(self).poly().selection() == Seq::new(old(self).poly()@.len(), |i: int| false),
            final(self).offset_poly() == old(self).offset_poly(),
    {
        self.set_all_selected(false);
    }

    /// Selects every vertex.
    pub fn select_all_points(&mut self)
        requires
            old(self).wf(),
        ensures
            final(self).wf(),
            final(self).poly().positions() == old(self).poly().positions(),
            final(self).poly().constraints() == old(self).poly().constraints(),
            final(self).poly().selection() == Seq::new(old(self).poly()@.len(), |i: int| true),
            final(self).offset_poly() == old(self).offset_poly(),
    {
        self.set_all_selected(true);
    }

    pub fn is_point_selected(&self, id: isize) -> (r: bool)
        requires
            self.wf(),
        ensures
            r == self.poly().selection()[self.poly().wrap(id as int)],
    {
        self.polygon.is_point_selected(id)
    }

    /// Whether both vertices of edge `first_id` (cyclic) are selected.
    pub fn is_line_selected(&self, first_id: isize) -> (r: bool)
        requires
            self.wf(),
        ensures
            ({
                let n = self.poly()@.len() as int;
                let i = self.poly().wrap(first_id as int);
                r == (self.poly().selection()[i] && self.poly().selection()[cyc_next(n, i)])
            }),
    {
        let n = self.polygon.points_count();
        let i = self.polygon.fix_index(first_id);
        let j = (i + 1) % n;
        proof {
            vstd::arithmetic::div_mod::lemma_small_mod(i as nat, n as nat);
            vstd::arithmetic::div_mod::lemma_small_mod(j as nat, n as nat);
        }
        self.polygon.is_point_selected(i as isize) && self.polygon.is_point_selected(j as isize)
    }

    /// Number of selected vertices.
    pub fn selected_points_count(&self) -> (r: usize)
        requires
            self.wf(),
        ensures
            r == count_true(self.poly().selection(), self.poly()@.len() as int),
    {
        let n = self.polygon.points_count();
        let mut count: usize = 0;
        let mut i: usize = 0;
        while i < n
            invariant
                self.wf(),
                n == self.polygon@.len(),
                0 <= i <= n,
                count == count_true(self.polygon.selection(), i as int),
                count <= i,
            decreases n - i,
        {
            proof {
                vstd::arithmetic::div_mod::lemma_small_mod(i as nat, n as nat);
            }
            if self.polygon.is_point_selected(i as isize) {
                count = count + 1;
            }
            i = i + 1;
        }
        count
    }

    /// Finds the hovered vertex (the first within `POINT_DETECTION_RADIUS` of
    /// `mouse_pos`); when there is none, the hovered edge (the first that
    /// `line_hit` accepts).
    pub fn update_hover(&mut self, mouse_pos: Vec2)
        requires
            old(self).wf(),
            in_range(mouse_pos),
        ensures
            final(self).wf(),
            final(self).poly() == old(self).poly(),
            final(self).offset_poly() == old(self).offset_poly(),
            final(self).insertion() == old(self).insertion(),
            final(self).hover_disabled() == old(self).hover_disabled(),
            ({
                let s = old(self).poly().positions();
                &&& final(self).point_hovered() matches Some(k) ==> 0 <= k < s.len() && point_hit(
                    s,
                    mouse_pos,
                    k,
                ) && forall|j: int| 0 <= j < k ==> !#[trigger] point_hit(s, mouse_pos, j)
                &&& final(self).point_hovered() is None ==> forall|j: int|
                    0 <= j < s.len() ==> !#[trigger] point_hit(s, mouse_pos, j)
                &&& final(self).point_hovered() is Some ==> final(self).line_hovered() is None
                &&& final(self).line_hovered() matches Some(k) ==> 0 <= k < s.len() && line_hit(
                    s,
                    mouse_pos,
                    k,
                ) && forall|j: int| 0 <= j < k ==> !#[trigger] line_hit(s, mouse_pos, j)
                &&& final(self).point_hovered() is None && final(self).line_hovered() is None
                    ==> forall|j: int| 0 <= j < s.len() ==> !#[trigger] line_hit(s, mouse_pos, j)
            }),
    {
        let pts = self.polygon.point_positions();
        let n = pts.len();
        let mut k: usize = 0;
        while k < n
            invariant
                self.wf(),
                self.polygon == old(self).polygon,
                self.offset_polygon == old(self).offset_polygon,
                self.can_insert == old(self).can_insert,
                self.insert_pos == old(self).insert_pos,
                self.hover_show_disabled == old(self).hover_show_disabled,
                self.show_offset == old(self).show_offset,
                self.naive_offset == old(self).naive_offset,
                self.offset_size == old(self).offset_size,
                pts@ == self.polygon.positions(),
                *self == *old(self),
                n == pts@.len(),
                all_in_range(pts@),
                in_range(mouse_pos),
                0 <= k <= n,
                forall|j: int| 0 <= j < k ==> !#[trigger] point_hit(pts@, mouse_pos, j),
            decreases n - k,
        {
            if point_hit_at(&pts, mouse_pos, k) {
                self.is_point_hovered = true;
                self.hovered_point_id = k;
                self.is_line_hovered = false;
                return;
            }
            k = k + 1;
        }
        self.is_point_hovered = false;
        let mut k: usize = 0;
        while k < n
            invariant
                self.wf(),
                self.polygon == old(self).polygon,
                self.offset_polygon == old(self).offset_polygon,
                self.can_insert == old(self).can_insert,
                self.insert_pos == old(self).insert_pos,
                self.hover_show_disabled == old(self).hover_show_disabled,
                self.show_offset == old(self).show_offset,
                self.naive_offset == old(self).naive_offset,
                self.offset_size == old(self).offset_size,
                pts@ == self.polygon.positions(),
                !self.is_point_hovered,
                forall|j: int| 0 <= j < n ==> !#[trigger] point_hit(pts@, mouse_pos, j),
                n == pts@.len(),
                all_in_range(pts@),
                in_range(mouse_pos),
                0 <= k <= n,
                forall|j: int| 0 <= j < k ==> !#[trigger] line_hit(pts@, mouse_pos, j),
            decreases n - k,
        {
            if line_hit_at(&pts, mouse_pos, k) {
                self.is_line_hovered = true;
                self.hovered_line_id = k;
                return;
            }
            k = k + 1;
        }
        self.is_line_hovered = false;
    }

    /// Finds the first edge on which a vertex could be inserted at
    /// `pos` (see `insert_hit`) and records the projection of `pos` onto it.
    pub fn update_insertion(&mut self, pos: Vec2)
        requires
            old(self).wf(),
            in_range(pos),
        ensures
            final(self).wf(),
            final(self).poly() == old(self).poly(),
            final(self).offset_poly() == old(self).offset_poly(),
            final(self).point_hovered() == old(self).point_hovered(),
            final(self).line_hovered() == old(self).line_hovered(),
            ({
                let s = old(self).poly().positions();
                &&& final(self).insertion() is None ==> forall|j: int|
                    0 <= j < s.len() ==> !#[trigger] insert_hit(s, pos, j)
                &&& final(self).insertion() is Some ==> exists|k: int|
                    #![trigger insert_hit(s, pos, k)]
                    0 <= k < s.len() && insert_hit(s, pos, k) && final(self).insertion() == Some(
                        projection(s, pos, k),
                    ) && forall|j: int| 0 <= j < k ==> !#[trigger] insert_hit(s, pos, j)
            }),
    {
        let pts = self.polygon.point_positions();
        let n = pts.len();
        let mut k: usize = 0;
        while k < n
            invariant
                self.wf(),
                self.polygon == old(self).polygon,
                self.offset_polygon == old(self).offset_polygon,
                *self == *old(self),
                self.hover_show_disabled == old(self).hover_show_disabled,
                self.show_offset == old(self).show_offset,
                self.naive_offset == old(self).naive_offset,
                self.offset_size == old(self).offset_size,
                pts@ == self.polygon.positions(),
                n == pts@.len(),
                n >= 3,
                all_in_range(pts@),
                in_range(pos),
                0 <= k <= n,
                forall|j: int| 0 <= j < k ==> !#[trigger] insert_hit(pts@, pos, j),
            decreases n - k,
        {
            let kn = (k + 1) % n;
            if !point_hit_at(&pts, pos, k) && !point_hit_at(&pts, pos, kn) && line_hit_at(&pts, pos, k) {
                self.insert_pos = projection_at(&pts, pos, k);
                self.can_insert = true;
                assert(insert_hit(pts@, pos, k as int));
                assert(pts@ == old(self).poly().positions());
                assert(self.insertion() == Some(projection(pts@, pos, k as int)));
                assert(0 <= k < pts@.len() && insert_hit(pts@, pos, k as int) && self.insertion()
                    == Some(projection(pts@, pos, k as int)) && forall|j: int|
                    0 <= j < k ==> !#[trigger] insert_hit(pts@, pos, j));
                return;
            }
            k = k + 1;
        }
        self.can_insert = false;
    }

    /// Inserts a vertex at `pos` before vertex `id` (cyclic), after clearing
    /// the constraint of the edge that the new vertex splits; refreshes the
    /// offset and clears the hover and insertion state.
    pub fn insert_point(&mut self, id: isize, pos: Vec2)
        requires
            old(self).wf(),
            old(self).poly()@.len() + 1 < MAX_OFFSET_VERTICES,
            in_range(pos),
        ensures
            final(self).wf(),
            ({
                let n = old(self).poly()@.len() as int;
                let i = old(self).poly().wrap(id as int);
                &&& final(self).poly().positions() == old(self).poly().positions().insert(i, pos)
                &&& final(self).poly().constraints() == old(self).poly().constraints().update(
                    cyc_prev(n, i),
                    EdgeConstraint::Unconstrained,
                ).insert(i, EdgeConstraint::Unconstrained)
                &&& final(self).poly().selection() == old(self).poly().selection().insert(i, false)
            }),
            final(self).offset_refreshed(old(self).offset_poly().positions()),
            final(self).insertion() is None,
            final(self).point_hovered() is None,
            final(self).line_hovered() is None,
    {
        let n = self.polygon.points_count();
        let i = self.polygon.fix_index(id);
        let prev = (i + n - 1) % n;
        proof {
            vstd::arithmetic::div_mod::lemma_small_mod(prev as nat, n as nat);
        }
        self.polygon.set_edge_contsraint(prev as isize, EdgeConstraint::Unconstrained);
        assert(self.polygon.positions() =~= old(self).polygon.positions());
        assert(self.polygon.selection() =~= old(self).polygon.selection());
        self.polygon.insert_point_with_pos(id, pos);
        assert(self.polygon@.len() == self.polygon.positions().len());
        self.clear_hover();
        self.update_offset();
    }

    fn clear_hover(&mut self)
        requires
            old(self).polygon.wf(),
            3 <= old(self).polygon@.len() < MAX_OFFSET_VERTICES,
            old(self).offset_polygon.wf(),
            0 <= old(self).offset_size <= COORD_LIMIT,
        ensures
            final(self).wf(),
            final(self).poly() == old(self).poly(),
            final(self).offset_poly() == old(self).offset_poly(),
            final(self).shows_offset() == old(self).shows_offset(),
            final(self).naive() == old(self).naive(),
            final(self).offset_distance() == old(self).offset_distance(),
            final(self).insertion() is None,
            final(self).point_hovered() is None,
            final(self).line_hovered() is None,
    {
        self.is_point_hovered = false;
        self.hovered_point_id = 0;
        self.is_line_hovered = false;
        self.hovered_line_id = 0;
        self.can_insert = false;
        self.insert_pos = Vec2 { x: 0, y: 0 };
    }

    /// Removes vertex `id` (cyclic), after clearing the constraint of the
    /// edge that enters it; refreshes the offset and clears the hover and
    /// insertion state. Fails, changing nothing, when only three vertices
    /// are left.
    pub fn remove_point(&mut self, id: isize) -> (r: Result<(), PolygonError>)
        requires
            old(self).wf(),
        ensures
            final(self).wf(),
            old(self).poly()@.len() <= 3 ==> r == Err::<(), PolygonError>(PolygonError::NotEnoughPoints)
                && *final(self) == *old(self),
            old(self).poly()@.len() > 3 ==> r is Ok && ({
                let n = old(self).poly()@.len() as int;
                let i = old(self).poly().wrap(id as int);
                &&& final(self).poly().positions() == old(self).poly().positions().remove(i)
                &&& final(self).poly().constraints() == old(self).poly().constraints().update(
                    cyc_prev(n, i),
                    EdgeConstraint::Unconstrained,
                ).remove(i)
                &&& final(self).poly().selection() == old(self).poly().selection().remove(i)
                &&& final(self).offset_refreshed(old(self).offset_poly().positions())
                &&& final(self).point_hovered() is None
                &&& final(self).line_hovered() is None
            }),
    {
        let n = self.polygon.points_count();
        if n <= 3 {
            return Err(PolygonError::NotEnoughPoints);
        }
        let i = self.polygon.fix_index(id);
        let prev = (i + n - 1) % n;
        proof {
            vstd::arithmetic::div_mod::lemma_small_mod(prev as nat, n as nat);
        }
        self.polygon.set_edge_contsraint(prev as isize, EdgeConstraint::Unconstrained);
        assert(self.polygon.positions() =~= old(self).polygon.positions());
        assert(self.polygon.selection() =~= old(self).polygon.selection());
        let _ = self.polygon.remove_point(id);
        assert(self.polygon@.len() == self.polygon.positions().len());
        self.clear_hover();
        self.update_offset();
        Ok(())
    }

    /// Sets the constraint of edge `id` (cyclic), see
    /// `Polygon::set_constraint`; the offset is refreshed when it succeeds.
    pub fn set_edge_constraint(&mut self, id: isize, constraint: EdgeConstraint) -> (r: Result<
        (),
        PolygonError,
    >)
        requires
            old(self).wf(),
        ensures
            final(self).wf(),
            ({
                let n = old(self).poly()@.len() as int;
                let i = old(self).poly().wrap(id as int);
                let j = cyc_next(n, i);
                let conflict = constraint != EdgeConstraint::Unconstrained && (constraint
                    == old(self).poly().constraints()[cyc_prev(n, i)] || constraint
                    == old(self).poly().constraints()[j]);
                let moved = snapped(old(self).poly().positions(), i, j, constraint);
                &&& conflict ==> r == Err::<(), PolygonError>(PolygonError::NeighbourConflict)
                    && *final(self) == *old(self)
                &&& !conflict && self_crossing(moved) ==> r == Err::<(), PolygonError>(
                    PolygonError::WouldSelfCross,
                ) && *final(self) == *old(self)
                &&& !conflict && !self_crossing(moved) ==> r is Ok && final(self).poly().positions()
                    == moved && final(self).poly().constraints() == old(self).poly().constraints().update(
                    i,
                    constraint,
                ) && final(self).poly().selection() == old(self).poly().selection()
                    && final(self).offset_refreshed(old(self).offset_poly().positions())
            }),
    {
        let r = self.polygon.set_constraint(id, constraint);
        match r {
            Ok(()) => {
                self.update_offset();
            },
            Err(_) => {},
        }
        r
    }

    /// Makes the polygon's vertex order counter-clockwise, see
    /// `Polygon::assert_ccw`.
    pub fn assert_ccw(&mut self)
        requires
            old(self).wf(),
        ensures
            final(self).wf(),
            final(self).offset_poly() == old(self).offset_poly(),
            crate::geometry::shoelace(final(self).poly().positions()) >= 0,
            crate::geometry::shoelace(old(self).poly().positions()) > 0 ==> final(self).poly()@ == old(
                self,
            ).poly()@,
            crate::geometry::shoelace(old(self).poly().positions()) <= 0 ==> final(self).poly().positions()
                == old(self).poly().positions().reverse() && final(self).poly().selection() == old(
                self,
            ).poly().selection().reverse(),
    {
        self.polygon.assert_ccw();
    }

    /// Moves the selected vertices by `vec`. An unselected neighbour of a
    /// moved vertex follows it along the axis of a constrained edge between
    /// them (x for a vertical edge, y for a horizontal one). The offset is
    /// refreshed afterwards.
    pub fn move_selected_points(&mut self, vec: Vec2)
        requires
            old(self).wf(),
        ensures
            final(self).wf(),
            final(self).poly().positions() == moved(
                old(self).poly().positions(),
                old(self).poly().selection(),
                old(self).poly().constraints(),
                vec,
            ),
            final(self).poly().constraints() == old(self).poly().constraints(),
            final(self).poly().selection() == old(self).poly().selection(),
            final(self).offset_refreshed(old(self).offset_poly().positions()),
    {
        let n = self.polygon.points_count();
        let pts = self.polygon.point_positions();
        let ghost s = self.polygon.positions();
        let ghost sel = self.polygon.selection();
        let ghost cons = self.polygon.constraints();
        let mut out: Vec<Vec2> = Vec::new();
        let mut k: usize = 0;
        while k < n
            invariant
                *self == *old(self),
                self.wf(),
                n == self.polygon@.len(),
                pts@ == s,
                s == self.polygon.positions(),
                sel == self.polygon.selection(),
                cons == self.polygon.constraints(),
                0 <= k <= n,
                out@ =~= moved(s, sel, cons, vec).take(k as int),
                all_in_range(out@),
            decreases n - k,
        {
            let next = (k + 1) % n;
            let prev = (k + n - 1) % n;
            proof {
                vstd::arithmetic::div_mod::lemma_small_mod(k as nat, n as nat);
                vstd::arithmetic::div_mod::lemma_small_mod(next as nat, n as nat);
                vstd::arithmetic::div_mod::lemma_small_mod(prev as nat, n as nat);
            }
            let (dx, dy) = if self.polygon.is_point_selected(k as isize) {
                (vec.x as i128, vec.y as i128)
            } else {
                let a = if self.polygon.is_point_selected(next as isize) {
                    pull_exec(self.polygon.get_edge_constraint(k as isize), vec)
                } else {
                    (0, 0)
                };
                let b = if self.polygon.is_point_selected(prev as isize) {
                    pull_exec(self.polygon.get_edge_constraint(prev as isize), vec)
                } else {
                    (0, 0)
                };
                (a.0 + b.0, a.1 + b.1)
            };
            assert(in_range(pts@[k as int]));
            let p = pts[k];
            out.push(Vec2 { x: clamp_to_range(p.x as i128 + dx), y: clamp_to_range(p.y as i128 + dy) });
            k = k + 1;
        }
        assert(moved(s, sel, cons, vec).take(n as int) =~= moved(s, sel, cons, vec));
        self.polygon.replace_positions(&out);
        assert(self.polygon@.len() == self.polygon.positions().len());
        self.update_offset();
    }

    /// The edge whose two vertices are the only selected ones, if exactly two
    /// adjacent vertices are selected.
    pub fn selected_edge(&self) -> (r: Option<usize>)
        requires
            self.wf(),
        ensures
            ({
                let sel = self.poly().selection();
                let n = sel.len() as int;
                let two = count_true(sel, n) == 2;
                &&& r matches Some(e) ==> two && 0 <= e < n && sel[e as int] && sel[cyc_next(n, e as int)]
                &&& r is None ==> !(two && exists|e: int|
                    0 <= e < n && #[trigger] sel[e] && sel[cyc_next(n, e)])
            }),
    {
        let count = self.selected_points_count();
        if count != 2 {
            return None;
        }
        let n = self.polygon.points_count();
        let ghost sel = self.polygon.selection();
        let mut i: usize = 0;
        while i < n
            invariant
                self.wf(),
                n == self.polygon@.len(),
                sel == self.polygon.selection(),
                count_true(sel, n as int) == 2,
                0 <= i <= n,
                forall|j: int| 0 <= j < i ==> !#[trigger] sel[j],
            decreases n - i,
        {
            proof {
                vstd::arithmetic::div_mod::lemma_small_mod(i as nat, n as nat);
            }
            if self.polygon.is_point_selected(i as isize) {
                let next = (i + 1) % n;
                let prev = (i + n - 1) % n;
                proof {
                    vstd::arithmetic::div_mod::lemma_small_mod(next as nat, n as nat);
                    vstd::arithmetic::div_mod::lemma_small_mod(prev as nat, n as nat);
                }
                if self.polygon.is_point_selected(next as isize) {
                    return Some(i);
                }
                if self.polygon.is_point_selected(prev as isize) {
                    proof {
                        assert(cyc_next(n as int, prev as int) == i) by {
                            if i == 0 {
                                vstd::arithmetic::div_mod::lemma_small_mod((n - 1) as nat, n as nat);
                                vstd::arithmetic::div_mod::lemma_mod_self_0(n as int);
                            } else {
                                vstd::arithmetic::div_mod::lemma_mod_add_multiples_vanish(i - 1, n as int);
                                vstd::arithmetic::div_mod::lemma_small_mod((i - 1) as nat, n as nat);
                                vstd::arithmetic::div_mod::lemma_small_mod(i as nat, n as nat);
                            }
                        }
                    }
                    return Some(prev);
                }
                proof {
                    lemma_two_selected_not_adjacent(sel, i as int);
                }
                return None;
            }
            i = i + 1;
        }
        proof {
            lemma_count_none(sel, n as int);
        }
        None
    }
}

} // verus!
