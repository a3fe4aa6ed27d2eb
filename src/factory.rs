//! Interactive construction of a new polygon, click by click, and its
//! hand-over as an edited object once it is closed.
use vstd::prelude::*;
use crate::geometry::{Vec2, in_range, all_in_range, dist2_spec, shoelace, distance2};
use crate::polygon::{Polygon, RawPolygonCoords, positions_of};
use crate::crossing::{intersect_spec_seg, segments_intersect};
use crate::object::{PolygonObject, POINT_DETECTION_RADIUS, DEFAULT_OFFSET};
use crate::offset::MAX_OFFSET_VERTICES;

verus! {

/// Minimal distance between a new vertex and the vertices placed so far
/// (the first one excepted, which closes the polygon).
pub const POLY_EDGE_MIN_LEN: i64 = 5;

/// Builds polygons from clicks: the first click starts a polygon, later
/// clicks append vertices, and a click near the first vertex closes it.
pub struct PolygonObjectFactory {
    polygon: Option<Polygon>,
    curr_id: usize,
    is_line_intersecting: bool,
    entered_correct_vertex_region: bool,
}

/// The mouse at `m` is close enough to `first` to close the polygon.
pub open spec fn near_first(first: Vec2, m: Vec2) -> bool {
    dist2_spec(first, m) <= POINT_DETECTION_RADIUS * POINT_DETECTION_RADIUS
}

/// `p` lies within `POLY_EDGE_MIN_LEN` of one of the vertices `1..` of `s`.
pub open spec fn too_close(s: Seq<Vec2>, p: Vec2) -> bool {
    exists|i: int| 1 <= i < s.len() && dist2_spec(p, #[trigger] s[i]) <= POLY_EDGE_MIN_LEN * POLY_EDGE_MIN_LEN
}

/// The segment from the last vertex of `s` to `m` meets one of the edges
/// `i -> i + 1` for `i < s.len() - 2` (the edges not ending at the last vertex).
pub open spec fn new_edge_intersects(s: Seq<Vec2>, m: Vec2) -> bool {
    exists|i: int|
        0 <= i < s.len() - 2 && #[trigger] intersect_spec_seg(s[s.len() - 1], m, s[i], s[i + 1])
}

fn is_too_close(p: &Polygon, add_pos: Vec2) -> (r: bool)
    requires
        p.wf(),
        in_range(add_pos),
    ensures
        r == too_close(p.positions(), add_pos),
{
    let n = p.points_count();
    let mut i: usize = 1;
    while i < n
        invariant
            p.wf(),
            n == p@.len(),
            1 <= i,
            i <= n || n == 0,
            in_range(add_pos),
            forall|j: int|
                1 <= j < i ==> !(dist2_spec(add_pos, #[trigger] p.positions()[j]) <= POLY_EDGE_MIN_LEN
                    * POLY_EDGE_MIN_LEN),
        decreases n - i,
    {
        assert(in_range(p.positions()[i as int]));
        proof {
            vstd::arithmetic::div_mod::lemma_small_mod(i as nat, n as nat);
        }
        let q = p.get_point_pos(i as isize);
        if distance2(add_pos, q) <= (POLY_EDGE_MIN_LEN * POLY_EDGE_MIN_LEN) as i128 {
            return true;
        }
        i = i + 1;
    }
    false
}

fn new_edge_hits(pts: &Vec<Vec2>, m: Vec2) -> (r: bool)
    requires
        pts@.len() >= 1,
        all_in_range(pts@),
        in_range(m),
    ensures
        r == new_edge_intersects(pts@, m),
{
    let n = pts.len();
    assert(in_range(pts@[n - 1]));
    let last = pts[n - 1];
    let mut i: usize = 0;
    while n >= 2 && i < n - 2
        invariant
            n == pts@.len(),
            n >= 1,
            all_in_range(pts@),
            in_range(m),
            last == pts@[n - 1],
            0 <= i <= n,
            forall|j: int|
                0 <= j < i ==> !#[trigger] intersect_spec_seg(pts@[n - 1], m, pts@[j], pts@[j + 1]),
        decreases n - i,
    {
        assert(in_range(pts@[i as int]) && in_range(pts@[i + 1]));
        if segments_intersect(last, m, pts[i], pts[i + 1]) {
            assert(intersect_spec_seg(pts@[n - 1], m, pts@[i as int], pts@[i + 1]));
            return true;
        }
        i = i + 1;
    }
    false
}

impl PolygonObjectFactory {
    /// The polygon under construction.
    pub closed spec fn building(&self) -> Option<Polygon> {
        self.polygon
    }

    pub closed spec fn next_id(&self) -> nat {
        self.curr_id as nat
    }

    /// The last mouse position crossed the polygon drawn so far.
    pub closed spec fn intersecting(&self) -> bool {
        self.is_line_intersecting
    }

    /// The last mouse position was near the first vertex.
    pub closed spec fn in_closing_region(&self) -> bool {
        self.entered_correct_vertex_region
    }

    pub open spec fn wf(&self) -> bool {
        self.building() matches Some(p) ==> p.wf() && 1 <= p@.len() < MAX_OFFSET_VERTICES
    }

    pub fn new() -> (r: PolygonObjectFactory)
        ensures
            r.wf(),
            r.building() is None,
            r.next_id() == 0,
            !r.intersecting(),
            !r.in_closing_region(),
    {
        PolygonObjectFactory {
            polygon: None,
            curr_id: 0,
            is_line_intersecting: false,
            entered_correct_vertex_region: false,
        }
    }

    /// Drops the polygon under construction.
    pub fn clear(&mut self)
        ensures
            final(self).wf(),
            final(self).building() is None,
            final(self).next_id() == old(self).next_id(),
            !final(self).intersecting(),
            !final(self).in_closing_region(),
    {
        self.polygon = None;
        self.is_line_intersecting = false;
        self.entered_correct_vertex_region = false;
    }

    pub fn polygon(&self) -> (r: Option<&Polygon>)
        ensures
            r matches Some(p) ==> self.building() == Some(*p),
            r is None ==> self.building() is None,
    {
        match &self.polygon {
            Some(p) => Some(p),
            None => None,
        }
    }

    fn bump_id(&mut self)
        ensures
            final(self).polygon == old(self).polygon,
            final(self).is_line_intersecting == old(self).is_line_intersecting,
            final(self).entered_correct_vertex_region == old(self).entered_correct_vertex_region,
            final(self).curr_id as int == if old(self).curr_id < usize::MAX {
                old(self).curr_id + 1
            } else {
                old(self).curr_id as int
            },
    {
        if self.curr_id < usize::MAX {
            self.curr_id = self.curr_id + 1;
        }
    }

    /// Handles a click at `add_pos`. Ignored while the last mouse position
    /// crossed the polygon. In the closing region, a polygon of at least
    /// three vertices is finished: made counter-clockwise and returned as an
    /// edited object. Elsewhere the click starts a polygon or appends a
    /// vertex, unless it lies too close to a vertex already placed (or the
    /// polygon has reached `MAX_OFFSET_VERTICES - 1` vertices).
    pub fn add_or_build(&mut self, add_pos: Vec2) -> (r: Option<PolygonObject>)
        requires
            old(self).wf(),
            in_range(add_pos),
        ensures
            final(self).wf(),
            old(self).intersecting() ==> r is None && *final(self) == *old(self),
            !old(self).intersecting() && old(self).building() is None ==> r is None
                && final(self).building() is Some && final(self).building().unwrap().positions()
                == seq![add_pos] && final(self).next_id() == (if old(self).next_id() < usize::MAX {
                old(self).next_id() + 1
            } else {
                old(self).next_id()
            }),
            !old(self).intersecting() && old(self).building() is Some ==> ({
                let s = old(self).building().unwrap().positions();
                let o = r.unwrap();
                &&& !old(self).in_closing_region() && !too_close(s, add_pos) && s.len() + 2
                    < MAX_OFFSET_VERTICES ==> r is None && final(self).building() is Some
                    && final(self).building().unwrap().positions() == s.push(add_pos)
                &&& !old(self).in_closing_region() && (too_close(s, add_pos) || s.len() + 2
                    >= MAX_OFFSET_VERTICES) ==> r is None && *final(self) == *old(self)
                &&& old(self).in_closing_region() && s.len() < 3 ==> r is None && *final(self)
                    == *old(self)
                &&& old(self).in_closing_region() && s.len() >= 3 ==> final(self).building() is None
                    && !final(self).in_closing_region() && !final(self).intersecting() && r is Some
                    && o.wf() && o.offset_distance() == DEFAULT_OFFSET && shoelace(o.poly().positions())
                    >= 0 && (shoelace(s) > 0 ==> o.poly().positions() == s) && (shoelace(s) <= 0
                    ==> o.poly().positions() == s.reverse())
            }),
    {
        if self.is_line_intersecting {
            return None;
        }
        match self.polygon.take() {
            None => {
                let q = Polygon::new_with_start_point(add_pos);
                assert(q@.len() == q.positions().len());
                self.polygon = Some(q);
                self.bump_id();
                None
            },
            Some(mut p) => {
                let n = p.points_count();
                if !self.entered_correct_vertex_region {
                    if is_too_close(&p, add_pos) {
                        self.polygon = Some(p);
                        return None;
                    }
                    if n + 2 >= MAX_OFFSET_VERTICES {
                        self.polygon = Some(p);
                        return None;
                    }
                    p.push_point_with_pos(add_pos);
                    assert(p@.len() == p.positions().len());
                    self.polygon = Some(p);
                    None
                } else {
                    if n >= 3 {
                        p.assert_ccw();
                        self.is_line_intersecting = false;
                        self.entered_correct_vertex_region = false;
                        Some(PolygonObject::from(p))
                    } else {
                        self.polygon = Some(p);
                        None
                    }
                }
            },
        }
    }

    /// Follows the mouse while a polygon is drawn: records whether the mouse
    /// is near the first vertex (it then snaps there) and whether the
    /// segment from the last vertex to the mouse meets an earlier edge.
    pub fn update(&mut self, mouse_pos: Vec2)
        requires
            old(self).wf(),
            in_range(mouse_pos),
        ensures
            final(self).wf(),
            final(self).building() == old(self).building(),
            final(self).next_id() == old(self).next_id(),
            old(self).building() is None ==> *final(self) == *old(self),
            old(self).building() is Some ==> ({
                let s = old(self).building().unwrap().positions();
                &&& final(self).in_closing_region() == near_first(s[0], mouse_pos)
                &&& final(self).intersecting() == (s.len() >= 3 && !near_first(s[0], mouse_pos)
                    && new_edge_intersects(s, mouse_pos))
            }),
    {
        match self.polygon.take() {
            None => {},
            Some(p) => {
                let pts = p.point_positions();
                let n = pts.len();
                assert(in_range(pts@[0]) && in_range(pts@[n - 1]));
                let first = pts[0];
                let magnet = distance2(first, mouse_pos) <= (POINT_DETECTION_RADIUS
                    * POINT_DETECTION_RADIUS) as i128;
                self.entered_correct_vertex_region = magnet;
                let hit = n >= 3 && !magnet && new_edge_hits(&pts, mouse_pos);
                self.is_line_intersecting = hit;
                self.polygon = Some(p);
            },
        }
    }

    /// An edited object with the positions of a coordinate list, in their
    /// order; the next id is used up.
    pub fn build_from_raw(&mut self, raw_polygon: RawPolygonCoords) -> (r: PolygonObject)
        requires
            3 <= raw_polygon.coords@.len() < MAX_OFFSET_VERTICES,
            all_in_range(positions_of(raw_polygon.coords@)),
        ensures
            r.wf(),
            r.poly().positions() == positions_of(raw_polygon.coords@),
            r.offset_distance() == DEFAULT_OFFSET,
            final(self).building() == old(self).building(),
    {
        let mut poly = Polygon::new();
        poly.set_points_from_raw(raw_polygon);
        assert(poly@.len() == poly.positions().len());
        self.bump_id();
        PolygonObject::from(poly)
    }
}

} // verus!
