//! The vertex store: an ordered, cyclic sequence of vertices with per-edge
//! axis constraints and derived offset vectors.
use vstd::prelude::*;
use crate::geometry::{
    Vec2, COORD_LIMIT, in_range, all_in_range, shoelace, is_ccw, lemma_shoelace_reverse, miter_spec, label_dir_spec, norm_spec, perp_spec, diff_spec,
    miter_vec, label_dir, vec_norm, diff,
};

use crate::crossing::{
    Crossing, self_crossing, edge_crossings, nearest, has_self_crossing, crossing_lists,
    nearest_crossings,
};

verus! {

/// The axis constraint of an edge.
#[derive(Clone, Copy, Debug, PartialEq, Eq, Structural)]
pub enum EdgeConstraint {
    Unconstrained,
    Horizontal,
    Vertical,
}

/// A vertex: its position, selection flag, the constraint of the edge to the
/// next vertex, and the fields derived from its two neighbours.
#[derive(Clone, Copy, Debug, PartialEq, Eq, Structural)]
pub struct Point {
    pub pos: Vec2,
    pub is_selected: bool,
    pub edge_constraint: EdgeConstraint,
    pub direction: Vec2,
    pub normal: Vec2,
    pub prev_normal: Vec2,
    pub offset_vec: Vec2,
}

impl Point {
    /// The derived fields agree with the neighbours `prev` and `next`.
    pub open spec fn is_fresh(self, prev: Vec2, next: Vec2) -> bool {
        &&& self.offset_vec == miter_spec(prev, self.pos, next)
        &&& self.direction == label_dir_spec(prev, self.pos, next)
        &&& self.normal == norm_spec(perp_spec(diff_spec(self.pos, next)))
        &&& self.prev_normal == norm_spec(perp_spec(diff_spec(prev, self.pos)))
    }

    /// A vertex at `pos`, unselected, unconstrained, with zero derived fields.
    pub fn new(pos: Vec2) -> (r: Point)
        ensures
            r.pos == pos,
            !r.is_selected,
            r.edge_constraint == EdgeConstraint::Unconstrained,
            r.direction == (Vec2 { x: 0, y: 0 }),
            r.normal == (Vec2 { x: 0, y: 0 }),
            r.prev_normal == (Vec2 { x: 0, y: 0 }),
            r.offset_vec == (Vec2 { x: 0, y: 0 }),
    {
        let zero = Vec2 { x: 0, y: 0 };
        Point {
            pos,
            is_selected: false,
            edge_constraint: EdgeConstraint::Unconstrained,
            direction: zero,
            normal: zero,
            prev_normal: zero,
            offset_vec: zero,
        }
    }

    /// The label-placement direction.
    pub fn get_dir(&self) -> (r: Vec2)
        ensures
            r == self.direction,
    {
        self.direction
    }

    /// Moves the vertex; the other fields are kept.
    pub fn update_pos(&mut self, pos: Vec2)
        ensures
            *final(self) == (Point { pos, ..*old(self) }),
    {
        self.pos = pos;
    }

    /// Recomputes the derived fields from the neighbours `prev` and `next`.
    pub fn update_normals(&mut self, prev: Vec2, next: Vec2)
        requires
            in_range(prev),
            in_range(old(self).pos),
            in_range(next),
        ensures
            final(self).is_fresh(prev, next),
            final(self).pos == old(self).pos,
            final(self).is_selected == old(self).is_selected,
            final(self).edge_constraint == old(self).edge_constraint,
    {
        let v01 = diff(prev, self.pos);
        let v12 = diff(self.pos, next);
        self.normal = vec_norm(Vec2 { x: -v12.y, y: v12.x });
        self.prev_normal = vec_norm(Vec2 { x: -v01.y, y: v01.x });
        self.offset_vec = miter_vec(prev, self.pos, next);
        self.direction = label_dir(prev, self.pos, next);
    }
}


/// Index of the vertex before `i` in a cycle of `n`.
pub open spec fn cyc_prev(n: int, i: int) -> int {
    (i + n - 1) % n
}

/// Index of the vertex after `i` in a cycle of `n`.
pub open spec fn cyc_next(n: int, i: int) -> int {
    (i + 1) % n
}

/// The positions of a vertex sequence.
pub open spec fn pos_seq(s: Seq<Point>) -> Seq<Vec2> {
    s.map_values(|p: Point| p.pos)
}

/// The edge constraints of a vertex sequence.
pub open spec fn constraint_seq(s: Seq<Point>) -> Seq<EdgeConstraint> {
    s.map_values(|p: Point| p.edge_constraint)
}

/// The selection flags of a vertex sequence.
pub open spec fn selection_seq(s: Seq<Point>) -> Seq<bool> {
    s.map_values(|p: Point| p.is_selected)
}

/// Every vertex's derived fields agree with its cyclic neighbours.
pub open spec fn all_fresh(s: Seq<Point>) -> bool {
    forall|i: int|
        0 <= i < s.len() ==> #[trigger] s[i].is_fresh(
            s[cyc_prev(s.len() as int, i)].pos,
            s[cyc_next(s.len() as int, i)].pos,
        )
}

/// A well-formed vertex sequence: its length fits an `isize`, its positions
/// are in range and its derived fields are up to date.
pub open spec fn points_wf(s: Seq<Point>) -> bool {
    &&& s.len() < isize::MAX
    &&& all_in_range(pos_seq(s))
    &&& all_fresh(s)
}

/// An error of an editing operation on a polygon.
#[derive(Clone, Copy, Debug, PartialEq, Eq, Structural)]
pub enum PolygonError {
    /// The removal would leave fewer than three vertices.
    NotEnoughPoints,
    /// The requested constraint equals a neighbouring edge's constraint.
    NeighbourConflict,
    /// Applying the constraint would make the polygon cross itself.
    WouldSelfCross,
}

/// One exported vertex position.
#[derive(Clone, Copy, Debug, PartialEq, Eq, Structural)]
pub struct RawCoord {
    pub x: i64,
    pub y: i64,
}

/// A polygon exported as its ordered vertex positions.
#[derive(Debug)]
pub struct RawPolygonCoords {
    pub coords: Vec<RawCoord>,
}

/// The exported form of a position sequence.
pub open spec fn raw_of(s: Seq<Vec2>) -> Seq<RawCoord> {
    s.map_values(|v: Vec2| RawCoord { x: v.x, y: v.y })
}

/// The positions given by an exported coordinate list.
pub open spec fn positions_of(c: Seq<RawCoord>) -> Seq<Vec2> {
    c.map_values(|r: RawCoord| Vec2 { x: r.x, y: r.y })
}

/// Exporting positions and importing them back gives the same positions in
/// the same order.
pub proof fn lemma_raw_round_trip(s: Seq<Vec2>)
    ensures
        positions_of(raw_of(s)) == s,
{
    assert(positions_of(raw_of(s)) =~= s);
}

impl RawPolygonCoords {
    pub fn new(coords: Vec<RawCoord>) -> (r: RawPolygonCoords)
        ensures
            r.coords@ == coords@,
    {
        RawPolygonCoords { coords }
    }

    /// The exported form of the given positions.
    pub fn from_points(points: &Vec<Vec2>) -> (r: RawPolygonCoords)
        ensures
            r.coords@ == raw_of(points@),
    {
        let mut coords: Vec<RawCoord> = Vec::new();
        let mut i: usize = 0;
        while i < points.len()
            invariant
                0 <= i <= points@.len(),
                coords@ =~= raw_of(points@).take(i as int),
            decreases points@.len() - i,
        {
            coords.push(RawCoord { x: points[i].x, y: points[i].y });
            i = i + 1;
        }
        assert(raw_of(points@).take(points@.len() as int) =~= raw_of(points@));
        RawPolygonCoords { coords }
    }
}

/// The positions after snapping edge `i -> j` to the axis of `c`: both
/// endpoints take the average (rounded toward zero) of their y coordinates
/// for `Horizontal`, of their x coordinates for `Vertical`.
pub open spec fn snapped(s: Seq<Vec2>, i: int, j: int, c: EdgeConstraint) -> Seq<Vec2> {
    match c {
        EdgeConstraint::Horizontal => {
            let avg = crate::geometry::div_trunc(s[i].y + s[j].y, 2) as i64;
            s.update(i, Vec2 { x: s[i].x, y: avg }).update(j, Vec2 { x: s[j].x, y: avg })
        },
        EdgeConstraint::Vertical => {
            let avg = crate::geometry::div_trunc(s[i].x + s[j].x, 2) as i64;
            s.update(i, Vec2 { x: avg, y: s[i].y }).update(j, Vec2 { x: avg, y: s[j].y })
        },
        EdgeConstraint::Unconstrained => s,
    }
}

/// Sum of the x coordinates (`x == true`) or y coordinates of the first `k`
/// positions.
pub open spec fn coord_sum(s: Seq<Vec2>, k: int, x: bool) -> int
    decreases k,
{
    if k <= 0 {
        0
    } else {
        coord_sum(s, k - 1, x) + if x {
            s[k - 1].x as int
        } else {
            s[k - 1].y as int
        }
    }
}

/// A closed polygon: vertex `i` and vertex `i + 1` (cyclically) bound edge `i`.
pub struct Polygon {
    points: Vec<Point>,
    name: String,
}

impl View for Polygon {
    type V = Seq<Point>;

    closed spec fn view(&self) -> Seq<Point> {
        self.points@
    }
}

impl Polygon {
    pub open spec fn wf(&self) -> bool {
        points_wf(self@)
    }

    pub open spec fn positions(&self) -> Seq<Vec2> {
        pos_seq(self@)
    }

    pub open spec fn constraints(&self) -> Seq<EdgeConstraint> {
        constraint_seq(self@)
    }

    pub open spec fn selection(&self) -> Seq<bool> {
        selection_seq(self@)
    }

    pub closed spec fn name_view(&self) -> Seq<char> {
        self.name@
    }

    /// `id` reduced modulo the vertex count.
    pub open spec fn wrap(&self, id: int) -> int {
        id % self@.len() as int
    }

    /// An empty polygon named "Polygon".
    pub fn new() -> (r: Polygon)
        ensures
            r.wf(),
            r@.len() == 0,
            r.name_view() == "Polygon"@,
    {
        Polygon { points: Vec::new(), name: "Polygon".to_owned() }
    }

    /// Recomputes the derived fields of every vertex.
    fn update_normals(&mut self)
        requires
            old(self)@.len() < isize::MAX,
            all_in_range(pos_seq(old(self)@)),
        ensures
            final(self).wf(),
            final(self)@.len() == old(self)@.len(),
            forall|i: int|
                0 <= i < old(self)@.len() ==> {
                    &&& (#[trigger] final(self)@[i]).pos == old(self)@[i].pos
                    &&& final(self)@[i].is_selected == old(self)@[i].is_selected
                    &&& final(self)@[i].edge_constraint == old(self)@[i].edge_constraint
                },
            final(self).name_view() == old(self).name_view(),
            pos_seq(final(self)@) == pos_seq(old(self)@),
            constraint_seq(final(self)@) == constraint_seq(old(self)@),
            selection_seq(final(self)@) == selection_seq(old(self)@),
    {
        let ghost orig = self@;
        let n = self.points.len();
        let mut i: usize = 0;
        while i < n
            invariant
                n == self@.len(),
                n == orig.len(),
                n < isize::MAX,
                all_in_range(pos_seq(orig)),
                0 <= i <= n,
                self.name@ == old(self).name@,
                forall|j: int|
                    0 <= j < n ==> {
                        &&& (#[trigger] self@[j]).pos == orig[j].pos
                        &&& self@[j].is_selected == orig[j].is_selected
                        &&& self@[j].edge_constraint == orig[j].edge_constraint
                    },
                forall|j: int|
                    0 <= j < i ==> #[trigger] self@[j].is_fresh(
                        orig[cyc_prev(n as int, j)].pos,
                        orig[cyc_next(n as int, j)].pos,
                    ),
            decreases n - i,
        {
            let ip = (i + n - 1) % n;
            let inx = (i + 1) % n;
            assert(in_range(pos_seq(orig)[ip as int]));
            assert(in_range(pos_seq(orig)[inx as int]));
            assert(in_range(pos_seq(orig)[i as int]));
            let prev = self.points[ip].pos;
            let next = self.points[inx].pos;
            let mut p = self.points[i];
            p.update_normals(prev, next);
            self.points.set(i, p);
            i = i + 1;
        }
        assert(pos_seq(self@) =~= pos_seq(orig));
        assert(constraint_seq(self@) =~= constraint_seq(orig));
        assert(selection_seq(self@) =~= selection_seq(orig));
    }

    /// A polygon through the given positions, in order, unconstrained and
    /// unselected.
    pub fn create(points: Vec<Vec2>) -> (r: Polygon)
        requires
            points@.len() < isize::MAX,
            all_in_range(points@),
        ensures
            r.wf(),
            r.positions() == points@,
            forall|i: int| 0 <= i < points@.len() ==> #[trigger] r.constraints()[i] == EdgeConstraint::Unconstrained,
            forall|i: int| 0 <= i < points@.len() ==> !#[trigger] r.selection()[i],
            r.name_view() == "Polygon"@,
    {
        let mut pts: Vec<Point> = Vec::new();
        let mut i: usize = 0;
        while i < points.len()
            invariant
                0 <= i <= points@.len(),
                pts@.len() == i,
                forall|j: int|
                    0 <= j < i ==> (#[trigger] pts@[j]).pos == points@[j]
                        && pts@[j].edge_constraint == EdgeConstraint::Unconstrained
                        && !pts@[j].is_selected,
            decreases points@.len() - i,
        {
            pts.push(Point::new(points[i]));
            i = i + 1;
        }
        let mut r = Polygon { points: pts, name: "Polygon".to_owned() };
        assert(pos_seq(r@) =~= points@);
        let ghost before = r@;
        r.update_normals();
        assert forall|i: int| 0 <= i < points@.len() implies #[trigger] r.constraints()[i]
            == EdgeConstraint::Unconstrained by {
            assert(r@[i].pos == before[i].pos);
        }
        assert forall|i: int| 0 <= i < points@.len() implies !#[trigger] r.selection()[i] by {
            assert(r@[i].pos == before[i].pos);
        }
        assert(r.positions() =~= points@) by {
            assert forall|i: int| 0 <= i < points@.len() implies #[trigger] r.positions()[i]
                == points@[i] by {
                assert(r@[i].pos == before[i].pos);
            }
        }
        r
    }

    /// A polygon with a single vertex.
    pub fn new_with_start_point(point: Vec2) -> (r: Polygon)
        requires
            in_range(point),
        ensures
            r.wf(),
            r.positions() == seq![point],
            r.constraints() == seq![EdgeConstraint::Unconstrained],
    {
        let mut v: Vec<Vec2> = Vec::new();
        v.push(point);
        let r = Polygon::create(v);
        assert(r.constraints() =~= seq![EdgeConstraint::Unconstrained]);
        r
    }

    pub fn points_count(&self) -> (r: usize)
        ensures
            r == self@.len(),
    {
        self.points.len()
    }

    /// Whether the polygon has at least three vertices.
    pub fn is_proper(&self) -> (r: bool)
        ensures
            r == (self@.len() >= 3),
    {
        self.points.len() >= 3
    }

    /// `id` reduced cyclically into `0..points_count()`.
    pub fn fix_index(&self, id: isize) -> (r: usize)
        requires
            self.wf(),
            self@.len() > 0,
        ensures
            r == self.wrap(id as int),
            r < self@.len(),
    {
        let n = self.points.len() as isize;
        match id.checked_rem_euclid(n) {
            Some(r) => r as usize,
            None => 0,
        }
    }

    /// Position of vertex `id` (cyclic).
    pub fn get_point_pos(&self, id: isize) -> (r: Vec2)
        requires
            self.wf(),
            self@.len() > 0,
        ensures
            r == self.positions()[self.wrap(id as int)],
            in_range(r),
    {
        let i = self.fix_index(id);
        assert(in_range(self.positions()[i as int]));
        self.points[i].pos
    }

    /// Miter offset vector of vertex `id` (cyclic).
    pub fn get_offset_vec(&self, id: isize) -> (r: Vec2)
        requires
            self.wf(),
            self@.len() > 0,
        ensures
            r == self@[self.wrap(id as int)].offset_vec,
            r == miter_spec(
                self.positions()[cyc_prev(self@.len() as int, self.wrap(id as int))],
                self.positions()[self.wrap(id as int)],
                self.positions()[cyc_next(self@.len() as int, self.wrap(id as int))],
            ),
    {
        let i = self.fix_index(id);
        assert(self@[i as int].is_fresh(
            self@[cyc_prev(self@.len() as int, i as int)].pos,
            self@[cyc_next(self@.len() as int, i as int)].pos,
        ));
        self.points[i].offset_vec
    }

    /// Constraint of edge `id` (cyclic).
    pub fn get_edge_constraint(&self, id: isize) -> (r: EdgeConstraint)
        requires
            self.wf(),
            self@.len() > 0,
        ensures
            r == self.constraints()[self.wrap(id as int)],
    {
        let i = self.fix_index(id);
        self.points[i].edge_constraint
    }

    /// Sets the constraint of edge `id` (cyclic); nothing else changes.
    pub fn set_edge_contsraint(&mut self, id: isize, constraint: EdgeConstraint)
        requires
            old(self).wf(),
            old(self)@.len() > 0,
        ensures
            final(self).wf(),
            final(self)@ == old(self)@.update(
                old(self).wrap(id as int),
                Point { edge_constraint: constraint, ..old(self)@[old(self).wrap(id as int)] },
            ),
            final(self).name_view() == old(self).name_view(),
    {
        let i = self.fix_index(id);
        let mut p = self.points[i];
        p.edge_constraint = constraint;
        self.points.set(i, p);
        assert(pos_seq(self@) =~= pos_seq(old(self)@));
        assert forall|j: int| 0 <= j < self@.len() implies #[trigger] self@[j].is_fresh(
            self@[cyc_prev(self@.len() as int, j)].pos,
            self@[cyc_next(self@.len() as int, j)].pos,
        ) by {
            assert(old(self)@[j].is_fresh(
                old(self)@[cyc_prev(self@.len() as int, j)].pos,
                old(self)@[cyc_next(self@.len() as int, j)].pos,
            ));
        }
    }

    /// Appends a vertex at `point_pos`, unconstrained and unselected.
    pub fn push_point_with_pos(&mut self, point_pos: Vec2)
        requires
            old(self).wf(),
            old(self)@.len() + 1 < isize::MAX,
            in_range(point_pos),
        ensures
            final(self).wf(),
            final(self).positions() == old(self).positions().push(point_pos),
            final(self).constraints() == old(self).constraints().push(EdgeConstraint::Unconstrained),
            final(self).selection() == old(self).selection().push(false),
            final(self).name_view() == old(self).name_view(),
    {
        self.points.push(Point::new(point_pos));
        assert(pos_seq(self@) =~= pos_seq(old(self)@).push(point_pos));
        assert(constraint_seq(self@) =~= constraint_seq(old(self)@).push(EdgeConstraint::Unconstrained));
        assert(selection_seq(self@) =~= selection_seq(old(self)@).push(false));
        self.update_normals();
    }

    /// Inserts a vertex at `point_pos` before vertex `id` (cyclic), so that
    /// it gets index `id mod points_count()`.
    pub fn insert_point_with_pos(&mut self, id: isize, point_pos: Vec2)
        requires
            old(self).wf(),
            old(self)@.len() > 0,
            old(self)@.len() + 1 < isize::MAX,
            in_range(point_pos),
        ensures
            final(self).wf(),
            final(self).positions() == old(self).positions().insert(old(self).wrap(id as int), point_pos),
            final(self).constraints() == old(self).constraints().insert(
                old(self).wrap(id as int),
                EdgeConstraint::Unconstrained,
            ),
            final(self).selection() == old(self).selection().insert(old(self).wrap(id as int), false),
            final(self).name_view() == old(self).name_view(),
    {
        let i = self.fix_index(id);
        self.points.insert(i, Point::new(point_pos));
        assert(pos_seq(self@) =~= pos_seq(old(self)@).insert(i as int, point_pos));
        assert(constraint_seq(self@) =~= constraint_seq(old(self)@).insert(
            i as int,
            EdgeConstraint::Unconstrained,
        ));
        assert(selection_seq(self@) =~= selection_seq(old(self)@).insert(i as int, false));
        self.update_normals();
    }

    /// Removes vertex `id` (cyclic). Fails, leaving the polygon unchanged,
    /// when it has three vertices or fewer.
    pub fn remove_point(&mut self, id: isize) -> (r: Result<(), PolygonError>)
        requires
            old(self).wf(),
        ensures
            final(self).wf(),
            final(self).name_view() == old(self).name_view(),
            old(self)@.len() <= 3 ==> r == Err::<(), PolygonError>(PolygonError::NotEnoughPoints)
                && *final(self) == *old(self),
            old(self)@.len() > 3 ==> r is Ok
                && final(self).positions() == old(self).positions().remove(old(self).wrap(id as int))
                && final(self).constraints() == old(self).constraints().remove(old(self).wrap(id as int))
                && final(self).selection() == old(self).selection().remove(old(self).wrap(id as int)),
    {
        if self.points.len() <= 3 {
            return Err(PolygonError::NotEnoughPoints);
        }
        let i = self.fix_index(id);
        self.points.remove(i);
        assert(pos_seq(self@) =~= pos_seq(old(self)@).remove(i as int));
        assert(constraint_seq(self@) =~= constraint_seq(old(self)@).remove(i as int));
        assert(selection_seq(self@) =~= selection_seq(old(self)@).remove(i as int));
        self.update_normals();
        Ok(())
    }

    /// Moves vertex `index` (cyclic) to `point_pos`; the derived fields are
    /// recomputed, nothing else changes.
    pub fn update_point_pos(&mut self, point_pos: Vec2, index: isize)
        requires
            old(self).wf(),
            old(self)@.len() > 0,
            in_range(point_pos),
        ensures
            final(self).wf(),
            final(self)@.len() == old(self)@.len(),
            final(self).positions() == old(self).positions().update(old(self).wrap(index as int), point_pos),
            final(self).constraints() == old(self).constraints(),
            final(self).selection() == old(self).selection(),
            final(self).name_view() == old(self).name_view(),
    {
        let i = self.fix_index(index);
        let mut p = self.points[i];
        p.update_pos(point_pos);
        self.points.set(i, p);
        assert(pos_seq(self@) =~= pos_seq(old(self)@).update(i as int, point_pos));
        assert(constraint_seq(self@) =~= constraint_seq(old(self)@));
        assert(selection_seq(self@) =~= selection_seq(old(self)@));
        self.update_normals();
    }

    /// Moves the last vertex to `point_pos`.
    pub fn update_last_point_pos(&mut self, point_pos: Vec2)
        requires
            old(self).wf(),
            old(self)@.len() > 0,
            in_range(point_pos),
        ensures
            final(self).wf(),
            final(self).positions() == old(self).positions().update(old(self)@.len() - 1, point_pos),
            final(self).constraints() == old(self).constraints(),
            final(self).selection() == old(self).selection(),
    {
        let last = (self.points.len() - 1) as isize;
        proof {
            vstd::arithmetic::div_mod::lemma_small_mod(last as nat, self@.len() as nat);
        }
        self.update_point_pos(point_pos, last);
    }

    /// Marks vertex `id` (cyclic) as selected.
    pub fn select_point(&mut self, id: isize)
        requires
            old(self).wf(),
            old(self)@.len() > 0,
        ensures
            final(self).wf(),
            final(self).positions() == old(self).positions(),
            final(self).constraints() == old(self).constraints(),
            final(self).selection() == old(self).selection().update(old(self).wrap(id as int), true),
            final(self).name_view() == old(self).name_view(),
            final(self)@.len() == old(self)@.len(),
    {
        self.set_selected(id, true);
    }

    /// Marks vertex `id` (cyclic) as not selected.
    pub fn deselect_point(&mut self, id: isize)
        requires
            old(self).wf(),
            old(self)@.len() > 0,
        ensures
            final(self).wf(),
            final(self).positions() == old(self).positions(),
            final(self).constraints() == old(self).constraints(),
            final(self).selection() == old(self).selection().update(old(self).wrap(id as int), false),
            final(self).name_view() == old(self).name_view(),
            final(self)@.len() == old(self)@.len(),
    {
        self.set_selected(id, false);
    }

    fn set_selected(&mut self, id: isize, flag: bool)
        requires
            old(self).wf(),
            old(self)@.len() > 0,
        ensures
            final(self).wf(),
            final(self).positions() == old(self).positions(),
            final(self).constraints() == old(self).constraints(),
            final(self).selection() == old(self).selection().update(old(self).wrap(id as int), flag),
            final(self).name_view() == old(self).name_view(),
            final(self)@.len() == old(self)@.len(),
    {
        let i = self.fix_index(id);
        let mut p = self.points[i];
        p.is_selected = flag;
        self.points.set(i, p);
        assert(pos_seq(self@) =~= pos_seq(old(self)@));
        assert(constraint_seq(self@) =~= constraint_seq(old(self)@));
        assert(selection_seq(self@) =~= selection_seq(old(self)@).update(i as int, flag));
        assert forall|j: int| 0 <= j < self@.len() implies #[trigger] self@[j].is_fresh(
            self@[cyc_prev(self@.len() as int, j)].pos,
            self@[cyc_next(self@.len() as int, j)].pos,
        ) by {
            assert(old(self)@[j].is_fresh(
                old(self)@[cyc_prev(self@.len() as int, j)].pos,
                old(self)@[cyc_next(self@.len() as int, j)].pos,
            ));
        }
    }

    /// Whether vertex `id` (cyclic) is selected.
    pub fn is_point_selected(&self, id: isize) -> (r: bool)
        requires
            self.wf(),
            self@.len() > 0,
        ensures
            r == self.selection()[self.wrap(id as int)],
    {
        let i = self.fix_index(id);
        self.points[i].is_selected
    }

    /// The position of the first vertex, if there is one.
    pub fn first_point_pos(&self) -> (r: Option<Vec2>)
        ensures
            self@.len() == 0 ==> r is None,
            self@.len() > 0 ==> r == Some(self@[0].pos),
    {
        if self.points.len() > 0 {
            Some(self.points[0].pos)
        } else {
            None
        }
    }

    /// Removes every vertex.
    pub fn clear(&mut self)
        ensures
            final(self).wf(),
            final(self)@.len() == 0,
            final(self).name_view() == old(self).name_view(),
    {
        self.points.clear();
    }

    pub fn set_name(&mut self, name: String)
        requires
            old(self).wf(),
        ensures
            final(self).wf(),
            final(self)@ == old(self)@,
            final(self).name_view() == name@,
    {
        self.name = name;
    }

    pub fn get_name(&self) -> (r: &String)
        ensures
            r@ == self.name_view(),
    {
        &self.name
    }

    /// The vertex positions, in order.
    pub fn point_positions(&self) -> (r: Vec<Vec2>)
        requires
            self.wf(),
        ensures
            r@ == self.positions(),
    {
        let mut r: Vec<Vec2> = Vec::new();
        let mut i: usize = 0;
        while i < self.points.len()
            invariant
                0 <= i <= self@.len(),
                r@ =~= self.positions().take(i as int),
            decreases self@.len() - i,
        {
            r.push(self.points[i].pos);
            i = i + 1;
        }
        assert(self.positions().take(self@.len() as int) =~= self.positions());
        r
    }

    /// Makes the vertex order counter-clockwise: when the shoelace sum is
    /// not positive, reverses the vertices, keeping each edge constraint on
    /// the edge between the same two positions. Returns whether it reversed.
    pub fn assert_ccw(&mut self) -> (r: bool)
        requires
            old(self).wf(),
            old(self)@.len() >= 3,
        ensures
            final(self).wf(),
            final(self).name_view() == old(self).name_view(),
            r == (shoelace(old(self).positions()) <= 0),
            shoelace(final(self).positions()) >= 0,
            !r ==> final(self)@ == old(self)@,
            r ==> final(self).positions() == old(self).positions().reverse(),
            r ==> final(self).selection() == old(self).selection().reverse(),
            r ==> forall|i: int|
                #![trigger final(self).constraints()[i]]
                0 <= i < old(self)@.len() ==> {
                    let n = old(self)@.len() as int;
                    let k = n - 1 - cyc_next(n, i);
                    &&& final(self).constraints()[i] == old(self).constraints()[k]
                    &&& final(self).positions()[i] == old(self).positions()[cyc_next(n, k)]
                    &&& final(self).positions()[cyc_next(n, i)] == old(self).positions()[k]
                },
    {
        let positions = self.point_positions();
        if is_ccw(positions.as_slice()) {
            return false;
        }
        let ghost orig = self@;
        let n = self.points.len();
        let mut reversed: Vec<Point> = Vec::new();
        let mut i: usize = 0;
        while i < n
            invariant
                n == orig.len(),
                n >= 3,
                self@ == orig,
                0 <= i <= n,
                reversed@.len() == i,
                forall|j: int|
                    0 <= j < i ==> {
                        &&& (#[trigger] reversed@[j]).pos == orig[n - 1 - j].pos
                        &&& reversed@[j].is_selected == orig[n - 1 - j].is_selected
                        &&& reversed@[j].edge_constraint == orig[n - 1 - cyc_next(n as int, j)].edge_constraint
                    },
            decreases n - i,
        {
            let next = (i + 1) % n;
            let p = self.points[n - 1 - i];
            let c = self.points[n - 1 - next].edge_constraint;
            reversed.push(Point { edge_constraint: c, ..p });
            i = i + 1;
        }
        self.points = reversed;
        assert(pos_seq(self@) =~= pos_seq(orig).reverse());
        assert(all_in_range(pos_seq(self@))) by {
            assert forall|j: int| 0 <= j < n implies #[trigger] in_range(pos_seq(self@)[j]) by {
                assert(in_range(pos_seq(orig)[n - 1 - j]));
            }
        }
        let ghost before = self@;
        self.update_normals();
        assert(self.selection() =~= selection_seq(orig).reverse());
        proof {
            lemma_shoelace_reverse(pos_seq(orig));
            assert forall|i: int| 0 <= i < n implies {
                let k = n - 1 - cyc_next(n as int, i);
                &&& #[trigger] self.constraints()[i] == constraint_seq(orig)[k]
                &&& self.positions()[i] == pos_seq(orig)[cyc_next(n as int, k)]
                &&& self.positions()[cyc_next(n as int, i)] == pos_seq(orig)[k]
            } by {
                assert(constraint_seq(self@)[i] == constraint_seq(before)[i]);
                if i < n - 1 {
                    vstd::arithmetic::div_mod::lemma_small_mod((i + 1) as nat, n as nat);
                    vstd::arithmetic::div_mod::lemma_small_mod((n - 1 - i) as nat, n as nat);
                } else {
                    vstd::arithmetic::div_mod::lemma_mod_self_0(n as int);
                }
            }
        }
        true
    }

    /// Whether two non-adjacent edges cross properly.
    pub fn is_self_crossing(&self) -> (r: bool)
        requires
            self.wf(),
        ensures
            r == self_crossing(self.positions()),
    {
        let pts = self.point_positions();
        has_self_crossing(&pts)
    }

    /// For each edge, its proper crossings with non-adjacent edges, in
    /// increasing order of the other edge.
    pub fn get_self_crossing_edges(&self) -> (r: Vec<Vec<Crossing>>)
        requires
            self.wf(),
        ensures
            r@.len() == self@.len(),
            forall|e: int| 0 <= e < self@.len() ==> (#[trigger] r@[e])@ == edge_crossings(self.positions(), e),
    {
        let pts = self.point_positions();
        crossing_lists(&pts)
    }

    /// For each edge, its proper crossing nearest to the edge's start vertex,
    /// if it has one.
    pub fn crossing_map(&self) -> (r: Vec<Option<Crossing>>)
        requires
            self.wf(),
        ensures
            r@.len() == self@.len(),
            forall|e: int|
                0 <= e < self@.len() ==> #[trigger] r@[e] == nearest(
                    edge_crossings(self.positions(), e),
                    self.positions()[e],
                ),
    {
        let pts = self.point_positions();
        nearest_crossings(&pts)
    }

    /// The vertex positions as a coordinate list.
    pub fn get_raw(&self) -> (r: RawPolygonCoords)
        requires
            self.wf(),
        ensures
            r.coords@ == raw_of(self.positions()),
    {
        let pts = self.point_positions();
        RawPolygonCoords::from_points(&pts)
    }

    /// Replaces every vertex by the positions of a coordinate list, in order,
    /// unconstrained and unselected.
    pub fn set_points_from_raw(&mut self, raw_polygon: RawPolygonCoords)
        requires
            raw_polygon.coords@.len() < isize::MAX,
            all_in_range(positions_of(raw_polygon.coords@)),
        ensures
            final(self).wf(),
            final(self).positions() == positions_of(raw_polygon.coords@),
            forall|i: int|
                0 <= i < raw_polygon.coords@.len() ==> #[trigger] final(self).constraints()[i]
                    == EdgeConstraint::Unconstrained,
            forall|i: int| 0 <= i < raw_polygon.coords@.len() ==> !#[trigger] final(self).selection()[i],
            final(self).name_view() == old(self).name_view(),
    {
        let mut pts: Vec<Vec2> = Vec::new();
        let mut i: usize = 0;
        while i < raw_polygon.coords.len()
            invariant
                0 <= i <= raw_polygon.coords@.len(),
                pts@ =~= positions_of(raw_polygon.coords@).take(i as int),
            decreases raw_polygon.coords@.len() - i,
        {
            let c = raw_polygon.coords[i];
            pts.push(Vec2 { x: c.x, y: c.y });
            i = i + 1;
        }
        assert(positions_of(raw_polygon.coords@).take(raw_polygon.coords@.len() as int)
            =~= positions_of(raw_polygon.coords@));
        let created = Polygon::create(pts);
        assert(created@.len() == raw_polygon.coords@.len()) by {
            assert(created.positions().len() == created@.len());
        }
        self.points = created.points;
        assert forall|i: int| 0 <= i < raw_polygon.coords@.len() implies !#[trigger] self.selection()[i] by {
            assert(!created.selection()[i]);
        }
        assert forall|i: int| 0 <= i < raw_polygon.coords@.len() implies #[trigger] self.constraints()[i]
            == EdgeConstraint::Unconstrained by {
            assert(created.constraints()[i] == EdgeConstraint::Unconstrained);
        }
    }

    /// Sets the axis constraint of edge `id` (cyclic) and snaps its two
    /// endpoints onto a common axis line. Rejected, leaving the polygon
    /// unchanged, when the constraint is an axis that a neighbouring edge
    /// already has, or when the snapped polygon would cross itself.
    pub fn set_constraint(&mut self, id: isize, constraint: EdgeConstraint) -> (r: Result<(), PolygonError>)
        requires
            old(self).wf(),
            old(self)@.len() > 0,
        ensures
            final(self).wf(),
            final(self).name_view() == old(self).name_view(),
            ({
                let n = old(self)@.len() as int;
                let i = old(self).wrap(id as int);
                let j = cyc_next(n, i);
                let conflict = constraint != EdgeConstraint::Unconstrained && (constraint
                    == old(self).constraints()[cyc_prev(n, i)] || constraint
                    == old(self).constraints()[j]);
                let moved = snapped(old(self).positions(), i, j, constraint);
                &&& conflict ==> r == Err::<(), PolygonError>(PolygonError::NeighbourConflict)
                    && *final(self) == *old(self)
                &&& !conflict && self_crossing(moved) ==> r == Err::<(), PolygonError>(
                    PolygonError::WouldSelfCross,
                ) && *final(self) == *old(self)
                &&& !conflict && !self_crossing(moved) ==> r is Ok && final(self).positions()
                    == moved && final(self).constraints() == old(self).constraints().update(
                    i,
                    constraint,
                ) && final(self).selection() == old(self).selection()
            }),
    {
        let n = self.points.len();
        let i = self.fix_index(id);
        let j = (i + 1) % n;
        let prev = (i + n - 1) % n;
        if constraint != EdgeConstraint::Unconstrained && (constraint
            == self.points[prev].edge_constraint || constraint == self.points[j].edge_constraint) {
            return Err(PolygonError::NeighbourConflict);
        }
        let p0 = self.points[i].pos;
        let p1 = self.points[j].pos;
        assert(in_range(self.positions()[i as int]) && in_range(self.positions()[j as int]));
        let (q0, q1) = match constraint {
            EdgeConstraint::Horizontal => {
                let avg = ((p0.y as i128 + p1.y as i128) / 2) as i64;
                (Vec2 { x: p0.x, y: avg }, Vec2 { x: p1.x, y: avg })
            },
            EdgeConstraint::Vertical => {
                let avg = ((p0.x as i128 + p1.x as i128) / 2) as i64;
                (Vec2 { x: avg, y: p0.y }, Vec2 { x: avg, y: p1.y })
            },
            EdgeConstraint::Unconstrained => (p0, p1),
        };
        let mut moved = self.point_positions();
        moved.set(i, q0);
        moved.set(j, q1);
        proof {
            assert(moved@ =~= snapped(self.positions(), i as int, j as int, constraint));
            assert forall|k: int| 0 <= k < moved@.len() implies #[trigger] in_range(moved@[k]) by {
                assert(in_range(self.positions()[k]));
            }
        }
        if has_self_crossing(&moved) {
            return Err(PolygonError::WouldSelfCross);
        }
        self.update_point_pos(q0, i as isize);
        proof {
            vstd::arithmetic::div_mod::lemma_small_mod(i as nat, n as nat);
            vstd::arithmetic::div_mod::lemma_small_mod(j as nat, n as nat);
        }
        self.update_point_pos(q1, j as isize);
        self.set_edge_contsraint(i as isize, constraint);
        proof {
            assert(self.positions() =~= moved@);
            assert(self.constraints() =~= old(self).constraints().update(i as int, constraint));
            assert(self.selection() =~= old(self).selection());
        }
        Ok(())
    }

    /// Moves every vertex to the position of the same index in `positions`;
    /// constraints and selection are kept.
    pub fn replace_positions(&mut self, positions: &Vec<Vec2>)
        requires
            old(self).wf(),
            positions@.len() == old(self)@.len(),
            all_in_range(positions@),
        ensures
            final(self).wf(),
            final(self).positions() == positions@,
            final(self).constraints() == old(self).constraints(),
            final(self).selection() == old(self).selection(),
            final(self).name_view() == old(self).name_view(),
    {
        let n = self.points.len();
        let mut i: usize = 0;
        while i < n
            invariant
                n == self@.len(),
                n == positions@.len(),
                n < isize::MAX,
                0 <= i <= n,
                self.name@ == old(self).name@,
                forall|j: int| 0 <= j < i ==> (#[trigger] self@[j]).pos == positions@[j],
                forall|j: int| i <= j < n ==> (#[trigger] self@[j]).pos == old(self)@[j].pos,
                constraint_seq(self@) == constraint_seq(old(self)@),
                selection_seq(self@) == selection_seq(old(self)@),
            decreases n - i,
        {
            let mut p = self.points[i];
            p.update_pos(positions[i]);
            self.points.set(i, p);
            assert(constraint_seq(self@) =~= constraint_seq(old(self)@));
            assert(selection_seq(self@) =~= selection_seq(old(self)@));
            i = i + 1;
        }
        assert(pos_seq(self@) =~= positions@);
        self.update_normals();
    }

    /// The average of the vertex positions, each coordinate rounded toward
    /// zero.
    pub fn find_center(&self) -> (r: Vec2)
        requires
            self.wf(),
            self@.len() > 0,
        ensures
            r.x == crate::geometry::div_trunc(coord_sum(self.positions(), self@.len() as int, true), self@.len() as int),
            r.y == crate::geometry::div_trunc(coord_sum(self.positions(), self@.len() as int, false), self@.len() as int),
    {
        let n = self.points.len();
        let mut sx: i128 = 0;
        let mut sy: i128 = 0;
        let mut i: usize = 0;
        while i < n
            invariant
                self.wf(),
                n == self@.len(),
                0 <= i <= n,
                sx == coord_sum(self.positions(), i as int, true),
                sy == coord_sum(self.positions(), i as int, false),
                -(i as int) * COORD_LIMIT <= sx <= (i as int) * COORD_LIMIT,
                -(i as int) * COORD_LIMIT <= sy <= (i as int) * COORD_LIMIT,
            decreases n - i,
        {
            assert(in_range(self.positions()[i as int]));
            let p = self.points[i].pos;
            sx = sx + p.x as i128;
            sy = sy + p.y as i128;
            i = i + 1;
        }
        proof {
            crate::geometry::lemma_average_bound(sx as int, n as int);
            crate::geometry::lemma_average_bound(sy as int, n as int);
        }
        Vec2 { x: (sx / n as i128) as i64, y: (sy / n as i128) as i64 }
    }
}

} // verus!
