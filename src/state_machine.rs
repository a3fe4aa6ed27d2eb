//! The editing modes of the surrounding editor and the context they act on.
//! Entering a mode sets whether the edited polygons show their hover state.
use vstd::prelude::*;
use crate::geometry::{Vec2, in_range, shoelace};
use crate::object::{PolygonObject, count_true};
use crate::factory::PolygonObjectFactory;
use crate::polygon::cyc_next;
use crate::crossing::self_crossing;
use crate::offset::MAX_OFFSET_VERTICES;

verus! {

/// The polygon being drawn and the polygons being edited.
pub struct AppContext {
    pub polygon_obj_factory: PolygonObjectFactory,
    pub polygon_objs: Vec<PolygonObject>,
}

/// The object shows a hovered vertex or edge.
pub open spec fn is_hovered(o: PolygonObject) -> bool {
    o.point_hovered() is Some || o.line_hovered() is Some
}

/// The selection that a click on the hovered vertex or edge of `o` adds.
pub open spec fn with_hovered_selected(o: PolygonObject) -> Seq<bool> {
    select_hovered_in(o, o.poly().selection())
}

/// `sel` with the hovered vertex, or both vertices of the hovered edge, of
/// `o` selected.
pub open spec fn select_hovered_in(o: PolygonObject, sel: Seq<bool>) -> Seq<bool> {
    match o.point_hovered() {
        Some(k) => sel.update(k, true),
        None => match o.line_hovered() {
            Some(k) => sel.update(k, true).update(cyc_next(sel.len() as int, k), true),
            None => sel,
        },
    }
}

/// `new` is `old` with the hovered vertex or edge of the first polygon that
/// shows one selected, or unchanged when no polygon shows one.
pub open spec fn selected_first_hovered(new: Seq<PolygonObject>, old: Seq<PolygonObject>) -> bool {
    &&& new.len() == old.len()
    &&& !(exists|k: int| 0 <= k < old.len() && #[trigger] is_hovered(old[k])) ==> forall|j: int|
        0 <= j < old.len() ==> (#[trigger] new[j]).poly() == old[j].poly()
    &&& (exists|k: int| 0 <= k < old.len() && #[trigger] is_hovered(old[k])) ==> exists|k: int|
        0 <= k < old.len() && #[trigger] is_hovered(old[k]) && (forall|j: int|
            0 <= j < k ==> !is_hovered(#[trigger] old[j])) && new[k].poly().selection()
            == with_hovered_selected(old[k]) && new[k].poly().positions() == old[k].poly().positions()
            && (forall|j: int| 0 <= j < old.len() && j != k ==> (#[trigger] new[j]).poly() == old[j].poly())
}

/// `new` is `old` after one point edit on some polygon `k`: the removal of
/// its hovered vertex (it had more than three), or the insertion of a vertex
/// at its insertion position on its hovered edge.
pub open spec fn edited_one(new: Seq<PolygonObject>, old: Seq<PolygonObject>) -> bool {
    exists|k: int|
        0 <= k < old.len() && #[trigger] is_hovered(old[k]) && ({
            let o = old[k];
            let s = o.poly().positions();
            ||| (o.point_hovered() matches Some(id) && s.len() > 3 && new[k].poly().positions()
                == s.remove(id))
            ||| (o.point_hovered() is None && o.line_hovered() is Some && o.insertion() is Some
                && new[k].poly().positions() == s.insert(
                cyc_next(s.len() as int, o.line_hovered().unwrap()),
                o.insertion().unwrap(),
            ))
        })
}

/// The hovered vertex, or both vertices of the hovered edge, of `o` are
/// selected.
pub open spec fn hovered_selected(o: PolygonObject) -> bool {
    let sel = o.poly().selection();
    match o.point_hovered() {
        Some(k) => sel[k],
        None => match o.line_hovered() {
            Some(k) => sel[k] && sel[cyc_next(sel.len() as int, k)],
            None => false,
        },
    }
}

/// `new` is `old` after a click that picks the hovered element of the
/// first polygon `k` showing one: when it was not selected, every polygon is
/// deselected and only it is selected; otherwise nothing changes.
pub open spec fn picked_first_hovered(new: Seq<PolygonObject>, old: Seq<PolygonObject>) -> bool {
    exists|k: int|
        0 <= k < old.len() && #[trigger] is_hovered(old[k]) && (forall|j: int|
            0 <= j < k ==> !is_hovered(#[trigger] old[j])) && (hovered_selected(old[k]) ==> forall|j: int|
            0 <= j < old.len() ==> (#[trigger] new[j]).poly() == old[j].poly()) && (!hovered_selected(old[k]) ==> (forall|j: int|
            0 <= j < old.len() ==> (#[trigger] new[j]).poly().positions() == old[j].poly().positions())
            && (forall|j: int|
            0 <= j < old.len() && j != k ==> (#[trigger] new[j]).poly().selection() == Seq::new(
                old[j].poly()@.len(),
                |i: int| false,
            )) && new[k].poly().selection() == select_hovered_in(
            old[k],
            Seq::new(old[k].poly()@.len(), |i: int| false),
        ))
}

/// The selection of `o` after a ctrl-click on its hovered element: a hovered
/// vertex flips; a hovered edge is deselected when both its vertices are
/// selected, else both are selected.
pub open spec fn toggled(o: PolygonObject) -> Seq<bool> {
    let sel = o.poly().selection();
    match o.point_hovered() {
        Some(k) => sel.update(k, !sel[k]),
        None => match o.line_hovered() {
            Some(k) => {
                let k2 = cyc_next(sel.len() as int, k);
                if sel[k] && sel[k2] {
                    sel.update(k, false).update(k2, false)
                } else {
                    sel.update(k, true).update(k2, true)
                }
            },
            None => sel,
        },
    }
}

/// Polygon `k` of `new` is polygon `k` of `old` with its hovered element
/// toggled, when `k <= last` and it shows one; otherwise it is unchanged.
pub open spec fn toggled_at(new: Seq<PolygonObject>, old: Seq<PolygonObject>, k: int, last: int) -> bool {
    &&& new[k].poly().positions() == old[k].poly().positions()
    &&& k <= last && is_hovered(old[k]) ==> new[k].poly().selection() == toggled(old[k])
    &&& !(k <= last && is_hovered(old[k])) ==> new[k].poly() == old[k].poly()
}

/// Some polygon shows a hovered vertex or edge.
pub open spec fn any_hovered(objs: Seq<PolygonObject>) -> bool {
    exists|k: int| 0 <= k < objs.len() && #[trigger] is_hovered(objs[k])
}

impl AppContext {
    pub open spec fn wf(&self) -> bool {
        &&& self.polygon_obj_factory.wf()
        &&& forall|i: int| 0 <= i < self.polygon_objs@.len() ==> (#[trigger] self.polygon_objs@[i]).wf()
    }

    /// No polygon, nothing being drawn.
    pub fn new() -> (r: AppContext)
        ensures
            r.wf(),
            r.polygon_objs@.len() == 0,
            r.polygon_obj_factory.building() is None,
    {
        AppContext { polygon_obj_factory: PolygonObjectFactory::new(), polygon_objs: Vec::new() }
    }

    /// `self` holds the polygons of `old` with the hover display disabled
    /// exactly when `disabled`, and nothing else changed.
    pub open spec fn hover_set_from(&self, old: AppContext, disabled: bool) -> bool {
        &&& self.polygon_objs@.len() == old.polygon_objs@.len()
        &&& self.polygon_obj_factory == old.polygon_obj_factory
        &&& forall|i: int|
            0 <= i < self.polygon_objs@.len() ==> {
                let o = #[trigger] self.polygon_objs@[i];
                &&& o.hover_disabled() == disabled
                &&& o.poly() == old.polygon_objs@[i].poly()
                &&& o.offset_poly() == old.polygon_objs@[i].offset_poly()
                &&& o.point_hovered() == old.polygon_objs@[i].point_hovered()
                &&& o.line_hovered() == old.polygon_objs@[i].line_hovered()
            }
    }

    /// Disables or enables the hover display of every polygon.
    pub fn set_hover_disabled(&mut self, disabled: bool)
        requires
            old(self).wf(),
        ensures
            final(self).wf(),
            final(self).hover_set_from(*old(self), disabled),
    {
        let n = self.polygon_objs.len();
        let mut i: usize = 0;
        while i < n
            invariant
                self.wf(),
                n == self.polygon_objs@.len(),
                n == old(self).polygon_objs@.len(),
                self.polygon_obj_factory == old(self).polygon_obj_factory,
                0 <= i <= n,
                forall|j: int| i <= j < n ==> #[trigger] self.polygon_objs@[j] == old(self).polygon_objs@[j],
                forall|j: int|
                    0 <= j < i ==> {
                        let o = #[trigger] self.polygon_objs@[j];
                        &&& o.hover_disabled() == disabled
                        &&& o.poly() == old(self).polygon_objs@[j].poly()
                        &&& o.offset_poly() == old(self).polygon_objs@[j].offset_poly()
                        &&& o.point_hovered() == old(self).polygon_objs@[j].point_hovered()
                        &&& o.line_hovered() == old(self).polygon_objs@[j].line_hovered()
                    },
            decreases n - i,
        {
            let mut o = self.polygon_objs.remove(i);
            assert(o == old(self).polygon_objs@[i as int]);
            assert(o.wf());
            if disabled {
                o.disable_hover_show();
            } else {
                o.enable_hover_show();
            }
            self.polygon_objs.insert(i, o);
            i = i + 1;
        }
    }
}

impl AppContext {
    /// Selects the hovered vertex, or both vertices of the hovered edge, of
    /// the first polygon that shows one. Returns whether there was one.
    pub fn select_first_hovered(&mut self) -> (r: bool)
        requires
            old(self).wf(),
        ensures
            final(self).wf(),
            final(self).polygon_obj_factory == old(self).polygon_obj_factory,
            final(self).polygon_objs@.len() == old(self).polygon_objs@.len(),
            r == any_hovered(old(self).polygon_objs@),
            !r ==> final(self).polygon_objs@ == old(self).polygon_objs@,
            selected_first_hovered(final(self).polygon_objs@, old(self).polygon_objs@),
    {
        let n = self.polygon_objs.len();
        let mut i: usize = 0;
        while i < n
            invariant
                *self == *old(self),
                self.wf(),
                n == self.polygon_objs@.len(),
                0 <= i <= n,
                forall|j: int| 0 <= j < i ==> !is_hovered(#[trigger] self.polygon_objs@[j]),
            decreases n - i,
        {
            assert(self.polygon_objs@[i as int].wf());
            if self.polygon_objs[i].is_point_hovered() || self.polygon_objs[i].is_line_hovered() {
                let ghost before = self.polygon_objs@;
                let mut o = self.polygon_objs.remove(i);
                assert(o == before[i as int]);
                let m = o.polygon().points_count();
                if o.is_point_hovered() {
                    let id = o.get_hovered_point_id();
                    proof {
                        vstd::arithmetic::div_mod::lemma_small_mod(id as nat, m as nat);
                    }
                    o.select_point(id as isize);
                } else {
                    let (a, b) = o.get_hovered_line_ids();
                    proof {
                        vstd::arithmetic::div_mod::lemma_small_mod(a as nat, m as nat);
                        vstd::arithmetic::div_mod::lemma_small_mod(b as nat, m as nat);
                    }
                    o.select_point(a as isize);
                    o.select_point(b as isize);
                }
                self.polygon_objs.insert(i, o);
                assert(forall|j: int| 0 <= j < n && j != i ==> #[trigger] self.polygon_objs@[j] == before[j]);
                assert(is_hovered(before[i as int]));
                assert(self.polygon_objs@[i as int].poly().selection() == with_hovered_selected(before[i as int]));
                return true;
            }
            i = i + 1;
        }
        false
    }

    /// Deselects every vertex of every polygon.
    pub fn deselect_everything(&mut self)
        requires
            old(self).wf(),
        ensures
            final(self).wf(),
            final(self).polygon_obj_factory == old(self).polygon_obj_factory,
            final(self).polygon_objs@.len() == old(self).polygon_objs@.len(),
            forall|k: int|
                0 <= k < old(self).polygon_objs@.len() ==> {
                    let o = #[trigger] final(self).polygon_objs@[k];
                    &&& o.poly().positions() == old(self).polygon_objs@[k].poly().positions()
                    &&& o.poly().selection() == Seq::new(o.poly()@.len(), |i: int| false)
                },
    {
        let n = self.polygon_objs.len();
        let mut i: usize = 0;
        while i < n
            invariant
                self.wf(),
                n == self.polygon_objs@.len(),
                n == old(self).polygon_objs@.len(),
                self.polygon_obj_factory == old(self).polygon_obj_factory,
                0 <= i <= n,
                forall|j: int| i <= j < n ==> #[trigger] self.polygon_objs@[j] == old(self).polygon_objs@[j],
                forall|k: int|
                    0 <= k < i ==> {
                        let o = #[trigger] self.polygon_objs@[k];
                        &&& o.poly().positions() == old(self).polygon_objs@[k].poly().positions()
                        &&& o.poly().selection() == Seq::new(o.poly()@.len(), |i: int| false)
                    },
            decreases n - i,
        {
            let mut o = self.polygon_objs.remove(i);
            assert(o.wf());
            o.deselect_all_points();
            assert(o.poly()@.len() == o.poly().positions().len());
            self.polygon_objs.insert(i, o);
            i = i + 1;
        }
    }

    /// Refreshes the hover state of every polygon for the mouse at `m`; with
    /// `insertion`, first their insertion state.
    pub fn track_mouse(&mut self, m: Vec2, insertion: bool)
        requires
            old(self).wf(),
            in_range(m),
        ensures
            final(self).wf(),
            final(self).polygon_obj_factory == old(self).polygon_obj_factory,
            final(self).polygon_objs@.len() == old(self).polygon_objs@.len(),
            forall|k: int|
                0 <= k < old(self).polygon_objs@.len() ==> (#[trigger] final(self).polygon_objs@[k]).poly()
                    == old(self).polygon_objs@[k].poly(),
    {
        let n = self.polygon_objs.len();
        let mut i: usize = 0;
        while i < n
            invariant
                self.wf(),
                in_range(m),
                n == self.polygon_objs@.len(),
                n == old(self).polygon_objs@.len(),
                self.polygon_obj_factory == old(self).polygon_obj_factory,
                0 <= i <= n,
                forall|j: int| i <= j < n ==> #[trigger] self.polygon_objs@[j] == old(self).polygon_objs@[j],
                forall|k: int|
                    0 <= k < i ==> (#[trigger] self.polygon_objs@[k]).poly() == old(self).polygon_objs@[k].poly(),
            decreases n - i,
        {
            let mut o = self.polygon_objs.remove(i);
            assert(o.wf());
            if insertion {
                o.update_insertion(m);
            }
            o.update_hover(m);
            self.polygon_objs.insert(i, o);
            i = i + 1;
        }
    }

    /// Moves the selected vertices of every polygon by `v`.
    pub fn move_all_selected(&mut self, v: Vec2)
        requires
            old(self).wf(),
        ensures
            final(self).wf(),
            final(self).polygon_obj_factory == old(self).polygon_obj_factory,
            final(self).polygon_objs@.len() == old(self).polygon_objs@.len(),
            forall|k: int|
                0 <= k < old(self).polygon_objs@.len() ==> {
                    let o = old(self).polygon_objs@[k];
                    &&& (#[trigger] final(self).polygon_objs@[k]).poly().positions() == crate::object::moved(
                        o.poly().positions(),
                        o.poly().selection(),
                        o.poly().constraints(),
                        v,
                    )
                    &&& final(self).polygon_objs@[k].poly().selection() == o.poly().selection()
                },
    {
        let n = self.polygon_objs.len();
        let mut i: usize = 0;
        while i < n
            invariant
                self.wf(),
                n == self.polygon_objs@.len(),
                n == old(self).polygon_objs@.len(),
                self.polygon_obj_factory == old(self).polygon_obj_factory,
                0 <= i <= n,
                forall|j: int| i <= j < n ==> #[trigger] self.polygon_objs@[j] == old(self).polygon_objs@[j],
                forall|k: int|
                    0 <= k < i ==> {
                        let o = old(self).polygon_objs@[k];
                        &&& (#[trigger] self.polygon_objs@[k]).poly().positions() == crate::object::moved(
                            o.poly().positions(),
                            o.poly().selection(),
                            o.poly().constraints(),
                            v,
                        )
                        &&& self.polygon_objs@[k].poly().selection() == o.poly().selection()
                    },
            decreases n - i,
        {
            let mut o = self.polygon_objs.remove(i);
            assert(o.wf());
            o.move_selected_points(v);
            self.polygon_objs.insert(i, o);
            i = i + 1;
        }
    }

    /// Ends a drag from `start` to `mouse_pos`: a polygon that now crosses
    /// itself has its selected vertices moved back by `start - mouse_pos`;
    /// the others are made counter-clockwise.
    pub fn finish_drag(&mut self, start: Vec2, mouse_pos: Vec2)
        requires
            old(self).wf(),
            in_range(start),
            in_range(mouse_pos),
        ensures
            final(self).wf(),
            final(self).polygon_obj_factory == old(self).polygon_obj_factory,
            final(self).polygon_objs@.len() == old(self).polygon_objs@.len(),
            forall|k: int|
                0 <= k < old(self).polygon_objs@.len() ==> {
                    let o = old(self).polygon_objs@[k];
                    let back = Vec2 { x: (start.x - mouse_pos.x) as i64, y: (start.y - mouse_pos.y) as i64 };
                    &&& self_crossing(o.poly().positions()) ==> (#[trigger] final(self).polygon_objs@[k]).poly().positions()
                        == crate::object::moved(o.poly().positions(), o.poly().selection(), o.poly().constraints(), back)
                    &&& !self_crossing(o.poly().positions()) ==> crate::geometry::shoelace(
                        final(self).polygon_objs@[k].poly().positions(),
                    ) >= 0
                },
    {
        let back = Vec2 { x: start.x - mouse_pos.x, y: start.y - mouse_pos.y };
        let n = self.polygon_objs.len();
        let mut i: usize = 0;
        while i < n
            invariant
                self.wf(),
                back == (Vec2 { x: (start.x - mouse_pos.x) as i64, y: (start.y - mouse_pos.y) as i64 }),
                n == self.polygon_objs@.len(),
                n == old(self).polygon_objs@.len(),
                self.polygon_obj_factory == old(self).polygon_obj_factory,
                0 <= i <= n,
                forall|j: int| i <= j < n ==> #[trigger] self.polygon_objs@[j] == old(self).polygon_objs@[j],
                forall|k: int|
                    0 <= k < i ==> {
                        let o = old(self).polygon_objs@[k];
                        &&& self_crossing(o.poly().positions()) ==> (#[trigger] self.polygon_objs@[k]).poly().positions()
                            == crate::object::moved(o.poly().positions(), o.poly().selection(), o.poly().constraints(), back)
                        &&& !self_crossing(o.poly().positions()) ==> crate::geometry::shoelace(
                            self.polygon_objs@[k].poly().positions(),
                        ) >= 0
                    },
            decreases n - i,
        {
            let mut o = self.polygon_objs.remove(i);
            assert(o.wf());
            if o.polygon().is_self_crossing() {
                o.move_selected_points(back);
            } else {
                o.assert_ccw();
            }
            self.polygon_objs.insert(i, o);
            i = i + 1;
        }
    }
}

/// No edit in progress: hovering shows which vertex or edge a click picks.
pub struct IdleState;

impl IdleState {
    /// Enters the idle mode: every polygon shows its hover state.
    pub fn new(app_ctx: &mut AppContext) -> (r: IdleState)
        requires
            old(app_ctx).wf(),
        ensures
            final(app_ctx).wf(),
            final(app_ctx).hover_set_from(*old(app_ctx), false),
    {
        app_ctx.set_hover_disabled(false);
        IdleState
    }
}

/// A new polygon is being drawn.
pub struct AddPolygonState;

impl AddPolygonState {
    /// Enters the drawing mode: no polygon shows its hover state.
    pub fn new(app_ctx: &mut AppContext) -> (r: AddPolygonState)
        requires
            old(app_ctx).wf(),
        ensures
            final(app_ctx).wf(),
            final(app_ctx).hover_set_from(*old(app_ctx), true),
    {
        app_ctx.set_hover_disabled(true);
        AddPolygonState
    }
}

/// Some vertices are selected.
pub struct SelectionState;

impl SelectionState {
    /// Enters the selection mode: every polygon shows its hover state.
    pub fn new(app_ctx: &mut AppContext) -> (r: SelectionState)
        requires
            old(app_ctx).wf(),
        ensures
            final(app_ctx).wf(),
            final(app_ctx).hover_set_from(*old(app_ctx), false),
    {
        app_ctx.set_hover_disabled(false);
        SelectionState
    }
}

/// The selected vertices are being dragged.
pub struct DraggingState {
    pub prev_mouse_point: Vec2,
    pub start_mouse_point: Vec2,
}

impl DraggingState {
    /// Starts a drag at `mouse_pos`: no polygon shows its hover state.
    pub fn new(mouse_pos: Vec2, app_ctx: &mut AppContext) -> (r: DraggingState)
        requires
            old(app_ctx).wf(),
        ensures
            final(app_ctx).wf(),
            final(app_ctx).hover_set_from(*old(app_ctx), true),
            r.prev_mouse_point == mouse_pos,
            r.start_mouse_point == mouse_pos,
    {
        app_ctx.set_hover_disabled(true);
        DraggingState { prev_mouse_point: mouse_pos, start_mouse_point: mouse_pos }
    }
}

/// Clicks insert or remove vertices.
pub struct EditPointsState;

impl EditPointsState {
    /// Enters the point-editing mode: every polygon shows its hover state.
    pub fn new(app_ctx: &mut AppContext) -> (r: EditPointsState)
        requires
            old(app_ctx).wf(),
        ensures
            final(app_ctx).wf(),
            final(app_ctx).hover_set_from(*old(app_ctx), false),
    {
        app_ctx.set_hover_disabled(false);
        EditPointsState
    }
}


/// The editor's current mode.
pub enum EditorState {
    Idle(IdleState),
    AddPolygon(AddPolygonState),
    Selection(SelectionState),
    Dragging(DraggingState),
    EditPoints(EditPointsState),
}

/// The outcome of a ctrl-click in the selection mode.
enum Toggle {
    /// Some polygon's selection became empty.
    Emptied,
    /// Selections were toggled.
    Toggled,
    /// No polygon shows a hovered vertex or edge.
    NothingHovered,
}

impl AppContext {
    /// Selects every vertex of the first polygon that shows a hovered vertex
    /// or edge. Returns whether there was one.
    fn select_all_of_first_hovered(&mut self) -> (r: bool)
        requires
            old(self).wf(),
        ensures
            final(self).wf(),
            final(self).polygon_obj_factory == old(self).polygon_obj_factory,
            final(self).polygon_objs@.len() == old(self).polygon_objs@.len(),
            r == any_hovered(old(self).polygon_objs@),
    {
        let n = self.polygon_objs.len();
        let mut i: usize = 0;
        while i < n
            invariant
                *self == *old(self),
                self.wf(),
                n == self.polygon_objs@.len(),
                0 <= i <= n,
                forall|j: int| 0 <= j < i ==> !is_hovered(#[trigger] self.polygon_objs@[j]),
            decreases n - i,
        {
            assert(self.polygon_objs@[i as int].wf());
            if self.polygon_objs[i].is_point_hovered() || self.polygon_objs[i].is_line_hovered() {
                let ghost before = self.polygon_objs@;
                let mut o = self.polygon_objs.remove(i);
                assert(o == before[i as int]);
                o.select_all_points();
                self.polygon_objs.insert(i, o);
                assert(is_hovered(before[i as int]));
                return true;
            }
            i = i + 1;
        }
        false
    }

    /// Selects every vertex of each polygon that shows a hovered vertex or
    /// edge; when none does, deselects everything.
    fn select_all_of_hovered(&mut self)
        requires
            old(self).wf(),
        ensures
            final(self).wf(),
            final(self).polygon_obj_factory == old(self).polygon_obj_factory,
            final(self).polygon_objs@.len() == old(self).polygon_objs@.len(),
            forall|k: int|
                0 <= k < old(self).polygon_objs@.len() ==> {
                    let o = old(self).polygon_objs@[k];
                    let f = #[trigger] final(self).polygon_objs@[k];
                    &&& f.poly().positions() == o.poly().positions()
                    &&& is_hovered(o) ==> f.poly().selection() == Seq::new(o.poly()@.len(), |i: int| true)
                    &&& !any_hovered(old(self).polygon_objs@) ==> f.poly().selection() == Seq::new(
                        o.poly()@.len(),
                        |i: int| false,
                    )
                    &&& any_hovered(old(self).polygon_objs@) && !is_hovered(o) ==> f == o
                },
    {
        let n = self.polygon_objs.len();
        let mut any = false;
        let mut i: usize = 0;
        while i < n
            invariant
                self.wf(),
                n == self.polygon_objs@.len(),
                n == old(self).polygon_objs@.len(),
                self.polygon_obj_factory == old(self).polygon_obj_factory,
                0 <= i <= n,
                any == exists|j: int| 0 <= j < i && #[trigger] is_hovered(old(self).polygon_objs@[j]),
                forall|j: int| i <= j < n ==> #[trigger] self.polygon_objs@[j] == old(self).polygon_objs@[j],
                forall|k: int|
                    0 <= k < i ==> {
                        let o = old(self).polygon_objs@[k];
                        let f = #[trigger] self.polygon_objs@[k];
                        &&& f.poly().positions() == o.poly().positions()
                        &&& is_hovered(o) ==> f.poly().selection() == Seq::new(o.poly()@.len(), |i: int| true)
                        &&& !is_hovered(o) ==> f == o
                    },
            decreases n - i,
        {
            assert(self.polygon_objs@[i as int].wf());
            assert(self.polygon_objs@[i as int] == old(self).polygon_objs@[i as int]);
            if self.polygon_objs[i].is_point_hovered() || self.polygon_objs[i].is_line_hovered() {
                assert(is_hovered(old(self).polygon_objs@[i as int]));
                let mut o = self.polygon_objs.remove(i);
                o.select_all_points();
                self.polygon_objs.insert(i, o);
                any = true;
            } else {
                assert(!is_hovered(old(self).polygon_objs@[i as int]));
                assert((exists|j: int| 0 <= j < i + 1 && #[trigger] is_hovered(old(self).polygon_objs@[j]))
                    == (exists|j: int| 0 <= j < i && #[trigger] is_hovered(old(self).polygon_objs@[j])));
            }
            i = i + 1;
        }
        assert(any == any_hovered(old(self).polygon_objs@));
        if !any {
            let ghost before = self.polygon_objs@;
            self.deselect_everything();
            assert forall|k: int| 0 <= k < n implies #[trigger] before[k] == old(self).polygon_objs@[k] by {
                assert(!is_hovered(old(self).polygon_objs@[k]));
            }
            assert forall|k: int| 0 <= k < n implies {
                let o = old(self).polygon_objs@[k];
                let f = #[trigger] self.polygon_objs@[k];
                &&& f.poly().positions() == o.poly().positions()
                &&& !is_hovered(o)
                &&& f.poly().selection() == Seq::new(o.poly()@.len(), |i: int| false)
            } by {
                let o = old(self).polygon_objs@[k];
                let f = self.polygon_objs@[k];
                assert(!is_hovered(o));
                assert(f.poly()@.len() == f.poly().positions().len());
                assert(o.poly()@.len() == o.poly().positions().len());
            }
        }
    }

    /// A click in the selection mode: when the first polygon showing a
    /// hovered vertex or edge has it unselected, everything is deselected
    /// and it is selected instead. Returns whether some polygon showed one.
    fn click_select(&mut self) -> (r: bool)
        requires
            old(self).wf(),
        ensures
            final(self).wf(),
            final(self).polygon_obj_factory == old(self).polygon_obj_factory,
            final(self).polygon_objs@.len() == old(self).polygon_objs@.len(),
            r == any_hovered(old(self).polygon_objs@),
            !r ==> final(self).polygon_objs@ == old(self).polygon_objs@,
            r ==> picked_first_hovered(final(self).polygon_objs@, old(self).polygon_objs@),
    {
        let n = self.polygon_objs.len();
        let mut i: usize = 0;
        while i < n
            invariant
                *self == *old(self),
                self.wf(),
                n == self.polygon_objs@.len(),
                0 <= i <= n,
                forall|j: int| 0 <= j < i ==> !is_hovered(#[trigger] self.polygon_objs@[j]),
            decreases n - i,
        {
            assert(self.polygon_objs@[i as int].wf());
            let ghost before = self.polygon_objs@;
            let m = self.polygon_objs[i].polygon().points_count();
            if self.polygon_objs[i].is_point_hovered() {
                let id = self.polygon_objs[i].get_hovered_point_id();
                proof {
                    vstd::arithmetic::div_mod::lemma_small_mod(id as nat, m as nat);
                }
                if !self.polygon_objs[i].is_point_selected(id as isize) {
                    self.deselect_everything();
                    let ghost mid = self.polygon_objs@;
                    let mut o = self.polygon_objs.remove(i);
                    assert(o == mid[i as int]);
                    assert(o.poly()@.len() == o.poly().positions().len());
                    assert(before[i as int].poly()@.len() == before[i as int].poly().positions().len());
                    o.select_point(id as isize);
                    self.polygon_objs.insert(i, o);
                    proof {
                        assert forall|j: int| 0 <= j < n && j != i implies (#[trigger] self.polygon_objs@[j]).poly().selection()
                            == Seq::new(before[j].poly()@.len(), |i: int| false) by {
                            assert(self.polygon_objs@[j] == mid[j]);
                            assert(mid[j].poly()@.len() == mid[j].poly().positions().len());
                            assert(before[j].poly()@.len() == before[j].poly().positions().len());
                        }
                        assert forall|j: int| 0 <= j < n implies (#[trigger] self.polygon_objs@[j]).poly().positions()
                            == before[j].poly().positions() by {
                            if j != i {
                                assert(self.polygon_objs@[j] == mid[j]);
                            }
                        }
                    }
                }
                assert(is_hovered(before[i as int]));
                return true;
            } else if self.polygon_objs[i].is_line_hovered() {
                let (a, b) = self.polygon_objs[i].get_hovered_line_ids();
                proof {
                    vstd::arithmetic::div_mod::lemma_small_mod(a as nat, m as nat);
                    vstd::arithmetic::div_mod::lemma_small_mod(b as nat, m as nat);
                }
                if !self.polygon_objs[i].is_line_selected(a as isize) {
                    self.deselect_everything();
                    let ghost mid = self.polygon_objs@;
                    let mut o = self.polygon_objs.remove(i);
                    assert(o == mid[i as int]);
                    assert(o.poly()@.len() == o.poly().positions().len());
                    assert(before[i as int].poly()@.len() == before[i as int].poly().positions().len());
                    o.select_point(a as isize);
                    o.select_point(b as isize);
                    self.polygon_objs.insert(i, o);
                    proof {
                        assert forall|j: int| 0 <= j < n && j != i implies (#[trigger] self.polygon_objs@[j]).poly().selection()
                            == Seq::new(before[j].poly()@.len(), |i: int| false) by {
                            assert(self.polygon_objs@[j] == mid[j]);
                            assert(mid[j].poly()@.len() == mid[j].poly().positions().len());
                            assert(before[j].poly()@.len() == before[j].poly().positions().len());
                        }
                        assert forall|j: int| 0 <= j < n implies (#[trigger] self.polygon_objs@[j]).poly().positions()
                            == before[j].poly().positions() by {
                            if j != i {
                                assert(self.polygon_objs@[j] == mid[j]);
                            }
                        }
                    }
                }
                assert(is_hovered(before[i as int]));
                return true;
            }
            i = i + 1;
        }
        false
    }

    /// A ctrl-click in the selection mode: toggles the hovered vertex, or
    /// both vertices of the hovered edge, of each polygon that shows one,
    /// stopping early when a polygon's selection becomes empty.
    fn click_toggle(&mut self) -> (r: Toggle)
        requires
            old(self).wf(),
        ensures
            final(self).wf(),
            final(self).polygon_obj_factory == old(self).polygon_obj_factory,
            final(self).polygon_objs@.len() == old(self).polygon_objs@.len(),
            r is NothingHovered <==> !any_hovered(old(self).polygon_objs@),
            r is NothingHovered ==> final(self).polygon_objs@ == old(self).polygon_objs@,
            r is Toggled ==> forall|k: int|
                0 <= k < old(self).polygon_objs@.len() ==> #[trigger] toggled_at(
                    final(self).polygon_objs@,
                    old(self).polygon_objs@,
                    k,
                    old(self).polygon_objs@.len() as int,
                ),
            r is Emptied ==> exists|e: int|
                0 <= e < old(self).polygon_objs@.len() && #[trigger] is_hovered(old(self).polygon_objs@[e])
                    && count_true(toggled(old(self).polygon_objs@[e]), old(self).polygon_objs@[e].poly()@.len() as int) == 0
                    && forall|k: int|
                    0 <= k < old(self).polygon_objs@.len() ==> #[trigger] toggled_at(
                        final(self).polygon_objs@,
                        old(self).polygon_objs@,
                        k,
                        e,
                    ),
    {
        let n = self.polygon_objs.len();
        let mut nothing_hovered = true;
        let mut i: usize = 0;
        while i < n
            invariant
                self.wf(),
                n == self.polygon_objs@.len(),
                n == old(self).polygon_objs@.len(),
                self.polygon_obj_factory == old(self).polygon_obj_factory,
                0 <= i <= n,
                nothing_hovered ==> self.polygon_objs@ == old(self).polygon_objs@,
                nothing_hovered ==> forall|j: int| 0 <= j < i ==> !is_hovered(#[trigger] old(self).polygon_objs@[j]),
                !nothing_hovered ==> any_hovered(old(self).polygon_objs@),
                forall|j: int| i <= j < n ==> #[trigger] self.polygon_objs@[j] == old(self).polygon_objs@[j],
                forall|k: int| 0 <= k < i ==> #[trigger] toggled_at(self.polygon_objs@, old(self).polygon_objs@, k, n as int),
            decreases n - i,
        {
            assert(self.polygon_objs@[i as int].wf());
            let ghost before = self.polygon_objs@;
            let ghost o0 = old(self).polygon_objs@[i as int];
            assert(before[i as int] == o0);
            proof {
                if nothing_hovered && is_hovered(o0) {
                    assert(is_hovered(old(self).polygon_objs@[i as int]));
                }
            }
            let m = self.polygon_objs[i].polygon().points_count();
            if self.polygon_objs[i].is_point_hovered() {
                let mut o = self.polygon_objs.remove(i);
                let id = o.get_hovered_point_id();
                proof {
                    vstd::arithmetic::div_mod::lemma_small_mod(id as nat, m as nat);
                }
                if o.is_point_selected(id as isize) {
                    o.deselect_point(id as isize);
                    let emptied = o.selected_points_count() == 0;
                    self.polygon_objs.insert(i, o);
                    assert(toggled_at(self.polygon_objs@, old(self).polygon_objs@, i as int, n as int));
                    if emptied {
                        proof {
                            let f = self.polygon_objs@[i as int];
                            assert(f.poly()@.len() == f.poly().positions().len());
                            assert(o0.poly()@.len() == o0.poly().positions().len());
                            lemma_toggled_upto(self.polygon_objs@, before, old(self).polygon_objs@, i as int);
                        }
                        return Toggle::Emptied;
                    }
                } else {
                    o.select_point(id as isize);
                    self.polygon_objs.insert(i, o);
                    assert(toggled_at(self.polygon_objs@, old(self).polygon_objs@, i as int, n as int));
                }
                nothing_hovered = false;
            } else if self.polygon_objs[i].is_line_hovered() {
                let mut o = self.polygon_objs.remove(i);
                let (a, b) = o.get_hovered_line_ids();
                proof {
                    vstd::arithmetic::div_mod::lemma_small_mod(a as nat, m as nat);
                    vstd::arithmetic::div_mod::lemma_small_mod(b as nat, m as nat);
                }
                if o.is_line_selected(a as isize) {
                    o.deselect_point(a as isize);
                    o.deselect_point(b as isize);
                    let emptied = o.selected_points_count() == 0;
                    self.polygon_objs.insert(i, o);
                    assert(toggled_at(self.polygon_objs@, old(self).polygon_objs@, i as int, n as int));
                    if emptied {
                        proof {
                            let f = self.polygon_objs@[i as int];
                            assert(f.poly()@.len() == f.poly().positions().len());
                            assert(o0.poly()@.len() == o0.poly().positions().len());
                            lemma_toggled_upto(self.polygon_objs@, before, old(self).polygon_objs@, i as int);
                        }
                        return Toggle::Emptied;
                    }
                } else {
                    o.select_point(a as isize);
                    o.select_point(b as isize);
                    self.polygon_objs.insert(i, o);
                    assert(toggled_at(self.polygon_objs@, old(self).polygon_objs@, i as int, n as int));
                }
                nothing_hovered = false;
            } else {
                assert(!is_hovered(o0));
                assert(toggled_at(self.polygon_objs@, old(self).polygon_objs@, i as int, n as int));
            }
            assert forall|k: int| 0 <= k < i implies #[trigger] toggled_at(self.polygon_objs@, old(self).polygon_objs@, k, n as int) by {
                assert(self.polygon_objs@[k] == before[k]);
                assert(toggled_at(before, old(self).polygon_objs@, k, n as int));
            }
            i = i + 1;
        }
        if nothing_hovered {
            Toggle::NothingHovered
        } else {
            Toggle::Toggled
        }
    }

    /// A click in the point-editing mode: on the first polygon showing a
    /// hovered vertex that can be removed, removes it; or, on the first
    /// polygon showing a hovered edge with an insertion position, inserts a
    /// vertex there. Returns whether an edit happened.
    fn click_edit(&mut self) -> (r: bool)
        requires
            old(self).wf(),
        ensures
            final(self).wf(),
            final(self).polygon_obj_factory == old(self).polygon_obj_factory,
            final(self).polygon_objs@.len() == old(self).polygon_objs@.len(),
            !any_hovered(old(self).polygon_objs@) ==> !r && final(self).polygon_objs@ == old(self).polygon_objs@,
            !r ==> forall|k: int|
                0 <= k < old(self).polygon_objs@.len() ==> (#[trigger] final(self).polygon_objs@[k]).poly().positions()
                    == old(self).polygon_objs@[k].poly().positions(),
            r ==> edited_one(final(self).polygon_objs@, old(self).polygon_objs@),
    {
        let n = self.polygon_objs.len();
        let mut i: usize = 0;
        while i < n
            invariant
                self.wf(),
                n == self.polygon_objs@.len(),
                n == old(self).polygon_objs@.len(),
                self.polygon_obj_factory == old(self).polygon_obj_factory,
                0 <= i <= n,
                !any_hovered(old(self).polygon_objs@) ==> self.polygon_objs@ == old(self).polygon_objs@,
                forall|j: int| i <= j < n ==> #[trigger] self.polygon_objs@[j] == old(self).polygon_objs@[j],
                forall|k: int|
                    0 <= k < n ==> (#[trigger] self.polygon_objs@[k]).poly().positions()
                        == old(self).polygon_objs@[k].poly().positions(),
            decreases n - i,
        {
            assert(self.polygon_objs@[i as int].wf());
            let ghost o0 = self.polygon_objs@[i as int];
            assert(o0 == old(self).polygon_objs@[i as int]);
            proof {
                if !any_hovered(old(self).polygon_objs@) {
                    assert(!is_hovered(old(self).polygon_objs@[i as int]));
                }
            }
            if self.polygon_objs[i].is_point_hovered() {
                let ghost before = self.polygon_objs@;
                let mut o = self.polygon_objs.remove(i);
                assert(o == o0);
                let id = o.get_hovered_point_id();
                let m = o.polygon().points_count();
                proof {
                    vstd::arithmetic::div_mod::lemma_small_mod(id as nat, m as nat);
                }
                let res = o.remove_point(id as isize);
                self.polygon_objs.insert(i, o);
                match res {
                    Ok(()) => {
                        assert(is_hovered(old(self).polygon_objs@[i as int]));
                        assert(edited_one(self.polygon_objs@, old(self).polygon_objs@));
                        return true;
                    },
                    Err(_) => {
                        assert(self.polygon_objs@ =~= before);
                    },
                }
            } else if self.polygon_objs[i].is_line_hovered() && self.polygon_objs[i].can_insert() {
                let ghost before = self.polygon_objs@;
                let mut o = self.polygon_objs.remove(i);
                assert(o == o0);
                let m = o.polygon().points_count();
                if m + 1 < MAX_OFFSET_VERTICES {
                    let (_a, b) = o.get_hovered_line_ids();
                    let pos = o.get_insert_pos();
                    proof {
                        vstd::arithmetic::div_mod::lemma_small_mod(b as nat, m as nat);
                    }
                    o.insert_point(b as isize, pos);
                    self.polygon_objs.insert(i, o);
                    assert(is_hovered(old(self).polygon_objs@[i as int]));
                    assert(edited_one(self.polygon_objs@, old(self).polygon_objs@));
                    return true;
                }
                self.polygon_objs.insert(i, o);
                assert(self.polygon_objs@ =~= before);
            }
            i = i + 1;
        }
        false
    }
}

impl IdleState {
    /// Selects the hovered vertex or edge and starts dragging; stays idle
    /// when nothing is hovered (the hover display is disabled either way).
    pub fn on_left_mouse_clicked(self, mouse_pos: Vec2, app_ctx: &mut AppContext) -> (r: EditorState)
        requires
            old(app_ctx).wf(),
        ensures
            final(app_ctx).wf(),
            final(app_ctx).polygon_obj_factory == old(app_ctx).polygon_obj_factory,
            any_hovered(old(app_ctx).polygon_objs@) ==> r is Dragging,
            (r matches EditorState::Dragging(d) ==> d.start_mouse_point == mouse_pos
                && d.prev_mouse_point == mouse_pos),
            !any_hovered(old(app_ctx).polygon_objs@) ==> r is Idle,
            selected_first_hovered(final(app_ctx).polygon_objs@, old(app_ctx).polygon_objs@),
    {
        let result = DraggingState::new(mouse_pos, app_ctx);
        let ghost mid = app_ctx.polygon_objs@;
        proof {
            lemma_hover_kept(app_ctx.polygon_objs@, old(app_ctx).polygon_objs@);
        }
        let found = app_ctx.select_first_hovered();
        proof {
            lemma_selected_first_hovered_through(app_ctx.polygon_objs@, mid, old(app_ctx).polygon_objs@);
        }
        if found {
            EditorState::Dragging(result)
        } else {
            EditorState::Idle(self)
        }
    }

    /// Selects the hovered vertex or edge and enters the selection mode;
    /// stays idle when nothing is hovered.
    pub fn on_ctrl_left_mouse_clicked(self, mouse_pos: Vec2, app_ctx: &mut AppContext) -> (r: EditorState)
        requires
            old(app_ctx).wf(),
        ensures
            final(app_ctx).wf(),
            final(app_ctx).polygon_obj_factory == old(app_ctx).polygon_obj_factory,
            any_hovered(old(app_ctx).polygon_objs@) ==> r is Selection,
            !any_hovered(old(app_ctx).polygon_objs@) ==> r is Idle,
            selected_first_hovered(final(app_ctx).polygon_objs@, old(app_ctx).polygon_objs@),
    {
        let result = SelectionState::new(app_ctx);
        let ghost mid = app_ctx.polygon_objs@;
        proof {
            lemma_hover_kept(app_ctx.polygon_objs@, old(app_ctx).polygon_objs@);
        }
        let found = app_ctx.select_first_hovered();
        proof {
            lemma_selected_first_hovered_through(app_ctx.polygon_objs@, mid, old(app_ctx).polygon_objs@);
        }
        if found {
            EditorState::Selection(result)
        } else {
            EditorState::Idle(self)
        }
    }

    /// Selects every vertex of the first hovered polygon and enters the
    /// selection mode; stays idle when nothing is hovered.
    pub fn on_ctrl_a_left_mouse_clicked(self, mouse_pos: Vec2, app_ctx: &mut AppContext) -> (r: EditorState)
        requires
            old(app_ctx).wf(),
        ensures
            final(app_ctx).wf(),
            any_hovered(old(app_ctx).polygon_objs@) ==> r is Selection,
            !any_hovered(old(app_ctx).polygon_objs@) ==> r is Idle,
    {
        if app_ctx.select_all_of_first_hovered() {
            EditorState::Selection(SelectionState::new(app_ctx))
        } else {
            EditorState::Idle(self)
        }
    }

    /// Enters the drawing mode.
    pub fn on_add_btn(self, app_ctx: &mut AppContext) -> (r: EditorState)
        requires
            old(app_ctx).wf(),
        ensures
            final(app_ctx).wf(),
            final(app_ctx).hover_set_from(*old(app_ctx), true),
            r is AddPolygon,
    {
        EditorState::AddPolygon(AddPolygonState::new(app_ctx))
    }

    /// Enters the point-editing mode.
    pub fn on_edit_points_btn(self, app_ctx: &mut AppContext) -> (r: EditorState)
        requires
            old(app_ctx).wf(),
        ensures
            final(app_ctx).wf(),
            final(app_ctx).hover_set_from(*old(app_ctx), false),
            r is EditPoints,
    {
        EditorState::EditPoints(EditPointsState::new(app_ctx))
    }

    /// Refreshes the hover state of every polygon.
    pub fn update(&mut self, mouse_pos: Vec2, app_ctx: &mut AppContext)
        requires
            old(app_ctx).wf(),
            in_range(mouse_pos),
        ensures
            final(app_ctx).wf(),
            final(app_ctx).polygon_objs@.len() == old(app_ctx).polygon_objs@.len(),
            forall|k: int|
                0 <= k < old(app_ctx).polygon_objs@.len() ==> (#[trigger] final(app_ctx).polygon_objs@[k]).poly()
                    == old(app_ctx).polygon_objs@[k].poly(),
    {
        app_ctx.track_mouse(mouse_pos, false);
    }
}

/// A selection made after the hover display changed is the same as one
/// made before.
proof fn lemma_selected_first_hovered_through(
    new: Seq<PolygonObject>,
    mid: Seq<PolygonObject>,
    old: Seq<PolygonObject>,
)
    requires
        mid.len() == old.len(),
        forall|i: int|
            0 <= i < mid.len() ==> (#[trigger] mid[i]).point_hovered() == old[i].point_hovered()
                && mid[i].line_hovered() == old[i].line_hovered() && mid[i].poly() == old[i].poly(),
        selected_first_hovered(new, mid),
    ensures
        selected_first_hovered(new, old),
{
    assert forall|j: int| 0 <= j < mid.len() implies #[trigger] is_hovered(mid[j]) == is_hovered(old[j]) by {}
    if exists|k: int| 0 <= k < old.len() && #[trigger] is_hovered(old[k]) {
        let k0 = choose|k: int| 0 <= k < old.len() && #[trigger] is_hovered(old[k]);
        assert(is_hovered(mid[k0]));
        let k = choose|k: int|
            0 <= k < mid.len() && #[trigger] is_hovered(mid[k]) && (forall|j: int|
                0 <= j < k ==> !is_hovered(#[trigger] mid[j])) && new[k].poly().selection()
                == with_hovered_selected(mid[k]) && new[k].poly().positions() == mid[k].poly().positions()
                && (forall|j: int| 0 <= j < mid.len() && j != k ==> (#[trigger] new[j]).poly() == mid[j].poly());
        assert(is_hovered(old[k]));
        assert(with_hovered_selected(mid[k]) == with_hovered_selected(old[k]));
        assert forall|j: int| 0 <= j < k implies !is_hovered(#[trigger] old[j]) by {
            assert(mid[j].point_hovered() == old[j].point_hovered());
            assert(!is_hovered(mid[j]));
        }
        assert(forall|j: int| 0 <= j < old.len() && j != k ==> (#[trigger] new[j]).poly() == old[j].poly());
    } else {
        assert forall|k: int| 0 <= k < mid.len() implies !#[trigger] is_hovered(mid[k]) by {
            assert(!is_hovered(old[k]));
        }
    }
}

/// The state when a ctrl-click stops at polygon `e`: polygons up to `e`
/// toggled, the rest unchanged.
proof fn lemma_toggled_upto(new: Seq<PolygonObject>, before: Seq<PolygonObject>, old: Seq<PolygonObject>, e: int)
    requires
        new.len() == old.len(),
        before.len() == old.len(),
        0 <= e < old.len(),
        is_hovered(old[e]),
        toggled_at(new, old, e, old.len() as int),
        count_true(new[e].poly().selection(), new[e].poly()@.len() as int) == 0,
        new[e].poly()@.len() == old[e].poly()@.len(),
        forall|k: int| 0 <= k < old.len() && k != e ==> #[trigger] new[k] == before[k],
        forall|k: int| 0 <= k < e ==> #[trigger] toggled_at(before, old, k, old.len() as int),
        forall|j: int| e < j < old.len() ==> #[trigger] before[j] == old[j],
    ensures
        exists|k: int|
            0 <= k < old.len() && #[trigger] is_hovered(old[k]) && count_true(toggled(old[k]), old[k].poly()@.len() as int) == 0
                && forall|j: int| 0 <= j < old.len() ==> #[trigger] toggled_at(new, old, j, k),
{
    assert forall|j: int| 0 <= j < old.len() implies #[trigger] toggled_at(new, old, j, e) by {
        if j < e {
            assert(new[j] == before[j]);
            assert(toggled_at(before, old, j, old.len() as int));
        } else if j > e {
            assert(new[j] == before[j]);
        }
    }
    assert(is_hovered(old[e]));
}

/// Changing the hover display keeps which polygons show a hovered element.
proof fn lemma_hover_kept(new: Seq<PolygonObject>, old: Seq<PolygonObject>)
    requires
        new.len() == old.len(),
        forall|i: int|
            0 <= i < new.len() ==> (#[trigger] new[i]).point_hovered() == old[i].point_hovered()
                && new[i].line_hovered() == old[i].line_hovered(),
    ensures
        any_hovered(new) == any_hovered(old),
{
    if any_hovered(new) {
        let k = choose|k: int| 0 <= k < new.len() && #[trigger] is_hovered(new[k]);
        assert(is_hovered(old[k]));
    }
    if any_hovered(old) {
        let k = choose|k: int| 0 <= k < old.len() && #[trigger] is_hovered(old[k]);
        assert(is_hovered(new[k]));
    }
}

impl AddPolygonState {
    /// Hands the click to the builder; a finished polygon joins the edited
    /// ones and the editor becomes idle.
    pub fn on_left_mouse_clicked(self, mouse_pos: Vec2, app_ctx: &mut AppContext) -> (r: EditorState)
        requires
            old(app_ctx).wf(),
            in_range(mouse_pos),
        ensures
            final(app_ctx).wf(),
            r is Idle ==> final(app_ctx).polygon_objs@.len() == old(app_ctx).polygon_objs@.len() + 1,
            r is AddPolygon ==> final(app_ctx).polygon_objs@ == old(app_ctx).polygon_objs@,
            r is Idle || r is AddPolygon,
            ({
                let f = old(app_ctx).polygon_obj_factory;
                let closes = !f.intersecting() && f.building() is Some && f.in_closing_region()
                    && f.building().unwrap()@.len() >= 3;
                let s = f.building().unwrap().positions();
                &&& r is Idle <==> closes
                &&& closes ==> ({
                    let added = final(app_ctx).polygon_objs@.last().poly().positions();
                    &&& shoelace(s) > 0 ==> added == s
                    &&& shoelace(s) <= 0 ==> added == s.reverse()
                    &&& forall|k: int|
                        0 <= k < old(app_ctx).polygon_objs@.len() ==> (#[trigger] final(app_ctx).polygon_objs@[k]).poly()
                            == old(app_ctx).polygon_objs@[k].poly()
                })
            }),
    {
        proof {
            let f = old(app_ctx).polygon_obj_factory;
            if f.building() is Some {
                let p = f.building().unwrap();
                assert(p@.len() == p.positions().len());
            }
        }
        match app_ctx.polygon_obj_factory.add_or_build(mouse_pos) {
            Some(o) => {
                app_ctx.polygon_objs.push(o);
                let ghost mid = app_ctx.polygon_objs@;
                assert forall|i: int| 0 <= i < app_ctx.polygon_objs@.len() implies (#[trigger] app_ctx.polygon_objs@[i]).wf() by {
                    if i < old(app_ctx).polygon_objs@.len() {
                        assert(app_ctx.polygon_objs@[i] == old(app_ctx).polygon_objs@[i]);
                    }
                }
                let r = IdleState::new(app_ctx);
                assert(app_ctx.polygon_objs@.last().poly() == mid.last().poly());
                assert forall|k: int| 0 <= k < old(app_ctx).polygon_objs@.len() implies (#[trigger] app_ctx.polygon_objs@[k]).poly()
                    == old(app_ctx).polygon_objs@[k].poly() by {
                    assert(app_ctx.polygon_objs@[k].poly() == mid[k].poly());
                    assert(mid[k] == old(app_ctx).polygon_objs@[k]);
                }
                EditorState::Idle(r)
            },
            None => EditorState::AddPolygon(self),
        }
    }

    /// Drops the polygon being drawn and enters the point-editing mode.
    pub fn on_edit_points_btn(self, app_ctx: &mut AppContext) -> (r: EditorState)
        requires
            old(app_ctx).wf(),
        ensures
            final(app_ctx).wf(),
            final(app_ctx).polygon_obj_factory.building() is None,
            r is EditPoints,
    {
        app_ctx.polygon_obj_factory.clear();
        EditorState::EditPoints(EditPointsState::new(app_ctx))
    }

    /// Drops the polygon being drawn and becomes idle.
    pub fn on_cancel_btn(self, app_ctx: &mut AppContext) -> (r: EditorState)
        requires
            old(app_ctx).wf(),
        ensures
            final(app_ctx).wf(),
            final(app_ctx).polygon_obj_factory.building() is None,
            r is Idle,
    {
        app_ctx.polygon_obj_factory.clear();
        EditorState::Idle(IdleState::new(app_ctx))
    }

    /// Lets the builder follow the mouse.
    pub fn update(&mut self, mouse_pos: Vec2, app_ctx: &mut AppContext)
        requires
            old(app_ctx).wf(),
            in_range(mouse_pos),
        ensures
            final(app_ctx).wf(),
            final(app_ctx).polygon_objs@ == old(app_ctx).polygon_objs@,
            final(app_ctx).polygon_obj_factory.building() == old(app_ctx).polygon_obj_factory.building(),
    {
        app_ctx.polygon_obj_factory.update(mouse_pos);
    }
}

impl SelectionState {
    /// A click on a hovered vertex or edge starts dragging (selecting it
    /// alone first when it was not selected); a click elsewhere deselects
    /// everything and makes the editor idle.
    pub fn on_left_mouse_clicked(self, mouse_pos: Vec2, app_ctx: &mut AppContext) -> (r: EditorState)
        requires
            old(app_ctx).wf(),
        ensures
            final(app_ctx).wf(),
            any_hovered(old(app_ctx).polygon_objs@) ==> r is Dragging,
            (r matches EditorState::Dragging(d) ==> d.start_mouse_point == mouse_pos
                && d.prev_mouse_point == mouse_pos),
            final(app_ctx).polygon_objs@.len() == old(app_ctx).polygon_objs@.len(),
            any_hovered(old(app_ctx).polygon_objs@) ==> picked_first_hovered(
                final(app_ctx).polygon_objs@,
                old(app_ctx).polygon_objs@,
            ),
            !any_hovered(old(app_ctx).polygon_objs@) ==> r is Idle && forall|k: int|
                0 <= k < final(app_ctx).polygon_objs@.len() ==> (#[trigger] final(app_ctx).polygon_objs@[k]).poly().selection()
                    == Seq::new(final(app_ctx).polygon_objs@[k].poly()@.len(), |i: int| false),
    {
        if app_ctx.click_select() {
            let ghost mid = app_ctx.polygon_objs@;
            let d = DraggingState::new(mouse_pos, app_ctx);
            proof {
                let k = choose|k: int|
                    0 <= k < old(app_ctx).polygon_objs@.len() && #[trigger] is_hovered(old(app_ctx).polygon_objs@[k])
                        && (forall|j: int| 0 <= j < k ==> !is_hovered(#[trigger] old(app_ctx).polygon_objs@[j]))
                        && (hovered_selected(old(app_ctx).polygon_objs@[k]) ==> forall|j: int|
                        0 <= j < old(app_ctx).polygon_objs@.len() ==> (#[trigger] mid[j]).poly()
                            == old(app_ctx).polygon_objs@[j].poly()) && (!hovered_selected(old(app_ctx).polygon_objs@[k]) ==> (forall|j: int|
                        0 <= j < old(app_ctx).polygon_objs@.len() ==> (#[trigger] mid[j]).poly().positions()
                            == old(app_ctx).polygon_objs@[j].poly().positions()) && (forall|j: int|
                        0 <= j < old(app_ctx).polygon_objs@.len() && j != k ==> (#[trigger] mid[j]).poly().selection()
                            == Seq::new(old(app_ctx).polygon_objs@[j].poly()@.len(), |i: int| false))
                        && mid[k].poly().selection() == select_hovered_in(
                        old(app_ctx).polygon_objs@[k],
                        Seq::new(old(app_ctx).polygon_objs@[k].poly()@.len(), |i: int| false),
                    ));
                assert(forall|j: int| 0 <= j < mid.len() ==> (#[trigger] app_ctx.polygon_objs@[j]).poly() == mid[j].poly());
                assert(is_hovered(old(app_ctx).polygon_objs@[k]));
            }
            EditorState::Dragging(d)
        } else {
            app_ctx.deselect_everything();
            let ghost mid = *app_ctx;
            let r = IdleState::new(app_ctx);
            assert forall|k: int| 0 <= k < app_ctx.polygon_objs@.len() implies (#[trigger] app_ctx.polygon_objs@[k]).poly().selection()
                == Seq::new(app_ctx.polygon_objs@[k].poly()@.len(), |i: int| false) by {
                assert(app_ctx.polygon_objs@[k].poly() == mid.polygon_objs@[k].poly());
            }
            EditorState::Idle(r)
        }
    }

    /// Toggles the hovered vertex or edge in each polygon (see `toggled`);
    /// stops and makes the editor idle when a polygon's selection becomes
    /// empty. When nothing is hovered, deselects everything and makes the
    /// editor idle.
    pub fn on_ctrl_left_mouse_clicked(self, mouse_pos: Vec2, app_ctx: &mut AppContext) -> (r: EditorState)
        requires
            old(app_ctx).wf(),
        ensures
            final(app_ctx).wf(),
            r is Idle || r is Selection,
            final(app_ctx).polygon_objs@.len() == old(app_ctx).polygon_objs@.len(),
            !any_hovered(old(app_ctx).polygon_objs@) ==> r is Idle && forall|k: int|
                0 <= k < old(app_ctx).polygon_objs@.len() ==> (#[trigger] final(app_ctx).polygon_objs@[k]).poly().selection()
                    == Seq::new(old(app_ctx).polygon_objs@[k].poly()@.len(), |i: int| false)
                    && final(app_ctx).polygon_objs@[k].poly().positions() == old(app_ctx).polygon_objs@[k].poly().positions(),
            r is Selection ==> forall|k: int|
                0 <= k < old(app_ctx).polygon_objs@.len() ==> #[trigger] toggled_at(
                    final(app_ctx).polygon_objs@,
                    old(app_ctx).polygon_objs@,
                    k,
                    old(app_ctx).polygon_objs@.len() as int,
                ),
            r is Idle && any_hovered(old(app_ctx).polygon_objs@) ==> exists|e: int|
                0 <= e < old(app_ctx).polygon_objs@.len() && #[trigger] is_hovered(old(app_ctx).polygon_objs@[e])
                    && count_true(toggled(old(app_ctx).polygon_objs@[e]), old(app_ctx).polygon_objs@[e].poly()@.len() as int) == 0
                    && forall|k: int|
                    0 <= k < old(app_ctx).polygon_objs@.len() ==> #[trigger] toggled_at(
                        final(app_ctx).polygon_objs@,
                        old(app_ctx).polygon_objs@,
                        k,
                        e,
                    ),
    {
        match app_ctx.click_toggle() {
            Toggle::Emptied => {
                let ghost mid = app_ctx.polygon_objs@;
                let r = IdleState::new(app_ctx);
                proof {
                    let e = choose|e: int|
                        0 <= e < old(app_ctx).polygon_objs@.len() && #[trigger] is_hovered(old(app_ctx).polygon_objs@[e])
                            && count_true(toggled(old(app_ctx).polygon_objs@[e]), old(app_ctx).polygon_objs@[e].poly()@.len() as int) == 0
                            && forall|k: int|
                            0 <= k < old(app_ctx).polygon_objs@.len() ==> #[trigger] toggled_at(
                                mid,
                                old(app_ctx).polygon_objs@,
                                k,
                                e,
                            );
                    assert forall|k: int| 0 <= k < old(app_ctx).polygon_objs@.len() implies #[trigger] toggled_at(
                        app_ctx.polygon_objs@,
                        old(app_ctx).polygon_objs@,
                        k,
                        e,
                    ) by {
                        assert(toggled_at(mid, old(app_ctx).polygon_objs@, k, e));
                        assert(app_ctx.polygon_objs@[k].poly() == mid[k].poly());
                    }
                    assert(is_hovered(old(app_ctx).polygon_objs@[e]));
                }
                EditorState::Idle(r)
            },
            Toggle::NothingHovered => {
                app_ctx.deselect_everything();
                let ghost mid = app_ctx.polygon_objs@;
                let r = IdleState::new(app_ctx);
                proof {
                    assert forall|k: int| 0 <= k < old(app_ctx).polygon_objs@.len() implies (#[trigger] app_ctx.polygon_objs@[k]).poly().selection()
                        == Seq::new(old(app_ctx).polygon_objs@[k].poly()@.len(), |i: int| false)
                        && app_ctx.polygon_objs@[k].poly().positions() == old(app_ctx).polygon_objs@[k].poly().positions() by {
                        assert(app_ctx.polygon_objs@[k].poly() == mid[k].poly());
                        let f = mid[k];
                        let o = old(app_ctx).polygon_objs@[k];
                        assert(f.poly()@.len() == f.poly().positions().len());
                        assert(o.poly()@.len() == o.poly().positions().len());
                    }
                }
                EditorState::Idle(r)
            },
            Toggle::Toggled => EditorState::Selection(self),
        }
    }

    /// Selects every vertex of each hovered polygon, or deselects everything
    /// when none is hovered.
    pub fn on_ctrl_a_left_mouse_clicked(self, mouse_pos: Vec2, app_ctx: &mut AppContext) -> (r: EditorState)
        requires
            old(app_ctx).wf(),
        ensures
            final(app_ctx).wf(),
            r is Selection,
            final(app_ctx).polygon_objs@.len() == old(app_ctx).polygon_objs@.len(),
            forall|k: int|
                0 <= k < old(app_ctx).polygon_objs@.len() ==> {
                    let o = old(app_ctx).polygon_objs@[k];
                    let f = #[trigger] final(app_ctx).polygon_objs@[k];
                    &&& f.poly().positions() == o.poly().positions()
                    &&& is_hovered(o) ==> f.poly().selection() == Seq::new(o.poly()@.len(), |i: int| true)
                    &&& !any_hovered(old(app_ctx).polygon_objs@) ==> f.poly().selection() == Seq::new(
                        o.poly()@.len(),
                        |i: int| false,
                    )
                    &&& any_hovered(old(app_ctx).polygon_objs@) && !is_hovered(o) ==> f == o
                },
    {
        app_ctx.select_all_of_hovered();
        EditorState::Selection(self)
    }

    /// Enters the drawing mode.
    pub fn on_add_btn(self, app_ctx: &mut AppContext) -> (r: EditorState)
        requires
            old(app_ctx).wf(),
        ensures
            final(app_ctx).wf(),
            r is AddPolygon,
    {
        app_ctx.deselect_everything();
        EditorState::AddPolygon(AddPolygonState::new(app_ctx))
    }

    /// Enters the point-editing mode.
    pub fn on_edit_points_btn(self, app_ctx: &mut AppContext) -> (r: EditorState)
        requires
            old(app_ctx).wf(),
        ensures
            final(app_ctx).wf(),
            r is EditPoints,
    {
        app_ctx.deselect_everything();
        EditorState::EditPoints(EditPointsState::new(app_ctx))
    }

    /// Refreshes the hover state of every polygon.
    pub fn update(&mut self, mouse_pos: Vec2, app_ctx: &mut AppContext)
        requires
            old(app_ctx).wf(),
            in_range(mouse_pos),
        ensures
            final(app_ctx).wf(),
            final(app_ctx).polygon_objs@.len() == old(app_ctx).polygon_objs@.len(),
            forall|k: int|
                0 <= k < old(app_ctx).polygon_objs@.len() ==> (#[trigger] final(app_ctx).polygon_objs@[k]).poly()
                    == old(app_ctx).polygon_objs@[k].poly(),
    {
        app_ctx.track_mouse(mouse_pos, false);
    }
}

impl DraggingState {
    /// Ends the drag (see `AppContext::finish_drag`) and returns to the
    /// selection mode.
    pub fn on_left_mouse_released(self, mouse_pos: Vec2, app_ctx: &mut AppContext) -> (r: EditorState)
        requires
            old(app_ctx).wf(),
            in_range(self.start_mouse_point),
            in_range(mouse_pos),
        ensures
            final(app_ctx).wf(),
            final(app_ctx).polygon_objs@.len() == old(app_ctx).polygon_objs@.len(),
            forall|k: int|
                0 <= k < old(app_ctx).polygon_objs@.len() ==> !self_crossing(old(app_ctx).polygon_objs@[k].poly().positions())
                    ==> crate::geometry::shoelace((#[trigger] final(app_ctx).polygon_objs@[k]).poly().positions()) >= 0,
            r is Selection,
    {
        app_ctx.finish_drag(self.start_mouse_point, mouse_pos);
        let ghost mid = *app_ctx;
        let r = SelectionState::new(app_ctx);
        assert forall|k: int|
            0 <= k < old(app_ctx).polygon_objs@.len() && !self_crossing(old(app_ctx).polygon_objs@[k].poly().positions())
            implies crate::geometry::shoelace((#[trigger] app_ctx.polygon_objs@[k]).poly().positions()) >= 0 by {
            assert(app_ctx.polygon_objs@[k].poly() == mid.polygon_objs@[k].poly());
        }
        EditorState::Selection(r)
    }

    /// Moves the selected vertices of every polygon by the mouse's movement
    /// since the last update.
    pub fn update(&mut self, mouse_pos: Vec2, app_ctx: &mut AppContext)
        requires
            old(app_ctx).wf(),
            in_range(old(self).prev_mouse_point),
            in_range(mouse_pos),
        ensures
            final(app_ctx).wf(),
            final(self).prev_mouse_point == mouse_pos,
            final(self).start_mouse_point == old(self).start_mouse_point,
            final(app_ctx).polygon_objs@.len() == old(app_ctx).polygon_objs@.len(),
            forall|k: int|
                0 <= k < old(app_ctx).polygon_objs@.len() ==> {
                    let o = old(app_ctx).polygon_objs@[k];
                    let v = Vec2 {
                        x: (mouse_pos.x - old(self).prev_mouse_point.x) as i64,
                        y: (mouse_pos.y - old(self).prev_mouse_point.y) as i64,
                    };
                    (#[trigger] final(app_ctx).polygon_objs@[k]).poly().positions() == crate::object::moved(
                        o.poly().positions(),
                        o.poly().selection(),
                        o.poly().constraints(),
                        v,
                    )
                },
    {
        let v = Vec2 {
            x: mouse_pos.x - self.prev_mouse_point.x,
            y: mouse_pos.y - self.prev_mouse_point.y,
        };
        app_ctx.move_all_selected(v);
        self.prev_mouse_point = mouse_pos;
    }
}

impl EditPointsState {
    /// Removes the hovered vertex or inserts a vertex on the hovered edge
    /// (see `AppContext::click_edit`); after an edit the editor is idle.
    pub fn on_left_mouse_clicked(self, mouse_pos: Vec2, app_ctx: &mut AppContext) -> (r: EditorState)
        requires
            old(app_ctx).wf(),
        ensures
            final(app_ctx).wf(),
            !any_hovered(old(app_ctx).polygon_objs@) ==> r is EditPoints && final(app_ctx).polygon_objs@
                == old(app_ctx).polygon_objs@,
            r is Idle || r is EditPoints,
            r is EditPoints ==> forall|k: int|
                0 <= k < old(app_ctx).polygon_objs@.len() ==> (#[trigger] final(app_ctx).polygon_objs@[k]).poly().positions()
                    == old(app_ctx).polygon_objs@[k].poly().positions(),
    {
        if app_ctx.click_edit() {
            EditorState::Idle(IdleState::new(app_ctx))
        } else {
            EditorState::EditPoints(self)
        }
    }

    /// Enters the drawing mode.
    pub fn on_add_btn(self, app_ctx: &mut AppContext) -> (r: EditorState)
        requires
            old(app_ctx).wf(),
        ensures
            final(app_ctx).wf(),
            final(app_ctx).hover_set_from(*old(app_ctx), true),
            r is AddPolygon,
    {
        EditorState::AddPolygon(AddPolygonState::new(app_ctx))
    }

    /// Leaves the point-editing mode for the idle one.
    pub fn on_cancel_btn(self, app_ctx: &mut AppContext) -> (r: EditorState)
        requires
            old(app_ctx).wf(),
        ensures
            final(app_ctx).wf(),
            final(app_ctx).hover_set_from(*old(app_ctx), false),
            r is Idle,
    {
        EditorState::Idle(IdleState::new(app_ctx))
    }

    /// Refreshes the insertion and hover state of every polygon.
    pub fn update(&mut self, mouse_pos: Vec2, app_ctx: &mut AppContext)
        requires
            old(app_ctx).wf(),
            in_range(mouse_pos),
        ensures
            final(app_ctx).wf(),
            final(app_ctx).polygon_objs@.len() == old(app_ctx).polygon_objs@.len(),
            forall|k: int|
                0 <= k < old(app_ctx).polygon_objs@.len() ==> (#[trigger] final(app_ctx).polygon_objs@[k]).poly()
                    == old(app_ctx).polygon_objs@[k].poly(),
    {
        app_ctx.track_mouse(mouse_pos, true);
    }
}


impl EditorState {
    /// A dragging state's mouse positions are within range.
    pub open spec fn wf(&self) -> bool {
        self matches EditorState::Dragging(d) ==> in_range(d.start_mouse_point) && in_range(
            d.prev_mouse_point,
        )
    }

    /// The editor starts idle, with the hover display of every polygon on.
    pub fn new(app_ctx: &mut AppContext) -> (r: EditorState)
        requires
            old(app_ctx).wf(),
        ensures
            final(app_ctx).wf(),
            final(app_ctx).hover_set_from(*old(app_ctx), false),
            r is Idle,
    {
        EditorState::Idle(IdleState::new(app_ctx))
    }

    /// A left click at `mouse_pos`.
    pub fn on_left_mouse_clicked(self, mouse_pos: Vec2, app_ctx: &mut AppContext) -> (r: EditorState)
        requires
            old(app_ctx).wf(),
            self.wf(),
            in_range(mouse_pos),
        ensures
            final(app_ctx).wf(),
            r.wf(),
            self is Dragging ==> r == self && *final(app_ctx) == *old(app_ctx),
    {
        match self {
            EditorState::Idle(st) => st.on_left_mouse_clicked(mouse_pos, app_ctx),
            EditorState::AddPolygon(st) => st.on_left_mouse_clicked(mouse_pos, app_ctx),
            EditorState::Selection(st) => st.on_left_mouse_clicked(mouse_pos, app_ctx),
            EditorState::Dragging(st) => EditorState::Dragging(st),
            EditorState::EditPoints(st) => st.on_left_mouse_clicked(mouse_pos, app_ctx),
        }
    }

    /// The left button released at `mouse_pos`: ends a drag.
    pub fn on_left_mouse_released(self, mouse_pos: Vec2, app_ctx: &mut AppContext) -> (r: EditorState)
        requires
            old(app_ctx).wf(),
            self.wf(),
            in_range(mouse_pos),
        ensures
            final(app_ctx).wf(),
            r.wf(),
            self is Dragging ==> r is Selection,
            !(self is Dragging) ==> r == self && *final(app_ctx) == *old(app_ctx),
    {
        match self {
            EditorState::Dragging(st) => st.on_left_mouse_released(mouse_pos, app_ctx),
            other => other,
        }
    }

    /// A left click with ctrl held.
    pub fn on_ctrl_left_mouse_clicked(self, mouse_pos: Vec2, app_ctx: &mut AppContext) -> (r: EditorState)
        requires
            old(app_ctx).wf(),
            self.wf(),
        ensures
            final(app_ctx).wf(),
            r.wf(),
            !(self is Idle || self is Selection) ==> r == self && *final(app_ctx) == *old(app_ctx),
    {
        match self {
            EditorState::Idle(st) => st.on_ctrl_left_mouse_clicked(mouse_pos, app_ctx),
            EditorState::Selection(st) => st.on_ctrl_left_mouse_clicked(mouse_pos, app_ctx),
            other => other,
        }
    }

    /// A left click with ctrl and A held.
    pub fn on_ctrl_a_left_mouse_clicked(self, mouse_pos: Vec2, app_ctx: &mut AppContext) -> (r: EditorState)
        requires
            old(app_ctx).wf(),
            self.wf(),
        ensures
            final(app_ctx).wf(),
            r.wf(),
            !(self is Idle || self is Selection) ==> r == self && *final(app_ctx) == *old(app_ctx),
    {
        match self {
            EditorState::Idle(st) => st.on_ctrl_a_left_mouse_clicked(mouse_pos, app_ctx),
            EditorState::Selection(st) => st.on_ctrl_a_left_mouse_clicked(mouse_pos, app_ctx),
            other => other,
        }
    }

    /// The "add polygon" button.
    pub fn on_add_btn(self, app_ctx: &mut AppContext) -> (r: EditorState)
        requires
            old(app_ctx).wf(),
            self.wf(),
        ensures
            final(app_ctx).wf(),
            r.wf(),
            self is Idle || self is Selection || self is EditPoints ==> r is AddPolygon,
            self is AddPolygon || self is Dragging ==> r == self && *final(app_ctx) == *old(app_ctx),
    {
        match self {
            EditorState::Idle(st) => st.on_add_btn(app_ctx),
            EditorState::Selection(st) => st.on_add_btn(app_ctx),
            EditorState::EditPoints(st) => st.on_add_btn(app_ctx),
            other => other,
        }
    }

    /// The "edit points" button.
    pub fn on_edit_points_btn(self, app_ctx: &mut AppContext) -> (r: EditorState)
        requires
            old(app_ctx).wf(),
            self.wf(),
        ensures
            final(app_ctx).wf(),
            r.wf(),
            self is Idle || self is Selection || self is AddPolygon ==> r is EditPoints,
            self is EditPoints || self is Dragging ==> r == self && *final(app_ctx) == *old(app_ctx),
    {
        match self {
            EditorState::Idle(st) => st.on_edit_points_btn(app_ctx),
            EditorState::Selection(st) => st.on_edit_points_btn(app_ctx),
            EditorState::AddPolygon(st) => st.on_edit_points_btn(app_ctx),
            other => other,
        }
    }

    /// The "cancel" button.
    pub fn on_cancel_btn(self, app_ctx: &mut AppContext) -> (r: EditorState)
        requires
            old(app_ctx).wf(),
            self.wf(),
        ensures
            final(app_ctx).wf(),
            r.wf(),
            self is AddPolygon || self is EditPoints ==> r is Idle,
            self is Idle || self is Selection || self is Dragging ==> r == self && *final(app_ctx)
                == *old(app_ctx),
    {
        match self {
            EditorState::AddPolygon(st) => st.on_cancel_btn(app_ctx),
            EditorState::EditPoints(st) => st.on_cancel_btn(app_ctx),
            other => other,
        }
    }

    /// The mouse is at `mouse_pos`.
    pub fn update(&mut self, mouse_pos: Vec2, app_ctx: &mut AppContext)
        requires
            old(app_ctx).wf(),
            old(self).wf(),
            in_range(mouse_pos),
        ensures
            final(app_ctx).wf(),
            final(self).wf(),
            ((*final(self)) is Idle) == ((*old(self)) is Idle),
            ((*final(self)) is AddPolygon) == ((*old(self)) is AddPolygon),
            ((*final(self)) is Selection) == ((*old(self)) is Selection),
            ((*final(self)) is EditPoints) == ((*old(self)) is EditPoints),
            (*old(self)) is Dragging ==> ((*final(self)) matches EditorState::Dragging(d)
                && d.prev_mouse_point == mouse_pos),
    {
        match self {
            EditorState::Idle(st) => st.update(mouse_pos, app_ctx),
            EditorState::AddPolygon(st) => st.update(mouse_pos, app_ctx),
            EditorState::Selection(st) => st.update(mouse_pos, app_ctx),
            EditorState::Dragging(st) => st.update(mouse_pos, app_ctx),
            EditorState::EditPoints(st) => st.update(mouse_pos, app_ctx),
        }
    }
}

} // verus!
