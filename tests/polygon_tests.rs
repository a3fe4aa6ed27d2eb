use polygon_editor::crossing::{has_self_crossing, segments_cross, segments_intersect, crossing_point, Crossing};
use polygon_editor::factory::PolygonObjectFactory;
use polygon_editor::geometry::{
    Vec2, UNIT, COORD_LIMIT, isqrt, vec_norm, is_right_turn, is_ccw, distance2, cross2, dot_prod, vec_len2,
    miter_vec, label_dir,
};
use polygon_editor::object::PolygonObject;
use polygon_editor::offset::offset_position;
use polygon_editor::polygon::{
    EdgeConstraint, Point, Polygon, PolygonError, RawCoord, RawPolygonCoords,
};
use polygon_editor::state_machine::{
    AppContext, IdleState, AddPolygonState, SelectionState, DraggingState, EditPointsState,
    EditorState,
};

fn v(x: i64, y: i64) -> Vec2 {
    Vec2 { x, y }
}

fn poly(pts: &[(i64, i64)]) -> Polygon {
    Polygon::create(pts.iter().map(|&(x, y)| v(x, y)).collect())
}

fn positions(p: &Polygon) -> Vec<(i64, i64)> {
    p.point_positions().iter().map(|q| (q.x, q.y)).collect()
}

fn shoelace(p: &[(i64, i64)]) -> i64 {
    let n = p.len();
    (0..n)
        .map(|i| {
            let a = p[i];
            let b = p[(i + 1) % n];
            (b.0 - a.0) * (b.1 + a.1)
        })
        .sum()
}

#[test]
fn integer_square_root() {
    assert_eq!(isqrt(0), 0);
    assert_eq!(isqrt(1), 1);
    assert_eq!(isqrt(15), 3);
    assert_eq!(isqrt(16), 4);
    assert_eq!(isqrt(u128::MAX), u64::MAX as u128);
}

#[test]
fn vector_products() {
    assert_eq!(cross2(v(1, 0), v(0, 1)), 1);
    assert_eq!(cross2(v(0, 1), v(1, 0)), -1);
    assert_eq!(dot_prod(v(2, 3), v(4, -5)), -7);
    assert_eq!(vec_len2(v(3, 4)), 25);
    assert_eq!(distance2(v(1, 1), v(4, 5)), 25);
}

#[test]
fn normalized_vector() {
    assert_eq!(vec_norm(v(10, 0)), v(UNIT, 0));
    assert_eq!(vec_norm(v(0, -7)), v(0, -UNIT));
    assert_eq!(vec_norm(v(3, 4)), v(39321, 52428));
    assert_eq!(vec_norm(v(0, 0)), v(0, 0));
}

#[test]
fn right_turn() {
    assert!(is_right_turn(v(0, 0), v(10, 0), v(10, -10)));
    assert!(!is_right_turn(v(0, 0), v(10, 0), v(10, 10)));
    assert!(!is_right_turn(v(0, 0), v(10, 0), v(20, 0)));
}

#[test]
fn ccw_by_shoelace() {
    let square = [v(0, 0), v(10, 0), v(10, 10), v(0, 10)];
    assert!(!is_ccw(&square));
    let reversed = [v(0, 10), v(10, 10), v(10, 0), v(0, 0)];
    assert!(is_ccw(&reversed));
}

#[test]
fn miter_of_right_angle() {
    assert_eq!(miter_vec(v(0, 0), v(0, 10), v(10, 10)), v(-UNIT, UNIT));
    assert_eq!(miter_vec(v(0, 0), v(10, 0), v(20, 0)), v(0, UNIT));
    assert_eq!(miter_vec(v(5, 5), v(5, 5), v(9, 9)), v(0, 0));
}

#[test]
fn label_direction_of_right_angle() {
    assert_eq!(label_dir(v(0, 0), v(0, 10), v(10, 10)), v(-46340, 46340));
}

#[test]
fn point_update_normals() {
    let mut p = Point::new(v(0, 10));
    assert_eq!(p.get_dir(), v(0, 0));
    p.update_normals(v(0, 0), v(10, 10));
    assert_eq!(p.offset_vec, v(-UNIT, UNIT));
    assert_eq!(p.normal, v(0, UNIT));
    assert_eq!(p.prev_normal, v(-UNIT, 0));
    p.update_pos(v(1, 1));
    assert_eq!(p.pos, v(1, 1));
    assert_eq!(p.offset_vec, v(-UNIT, UNIT));
}

#[test]
fn offset_position_rounds_and_scales() {
    assert_eq!(offset_position(v(10, 10), v(-UNIT, UNIT), 2), v(8, 12));
    assert_eq!(offset_position(v(0, 0), v(UNIT / 2, -UNIT / 2), 3), v(1, -1));
}

#[test]
fn cyclic_indexing() {
    let p = poly(&[(0, 0), (10, 0), (10, 10), (0, 10)]);
    assert_eq!(p.points_count(), 4);
    assert_eq!(p.fix_index(-1), 3);
    assert_eq!(p.fix_index(5), 1);
    assert_eq!(p.fix_index(-9), 3);
    assert_eq!(p.get_point_pos(-1), v(0, 10));
    assert_eq!(p.get_point_pos(6), v(10, 10));
    assert!(p.is_proper());
    assert_eq!(p.first_point_pos(), Some(v(0, 0)));
    assert_eq!(Polygon::new().first_point_pos(), None);
    assert!(!Polygon::new_with_start_point(v(1, 2)).is_proper());
}

#[test]
fn push_insert_remove() {
    let mut p = poly(&[(0, 0), (10, 0), (10, 10)]);
    p.push_point_with_pos(v(0, 10));
    assert_eq!(positions(&p), vec![(0, 0), (10, 0), (10, 10), (0, 10)]);
    p.insert_point_with_pos(-3, v(5, -1));
    assert_eq!(positions(&p), vec![(0, 0), (5, -1), (10, 0), (10, 10), (0, 10)]);
    assert_eq!(p.remove_point(1), Ok(()));
    assert_eq!(positions(&p), vec![(0, 0), (10, 0), (10, 10), (0, 10)]);
    p.update_point_pos(v(1, 11), 7);
    assert_eq!(positions(&p), vec![(0, 0), (10, 0), (10, 10), (1, 11)]);
    p.update_last_point_pos(v(0, 10));
    assert_eq!(p.get_offset_vec(0), v(UNIT, UNIT));
    p.clear();
    assert_eq!(p.points_count(), 0);
}

#[test]
fn remove_from_triangle_fails() {
    let mut p = poly(&[(0, 0), (10, 0), (0, 10)]);
    p.set_edge_contsraint(0, EdgeConstraint::Horizontal);
    assert_eq!(p.remove_point(1), Err(PolygonError::NotEnoughPoints));
    assert_eq!(positions(&p), vec![(0, 0), (10, 0), (0, 10)]);
    assert_eq!(p.get_edge_constraint(0), EdgeConstraint::Horizontal);
}

#[test]
fn selection_flags() {
    let mut p = poly(&[(0, 0), (10, 0), (0, 10)]);
    p.select_point(-1);
    assert!(p.is_point_selected(2));
    assert!(!p.is_point_selected(0));
    p.deselect_point(2);
    assert!(!p.is_point_selected(-1));
}

#[test]
fn names() {
    let mut p = Polygon::new();
    assert_eq!(p.get_name(), "Polygon");
    p.set_name("Polygon #3".to_string());
    assert_eq!(p.get_name(), "Polygon #3");
}

#[test]
fn assert_ccw_reverses_clockwise() {
    let mut p = poly(&[(0, 0), (10, 0), (10, 10), (0, 10)]);
    p.set_edge_contsraint(0, EdgeConstraint::Horizontal);
    p.set_edge_contsraint(1, EdgeConstraint::Vertical);
    assert!(p.assert_ccw());
    assert_eq!(positions(&p), vec![(0, 10), (10, 10), (10, 0), (0, 0)]);
    // the tag of the edge (10,0)-(10,10) and of the edge (0,0)-(10,0)
    assert_eq!(p.get_edge_constraint(1), EdgeConstraint::Vertical);
    assert_eq!(p.get_edge_constraint(2), EdgeConstraint::Horizontal);
    assert_eq!(p.get_edge_constraint(0), EdgeConstraint::Unconstrained);
    assert_eq!(p.get_edge_constraint(3), EdgeConstraint::Unconstrained);
    assert!(shoelace(&positions(&p)) >= 0);
    assert!(!p.assert_ccw());
    assert_eq!(positions(&p), vec![(0, 10), (10, 10), (10, 0), (0, 0)]);
}

#[test]
fn shoelace_nonnegative_after_assert_ccw() {
    for pts in [
        vec![(0, 0), (10, 0), (10, 10), (0, 10)],
        vec![(0, 10), (10, 10), (10, 0), (0, 0)],
        vec![(3, 1), (-4, 7), (9, 12), (20, -5), (6, -2)],
        vec![(0, 0), (5, 0), (10, 0)],
    ] {
        let mut p = poly(&pts);
        p.assert_ccw();
        assert!(shoelace(&positions(&p)) >= 0);
    }
}

#[test]
fn raw_round_trip() {
    let pts = vec![(3, 1), (-4, 7), (9, 12), (20, -5)];
    let p = poly(&pts);
    let raw = p.get_raw();
    assert_eq!(raw.coords[1], RawCoord { x: -4, y: 7 });
    let mut q = Polygon::new();
    q.set_points_from_raw(raw);
    assert_eq!(positions(&q), pts);
    let raw2 = RawPolygonCoords::new(vec![RawCoord { x: 1, y: 2 }]);
    q.set_points_from_raw(raw2);
    assert_eq!(positions(&q), vec![(1, 2)]);
}

#[test]
fn horizontal_constraint_snaps_to_average() {
    let mut p = poly(&[(0, 0), (10, 4), (10, 20), (0, 20)]);
    assert_eq!(p.set_constraint(0, EdgeConstraint::Horizontal), Ok(()));
    assert_eq!(p.get_point_pos(0), v(0, 2));
    assert_eq!(p.get_point_pos(1), v(10, 2));
    assert_eq!(p.get_edge_constraint(0), EdgeConstraint::Horizontal);
}

#[test]
fn vertical_constraint_snaps_to_average() {
    let mut p = poly(&[(0, 0), (10, 0), (13, 20), (0, 20)]);
    assert_eq!(p.set_constraint(1, EdgeConstraint::Vertical), Ok(()));
    assert_eq!(positions(&p), vec![(0, 0), (11, 0), (11, 20), (0, 20)]);
}

#[test]
fn constraint_conflicting_with_neighbour_rejected() {
    let mut p = poly(&[(0, 0), (10, 0), (10, 10), (0, 10)]);
    assert_eq!(p.set_constraint(0, EdgeConstraint::Horizontal), Ok(()));
    let before = positions(&p);
    assert_eq!(
        p.set_constraint(1, EdgeConstraint::Horizontal),
        Err(PolygonError::NeighbourConflict)
    );
    assert_eq!(positions(&p), before);
    assert_eq!(p.get_edge_constraint(0), EdgeConstraint::Horizontal);
    assert_eq!(p.get_edge_constraint(1), EdgeConstraint::Unconstrained);
    assert_eq!(
        p.set_constraint(3, EdgeConstraint::Horizontal),
        Err(PolygonError::NeighbourConflict)
    );
    assert_eq!(p.set_constraint(1, EdgeConstraint::Vertical), Ok(()));
}

#[test]
fn constraint_that_would_self_cross_rejected() {
    let pts = [(0, 0), (20, 0), (20, 20), (11, 20), (10, 2), (9, 20), (0, 20)];
    let mut p = poly(&pts);
    assert!(!p.is_self_crossing());
    assert_eq!(
        p.set_constraint(6, EdgeConstraint::Horizontal),
        Err(PolygonError::WouldSelfCross)
    );
    assert_eq!(positions(&p), pts.to_vec());
    assert_eq!(p.get_edge_constraint(6), EdgeConstraint::Unconstrained);
}

#[test]
fn proper_crossings() {
    assert!(segments_cross(v(0, 0), v(10, 10), v(0, 10), v(10, 0)));
    assert!(!segments_cross(v(0, 0), v(10, 10), v(5, 5), v(10, 0)));
    assert!(!segments_cross(v(0, 0), v(10, 0), v(5, 0), v(20, 0)));
    assert_eq!(crossing_point(v(0, 0), v(10, 10), v(0, 10), v(10, 0)), v(5, 5));
    assert_eq!(crossing_point(v(0, 0), v(3, 0), v(1, 1), v(2, -2)), v(1, 0));
}

#[test]
fn bow_tie_crossings() {
    let p = poly(&[(0, 0), (10, 10), (10, 0), (0, 10)]);
    assert!(p.is_self_crossing());
    let lists = p.get_self_crossing_edges();
    assert_eq!(lists[0], vec![Crossing { edge: 2, point: v(5, 5) }]);
    assert_eq!(lists[2], vec![Crossing { edge: 0, point: v(5, 5) }]);
    assert!(lists[1].is_empty());
    assert!(lists[3].is_empty());
    let map = p.crossing_map();
    assert_eq!(map[0], Some(Crossing { edge: 2, point: v(5, 5) }));
    assert_eq!(map[1], None);
}

#[test]
fn nearest_crossing_per_edge() {
    // edge 0 runs along y = 0 and is crossed by two spikes
    let p = poly(&[(0, 0), (30, 0), (30, 10), (22, 10), (20, -5), (18, 10), (12, 10), (10, -5), (8, 10), (0, 10)]);
    let lists = p.get_self_crossing_edges();
    assert_eq!(lists[0].len(), 4);
    let edges: Vec<usize> = lists[0].iter().map(|c| c.edge).collect();
    assert_eq!(edges, vec![3, 4, 6, 7]);
    let map = p.crossing_map();
    assert_eq!(map[0], Some(Crossing { edge: 7, point: v(10, 0) }));
}

#[test]
fn simple_polygon_not_self_crossing() {
    assert!(!has_self_crossing(&vec![v(0, 0), v(10, 0), v(10, 10), v(0, 10)]));
    assert!(!poly(&[(0, 0), (10, 0), (5, 8)]).is_self_crossing());
}

#[test]
fn square_offset_outward() {
    let mut p = poly(&[(0, 0), (10, 0), (10, 10), (0, 10)]);
    p.assert_ccw();
    let o = p.offset(2, false);
    assert_eq!(positions(&o), vec![(-2, 12), (12, 12), (12, -2), (-2, -2)]);
}

#[test]
fn convex_offset_equals_naive() {
    let mut p = poly(&[(0, 0), (40, 0), (60, 30), (40, 60), (0, 60), (-20, 30)]);
    p.assert_ccw();
    for d in [3, 10] {
        let naive = p.naive_offset_positions(d);
        assert!(!has_self_crossing(&naive));
        let o = p.offset(d, false);
        assert_eq!(o.point_positions(), naive);
    }
    assert_eq!(
        positions(&p.offset(3, false)),
        vec![(-23, 30), (-1, 63), (41, 63), (63, 30), (41, -3), (-1, -3)]
    );
}

#[test]
fn notch_offset_repaired() {
    let mut p = poly(&[(0, 0), (100, 0), (100, 100), (56, 100), (53, 40), (47, 40), (44, 100), (0, 100)]);
    p.assert_ccw();
    let naive = p.naive_offset_positions(5);
    assert!(has_self_crossing(&naive));
    assert_eq!(
        naive,
        vec![v(-5, 105), v(48, 105), v(51, 45), v(49, 45), v(52, 105), v(105, 105), v(105, -5), v(-5, -5)]
    );
    let o = p.offset(5, false);
    assert_eq!(
        positions(&o),
        vec![(-5, 105), (48, 105), (50, 65), (52, 105), (105, 105), (105, -5), (-5, -5), (-5, 105)]
    );
    assert!(!o.is_self_crossing());
    let forced = p.offset(5, true);
    assert_eq!(forced.point_positions(), naive);
}

fn square_object() -> PolygonObject {
    let mut p = poly(&[(0, 0), (100, 0), (100, 100), (0, 100)]);
    p.assert_ccw();
    PolygonObject::from(p)
}

#[test]
fn object_offset_follows_options() {
    let mut o = square_object();
    assert_eq!(o.offset_polygon().points_count(), 0);
    o.set_offset_options(true, 10, false);
    assert_eq!(positions(o.offset_polygon()), vec![(-10, 110), (110, 110), (110, -10), (-10, -10)]);
    o.set_offset_options(false, 10, false);
    assert_eq!(o.offset_polygon().points_count(), 4);
}

#[test]
fn object_remove_and_insert() {
    let mut o = square_object();
    o.insert_point(1, v(50, 110));
    assert_eq!(o.polygon().points_count(), 5);
    assert_eq!(o.polygon().get_point_pos(1), v(50, 110));
    assert_eq!(o.remove_point(1), Ok(()));
    assert_eq!(positions(o.polygon()), vec![(0, 100), (100, 100), (100, 0), (0, 0)]);
    assert_eq!(o.remove_point(0), Ok(()));
    assert_eq!(o.remove_point(0), Err(PolygonError::NotEnoughPoints));
    assert_eq!(positions(o.polygon()), vec![(100, 100), (100, 0), (0, 0)]);
}

#[test]
fn object_selection() {
    let mut o = square_object();
    o.select_point(1);
    o.select_point(2);
    assert_eq!(o.selected_points_count(), 2);
    assert!(o.is_line_selected(1));
    assert!(!o.is_line_selected(2));
    o.select_all_points();
    assert_eq!(o.selected_points_count(), 4);
    o.deselect_all_points();
    assert_eq!(o.selected_points_count(), 0);
    o.select_point(0);
    o.deselect_point(0);
    assert!(!o.is_point_selected(0));
}

#[test]
fn object_drag_pulls_constrained_neighbours() {
    let mut o = square_object();
    // vertices: (0,100), (100,100), (100,0), (0,0); edge 0 is horizontal, edge 1 vertical
    assert_eq!(o.set_edge_constraint(0, EdgeConstraint::Horizontal), Ok(()));
    assert_eq!(o.set_edge_constraint(1, EdgeConstraint::Vertical), Ok(()));
    o.select_point(1);
    o.move_selected_points(v(5, 7));
    assert_eq!(positions(o.polygon()), vec![(0, 107), (105, 107), (105, 0), (0, 0)]);
}

#[test]
fn object_hover_and_insertion() {
    let mut o = square_object();
    o.update_hover(v(103, 98));
    assert!(o.is_point_hovered());
    assert_eq!(o.get_hovered_point_id(), 1);
    assert!(!o.is_line_hovered());
    o.update_hover(v(50, 104));
    assert!(!o.is_point_hovered());
    assert!(o.is_line_hovered());
    assert_eq!(o.get_hovered_line_ids(), (0, 1));
    o.update_hover(v(50, 50));
    assert!(!o.is_point_hovered() && !o.is_line_hovered());
    o.update_insertion(v(40, 96));
    assert!(o.can_insert());
    assert_eq!(o.get_insert_pos(), v(40, 100));
    o.update_insertion(v(2, 98));
    assert!(!o.can_insert());
    o.disable_hover_show();
    assert!(o.is_hover_show_disabled());
    o.enable_hover_show();
    assert!(!o.is_hover_show_disabled());
}

#[test]
fn mode_constructors_set_hover_display() {
    let mut ctx = AppContext::new();
    ctx.polygon_objs.push(square_object());
    ctx.polygon_objs.push(square_object());
    let _ = AddPolygonState::new(&mut ctx);
    assert!(ctx.polygon_objs.iter().all(|o| o.is_hover_show_disabled()));
    let _ = IdleState::new(&mut ctx);
    assert!(ctx.polygon_objs.iter().all(|o| !o.is_hover_show_disabled()));
    let d = DraggingState::new(v(3, 4), &mut ctx);
    assert_eq!(d.start_mouse_point, v(3, 4));
    assert!(ctx.polygon_objs.iter().all(|o| o.is_hover_show_disabled()));
    let _ = SelectionState::new(&mut ctx);
    assert!(!ctx.polygon_objs[0].is_hover_show_disabled());
    let _ = DraggingState::new(v(0, 0), &mut ctx);
    let _ = EditPointsState::new(&mut ctx);
    assert!(!ctx.polygon_objs[1].is_hover_show_disabled());
}

#[test]
fn closed_segment_intersection() {
    assert!(segments_intersect(v(0, 0), v(10, 0), v(10, 0), v(10, 5)));
    assert!(segments_intersect(v(0, 0), v(10, 0), v(5, 0), v(20, 0)));
    assert!(!segments_intersect(v(0, 0), v(10, 0), v(11, 0), v(20, 0)));
    assert!(segments_intersect(v(0, 0), v(10, 10), v(0, 10), v(10, 0)));
    assert!(!segments_intersect(v(0, 0), v(10, 0), v(0, 1), v(10, 1)));
}

#[test]
fn center_of_vertices() {
    let p = poly(&[(0, 0), (10, 0), (10, 10), (0, 11)]);
    assert_eq!(p.find_center(), v(5, 5));
    let q = poly(&[(-3, -3), (-4, 0), (0, -4)]);
    assert_eq!(q.find_center(), v(-2, -2));
}

#[test]
fn selected_edge_of_two_adjacent_vertices() {
    let mut o = square_object();
    assert_eq!(o.selected_edge(), None);
    o.select_point(3);
    o.select_point(0);
    assert_eq!(o.selected_edge(), Some(3));
    o.deselect_point(0);
    o.select_point(1);
    assert_eq!(o.selected_edge(), None);
    o.select_point(2);
    assert_eq!(o.selected_edge(), None);
}

#[test]
fn builder_adds_and_closes() {
    let mut f = PolygonObjectFactory::new();
    assert!(f.add_or_build(v(0, 0)).is_none());
    assert_eq!(positions(f.polygon().unwrap()), vec![(0, 0)]);
    assert!(f.add_or_build(v(100, 0)).is_none());
    assert!(f.add_or_build(v(100, 2)).is_none());
    assert_eq!(positions(f.polygon().unwrap()), vec![(0, 0), (100, 0)]);
    f.update(v(100, 100));
    assert!(f.add_or_build(v(100, 100)).is_none());
    f.update(v(0, 100));
    assert!(f.add_or_build(v(0, 100)).is_none());
    f.update(v(3, 2));
    let o = f.add_or_build(v(3, 2)).unwrap();
    assert_eq!(positions(o.polygon()), vec![(0, 100), (100, 100), (100, 0), (0, 0)]);
    assert!(f.polygon().is_none());
}

#[test]
fn builder_refuses_crossing_edge() {
    let mut f = PolygonObjectFactory::new();
    f.add_or_build(v(0, 0));
    f.add_or_build(v(100, 0));
    f.add_or_build(v(100, 100));
    f.update(v(50, -50));
    assert!(f.add_or_build(v(50, -50)).is_none());
    assert_eq!(positions(f.polygon().unwrap()), vec![(0, 0), (100, 0), (100, 100)]);
    f.update(v(0, 100));
    assert!(f.add_or_build(v(0, 100)).is_none());
    assert_eq!(f.polygon().unwrap().points_count(), 4);
    f.clear();
    assert!(f.polygon().is_none());
}

#[test]
fn builder_from_raw() {
    let mut f = PolygonObjectFactory::new();
    let raw = RawPolygonCoords::new(vec![
        RawCoord { x: 0, y: 0 },
        RawCoord { x: 5, y: 0 },
        RawCoord { x: 0, y: 5 },
    ]);
    let o = f.build_from_raw(raw);
    assert_eq!(positions(o.polygon()), vec![(0, 0), (5, 0), (0, 5)]);
}

#[test]
fn editor_drag_session() {
    let mut ctx = AppContext::new();
    ctx.polygon_objs.push(square_object());
    let mut st = EditorState::new(&mut ctx);
    st.update(v(101, 101), &mut ctx);
    st = st.on_left_mouse_clicked(v(101, 101), &mut ctx);
    assert!(matches!(st, EditorState::Dragging(_)));
    assert!(ctx.polygon_objs[0].is_point_selected(1));
    st.update(v(106, 106), &mut ctx);
    assert_eq!(ctx.polygon_objs[0].polygon().get_point_pos(1), v(105, 105));
    st = st.on_left_mouse_released(v(106, 106), &mut ctx);
    assert!(matches!(st, EditorState::Selection(_)));
    st.update(v(50, 50), &mut ctx);
    st = st.on_left_mouse_clicked(v(50, 50), &mut ctx);
    assert!(matches!(st, EditorState::Idle(_)));
    assert_eq!(ctx.polygon_objs[0].selected_points_count(), 0);
}

#[test]
fn editor_edit_points_session() {
    let mut ctx = AppContext::new();
    ctx.polygon_objs.push(square_object());
    let mut st = EditorState::new(&mut ctx);
    st = st.on_edit_points_btn(&mut ctx);
    assert!(matches!(st, EditorState::EditPoints(_)));
    st.update(v(50, 103), &mut ctx);
    st = st.on_left_mouse_clicked(v(50, 103), &mut ctx);
    assert!(matches!(st, EditorState::Idle(_)));
    assert_eq!(
        positions(ctx.polygon_objs[0].polygon()),
        vec![(0, 100), (50, 100), (100, 100), (100, 0), (0, 0)]
    );
}

#[test]
fn editor_add_polygon_session() {
    let mut ctx = AppContext::new();
    let mut st = EditorState::new(&mut ctx);
    st = st.on_add_btn(&mut ctx);
    assert!(matches!(st, EditorState::AddPolygon(_)));
    for p in [v(0, 0), v(50, 0), v(50, 50)] {
        st.update(p, &mut ctx);
        st = st.on_left_mouse_clicked(p, &mut ctx);
    }
    st.update(v(1, 1), &mut ctx);
    st = st.on_left_mouse_clicked(v(1, 1), &mut ctx);
    assert!(matches!(st, EditorState::Idle(_)));
    assert_eq!(ctx.polygon_objs.len(), 1);
    assert_eq!(ctx.polygon_objs[0].polygon().points_count(), 3);
    st = st.on_cancel_btn(&mut ctx);
    assert!(matches!(st, EditorState::Idle(_)));
}

#[test]
fn editor_ctrl_click_toggles() {
    let mut ctx = AppContext::new();
    ctx.polygon_objs.push(square_object());
    let mut st = EditorState::new(&mut ctx);
    st.update(v(1, 99), &mut ctx);
    st = st.on_ctrl_left_mouse_clicked(v(1, 99), &mut ctx);
    assert!(matches!(st, EditorState::Selection(_)));
    assert!(ctx.polygon_objs[0].is_point_selected(0));
    st = st.on_ctrl_a_left_mouse_clicked(v(1, 99), &mut ctx);
    assert_eq!(ctx.polygon_objs[0].selected_points_count(), 4);
    st.update(v(50, 50), &mut ctx);
    st = st.on_ctrl_left_mouse_clicked(v(50, 50), &mut ctx);
    assert!(matches!(st, EditorState::Idle(_)));
    assert_eq!(ctx.polygon_objs[0].selected_points_count(), 0);
}

#[test]
fn offset_position_clamped_to_range() {
    assert_eq!(offset_position(v(COORD_LIMIT - 1, 0), v(UNIT, 0), 10), v(COORD_LIMIT, 0));
    assert_eq!(offset_position(v(-COORD_LIMIT, 5), v(-UNIT, 0), 3), v(-COORD_LIMIT, 5));
}

#[test]
fn empty_polygon() {
    let mut p = Polygon::new();
    assert_eq!(p.points_count(), 0);
    assert!(!p.is_proper());
    assert!(!p.is_self_crossing());
    assert!(p.get_self_crossing_edges().is_empty());
    assert!(p.offset(5, false).point_positions().is_empty());
    p.push_point_with_pos(v(1, 1));
    assert_eq!(p.get_offset_vec(0), v(0, 0));
}

#[test]
fn duplicate_vertex_has_zero_miter() {
    let p = poly(&[(0, 0), (0, 0), (10, 0), (0, 10)]);
    assert_eq!(p.get_offset_vec(0), v(0, 0));
    assert_eq!(p.get_offset_vec(1), v(0, 0));
}

#[test]
fn parallel_edges_do_not_cross() {
    assert!(!segments_cross(v(0, 0), v(10, 0), v(0, 5), v(10, 5)));
    assert!(!segments_cross(v(0, 0), v(10, 0), v(0, 0), v(10, 0)));
}
