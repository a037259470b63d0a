use sewing_pattern::archive::template_specification;
use sewing_pattern::decimal::Decimal;
use sewing_pattern::geometry::{Point2, Rect, Vector3, AABB};
use sewing_pattern::pattern::{
    ConstraintType, CurvatureCoords, Direction, Edge, EdgeRef, NamedMap, OrderedIter, Panel,
    ParameterType, Pattern, RawEdgeRef, RenderError, Stitch, StitchStrough,
};
use sewing_pattern::render::{Segment, Target};
use sewing_pattern::template::{Constraint, Influence, Parameter, Parameters, Properties, Template};

fn dec(m: i64, s: u32) -> Decimal {
    Decimal::new(m, s).unwrap()
}

fn whole(n: i64) -> Decimal {
    Decimal::from_int(n)
}

fn pt(x: Decimal, y: Decimal) -> Point2 {
    Point2::new(x, y)
}

fn zero3() -> Vector3 {
    Vector3 { x: whole(0), y: whole(0), z: whole(0) }
}

fn panel(vertices: Vec<Point2>, edges: Vec<Edge>) -> Panel {
    Panel { translation: zero3(), rotation: zero3(), edges, vertices }
}

fn straight(a: usize, b: usize) -> Edge {
    Edge { endpoints: [a, b], curvature: None }
}

fn pattern_with(name: &str, p: Panel) -> Pattern {
    Pattern {
        panels: NamedMap { entries: vec![(name.to_string(), p)] },
        panel_order: vec![name.to_string()],
        stitches: vec![Stitch(vec![StitchStrough { edge: 0, panel: name.to_string() }])],
    }
}

fn template(pattern: Pattern, params: Vec<(String, Parameter)>) -> Template {
    let order = params.iter().map(|p| p.0.clone()).collect();
    Template {
        pattern,
        properties: Properties {
            curvature_coords: CurvatureCoords::Relative,
            normalize_panel_translation: false,
            units_in_meter: whole(100),
            normalized_edge_loops: true,
        },
        parameters: NamedMap { entries: params },
        parameter_order: order,
        constraints: NamedMap { entries: vec![] },
        constraint_order: vec![],
    }
}

fn length_param(panel: &str, refs: Vec<EdgeRef>, range: [Decimal; 2]) -> Parameter {
    Parameter {
        influence: vec![Influence { edge_list: refs, panel: panel.to_string() }],
        range,
        kind: ParameterType::Length,
        value: whole(1),
    }
}

fn values(v: Vec<(&str, Decimal)>) -> Parameters {
    Parameters {
        parameters: NamedMap { entries: v.into_iter().map(|(n, d)| (n.to_string(), d)).collect() },
    }
}

fn end_ref(id: usize) -> EdgeRef {
    EdgeRef { id, direction: Some(Direction::End) }
}

fn two_vertex_template(range: [Decimal; 2]) -> Template {
    let p = panel(vec![pt(whole(0), whole(0)), pt(whole(10), whole(0))], vec![straight(0, 1)]);
    template(
        pattern_with("P1", p),
        vec![("len".to_string(), length_param("P1", vec![end_ref(0)], range))],
    )
}

#[test]
fn aabb_tracks_min_and_max() {
    let mut b = AABB::default();
    b.insert_point(pt(whole(-3), whole(5)));
    b.insert_point(pt(whole(7), whole(-2)));
    b.insert_point(pt(whole(1), whole(1)));
    let r = b.rect();
    assert_eq!(r.top_left, pt(whole(-3), whole(-2)));
    assert_eq!(r.bottom_right, pt(whole(7), whole(5)));
}

#[test]
fn aabb_updates_both_corners_at_once() {
    let mut b = AABB::from_rect(Rect::new(pt(whole(0), whole(0)), pt(whole(4), whole(4))));
    b.insert_point(pt(whole(-1), whole(9)));
    assert_eq!(b.rect().top_left, pt(whole(-1), whole(0)));
    assert_eq!(b.rect().bottom_right, pt(whole(4), whole(9)));
}

#[test]
fn aabb_inside_point_is_noop() {
    let mut b = AABB::from_rect(Rect::new(pt(whole(-2), whole(-2)), pt(whole(2), whole(2))));
    let before = b;
    b.insert_point(pt(dec(15, 1), whole(-2)));
    assert_eq!(b, before);
}

#[test]
fn aabb_insert_rect_uses_both_corners() {
    let mut b = AABB::default();
    b.insert(Rect::new(pt(whole(1), whole(2)), pt(whole(3), whole(4))));
    assert_eq!(b.rect().top_left, pt(whole(0), whole(0)));
    assert_eq!(b.rect().bottom_right, pt(whole(3), whole(4)));
    b.insert(pt(whole(-5), whole(-6)));
    assert_eq!(b.rect().top_left, pt(whole(-5), whole(-6)));
}

#[test]
fn aabb_compares_by_value_across_scales() {
    let mut b = AABB::default();
    b.insert_point(pt(dec(25, 1), whole(0)));
    b.insert_point(pt(dec(300, 2), whole(0)));
    assert_eq!(b.rect().bottom_right.x, dec(300, 2));
    b.insert_point(pt(whole(3), whole(0)));
    assert_eq!(b.rect().bottom_right.x, dec(300, 2));
}

#[test]
fn rect_size() {
    let r = Rect::new(pt(whole(-1), dec(5, 1)), pt(whole(4), whole(3)));
    assert_eq!(r.width(), Some(whole(5)));
    assert_eq!(r.height(), Some(dec(25, 1)));
    assert_eq!(r.size(), Some(pt(whole(5), dec(25, 1))));
    assert_eq!(*r.top_left(), pt(whole(-1), dec(5, 1)));
    assert_eq!(*r.bottom_right(), pt(whole(4), whole(3)));
}

#[test]
fn decimal_exact_arithmetic() {
    assert_eq!(dec(12, 1).checked_sub(&whole(1)), Some(dec(2, 1)));
    assert_eq!(whole(10).checked_add(&dec(20, 1)), Some(dec(120, 1)));
    assert_eq!(dec(2, 1).checked_mul(&whole(10)), Some(dec(20, 1)));
    assert_eq!(whole(0).checked_mul(&dec(5, 3)), Some(whole(0)));
    assert_eq!(whole(i64::MAX).checked_add(&whole(1)), None);
    assert_eq!(dec(1, 20).checked_mul(&dec(1, 20)), None);
    assert_eq!(Decimal::new(1, 29), None);
}

#[test]
fn decimal_order_by_value() {
    assert!(dec(5, 1).lt(&whole(1)));
    assert!(!whole(1).lt(&dec(10, 1)));
    assert!(!dec(10, 1).lt(&whole(1)));
    assert!(whole(-2).lt(&dec(-15, 1)));
}

#[test]
fn direction_endpoints() {
    assert!(Direction::Start.is_start() && !Direction::Start.is_end());
    assert!(Direction::End.is_end() && !Direction::End.is_start());
    assert!(Direction::Both.is_start() && Direction::Both.is_end());
}

#[test]
fn ordered_iteration_follows_declared_order() {
    let items = NamedMap { entries: vec![("a".to_string(), 1u32), ("b".to_string(), 2u32)] };
    let order = vec!["b".to_string(), "a".to_string()];
    let mut it = OrderedIter::new(&items, &order);
    let first = it.next().unwrap();
    assert_eq!((first.0.as_str(), *first.1), ("b", 2));
    let second = it.next().unwrap();
    assert_eq!((second.0.as_str(), *second.1), ("a", 1));
    assert!(it.next().is_none());
}

#[test]
fn named_map_lookup() {
    let items = NamedMap { entries: vec![("a".to_string(), 1u32), ("b".to_string(), 2u32)] };
    assert_eq!(items.position(&"b".to_string()), Some(1));
    assert_eq!(items.get(&"a".to_string()), Some(&1));
    assert_eq!(items.get(&"c".to_string()), None);
}

#[test]
fn edge_ref_round_trip_bare() {
    let e = EdgeRef { id: 3, direction: None };
    let raw = RawEdgeRef::from(e);
    assert_eq!(raw, RawEdgeRef::Id(3));
    assert_eq!(EdgeRef::from(raw), e);
}

#[test]
fn edge_ref_round_trip_with_direction() {
    let e = EdgeRef { id: 3, direction: Some(Direction::Start) };
    let raw = RawEdgeRef::from(e);
    assert_eq!(raw, RawEdgeRef::WithDirection { direction: Direction::Start, id: 3 });
    assert_eq!(EdgeRef::from(raw), e);
}

#[test]
fn out_of_range_value_is_refused() {
    let t = two_vertex_template([dec(5, 1), dec(15, 1)]);
    let r = t.with_parameters(&values(vec![("len", dec(20, 1))]));
    assert_eq!(r.unwrap_err(), RenderError::OutOfRange { value: dec(20, 1), range: [dec(5, 1), dec(15, 1)] });
    assert!(t.with_parameters(&values(vec![("len", dec(10, 1))])).is_ok());
}

#[test]
fn range_bounds_are_inclusive() {
    let t = two_vertex_template([dec(5, 1), dec(15, 1)]);
    assert!(t.with_parameters(&values(vec![("len", dec(5, 1))])).is_ok());
    assert!(t.with_parameters(&values(vec![("len", dec(150, 2))])).is_ok());
    assert!(t.with_parameters(&values(vec![("len", dec(4, 1))])).is_err());
}

#[test]
fn missing_panel_is_reported() {
    let p = panel(vec![pt(whole(0), whole(0)), pt(whole(10), whole(0))], vec![straight(0, 1)]);
    let t = template(
        pattern_with("other", p),
        vec![("len".to_string(), length_param("P1", vec![end_ref(0)], [whole(0), whole(2)]))],
    );
    let r = t.with_parameters(&values(vec![("len", dec(12, 1))]));
    assert_eq!(r.unwrap_err(), RenderError::NoSuchPanel { panel: "P1".to_string() });
}

#[test]
fn missing_edge_is_reported() {
    let p = panel(vec![pt(whole(0), whole(0)), pt(whole(10), whole(0))], vec![straight(0, 1)]);
    let t = template(
        pattern_with("P1", p),
        vec![("len".to_string(), length_param("P1", vec![end_ref(4)], [whole(0), whole(2)]))],
    );
    let r = t.with_parameters(&values(vec![("len", dec(12, 1))]));
    assert_eq!(r.unwrap_err(), RenderError::NoSuchEdge { panel: "P1".to_string(), edge: 4 });
}

#[test]
fn missing_vertex_is_reported() {
    let p = panel(vec![pt(whole(0), whole(0)), pt(whole(10), whole(0))], vec![straight(0, 7)]);
    let t = template(
        pattern_with("P1", p),
        vec![("len".to_string(), length_param("P1", vec![end_ref(0)], [whole(0), whole(2)]))],
    );
    let r = t.with_parameters(&values(vec![("len", dec(12, 1))]));
    assert_eq!(r.unwrap_err(), RenderError::NoSuchVertex { index: 7 });
}

#[test]
fn unknown_supplied_parameter_is_refused() {
    let t = two_vertex_template([dec(5, 1), dec(20, 1)]);
    let r = t.with_parameters(&values(vec![("len", whole(1)), ("width", whole(1))]));
    assert_eq!(r.unwrap_err(), RenderError::NoSuchParameter { name: "width".to_string() });
}

#[test]
fn omitted_parameter_keeps_geometry() {
    let t = two_vertex_template([dec(5, 1), dec(20, 1)]);
    let p = t.with_parameters(&values(vec![])).unwrap();
    assert_eq!(p.panels.entries[0].1.vertices, t.pattern.panels.entries[0].1.vertices);
}

#[test]
fn end_to_end_length_parameter() {
    let t = two_vertex_template([dec(5, 1), dec(20, 1)]);
    let p = t.with_parameters(&values(vec![("len", dec(12, 1))])).unwrap();
    let vs = &p.panels.entries[0].1.vertices;
    assert_eq!(vs[0], pt(whole(0), whole(0)));
    assert_eq!(vs[1], pt(dec(120, 1), whole(0)));
    assert_eq!(p.panel_order, vec!["P1".to_string()]);
    assert_eq!(p.stitches.len(), 1);

    let mut target = Target::default();
    p.panels.entries[0].1.render(&mut target).unwrap();
    let doc = target.build();
    assert_eq!(doc.paths.len(), 1);
    assert_eq!(doc.paths[0].start, pt(whole(0), whole(0)));
    assert_eq!(doc.paths[0].segment, Segment::Line(pt(dec(120, 1), whole(0))));
    assert_eq!(doc.view_box, Rect::new(pt(whole(0), whole(0)), pt(dec(120, 1), whole(0))));
}

#[test]
fn start_direction_moves_start_vertex() {
    let p = panel(vec![pt(whole(2), whole(4)), pt(whole(6), whole(4))], vec![straight(0, 1)]);
    let refs = vec![EdgeRef { id: 0, direction: Some(Direction::Both) }];
    let t = template(pattern_with("P1", p), vec![("len".to_string(), length_param("P1", refs, [whole(0), whole(3)]))]);
    let out = t.with_parameters(&values(vec![("len", dec(15, 1))])).unwrap();
    let vs = &out.panels.entries[0].1.vertices;
    // delta 0.5 along (4, 0): start moves by -2, end by +2; y stays
    assert_eq!(vs[0], pt(dec(0, 1), whole(4)));
    assert_eq!(vs[1], pt(dec(80, 1), whole(4)));
}

#[test]
fn neutral_value_leaves_geometry_unchanged() {
    let p = panel(vec![pt(dec(13, 1), whole(-2)), pt(dec(7, 2), whole(5))], vec![straight(0, 1)]);
    let refs = vec![EdgeRef { id: 0, direction: Some(Direction::Both) }];
    let t = template(pattern_with("P1", p), vec![("len".to_string(), length_param("P1", refs, [whole(0), whole(3)]))]);
    let out = t.with_parameters(&values(vec![("len", dec(100, 2))])).unwrap();
    assert_eq!(out.panels.entries[0].1.vertices, t.pattern.panels.entries[0].1.vertices);
}

#[test]
fn curve_parameter_scales_control_offset() {
    let e = Edge { endpoints: [0, 1], curvature: Some(pt(dec(5, 1), dec(2, 1))) };
    let p = panel(vec![pt(whole(0), whole(0)), pt(whole(10), whole(0))], vec![e]);
    let param = Parameter {
        influence: vec![Influence { edge_list: vec![EdgeRef { id: 0, direction: None }], panel: "P1".to_string() }],
        range: [whole(0), whole(3)],
        kind: ParameterType::Curve,
        value: whole(1),
    };
    let t = template(pattern_with("P1", p), vec![("curve".to_string(), param)]);
    let out = t.with_parameters(&values(vec![("curve", whole(2))])).unwrap();
    let c = out.panels.entries[0].1.edges[0].curvature.unwrap();
    assert_eq!(c, pt(dec(5, 1), dec(4, 1)));
    assert_eq!(out.panels.entries[0].1.vertices, t.pattern.panels.entries[0].1.vertices);
}

#[test]
fn render_reports_missing_vertex() {
    let p = panel(vec![pt(whole(0), whole(0))], vec![straight(0, 3)]);
    let mut target = Target::default();
    assert_eq!(p.render(&mut target), Err(RenderError::NoSuchVertex { index: 3 }));
}

#[test]
fn render_curve_and_viewport() {
    let e = Edge { endpoints: [0, 1], curvature: Some(pt(whole(5), whole(-4))) };
    let p = panel(vec![pt(whole(1), whole(1)), pt(whole(9), whole(2))], vec![e, straight(1, 0)]);
    let mut target = Target::default();
    p.render(&mut target).unwrap();
    let doc = target.build();
    assert_eq!(doc.paths.len(), 2);
    assert_eq!(doc.paths[0].segment, Segment::Quadratic { control: pt(whole(5), whole(-4)), end: pt(whole(9), whole(2)) });
    assert_eq!(doc.paths[1].start, pt(whole(9), whole(2)));
    assert_eq!(doc.view_box, Rect::new(pt(whole(0), whole(-4)), pt(whole(9), whole(2))));
}

#[test]
fn empty_target_builds_degenerate_viewport() {
    let doc = Target::default().build();
    assert!(doc.paths.is_empty());
    assert_eq!(doc.view_box, Rect::new(pt(whole(0), whole(0)), pt(whole(0), whole(0))));
}

#[test]
fn template_parameters_in_order() {
    let t = two_vertex_template([whole(0), whole(2)]);
    let mut it = t.parameters();
    assert_eq!(it.next().unwrap().0, "len");
    assert!(it.next().is_none());
    let mut panels = t.pattern.panels();
    assert_eq!(panels.next().unwrap().0, "P1");
}

#[test]
fn panel_vertex_lookup() {
    let p = panel(vec![pt(whole(1), whole(2))], vec![]);
    assert_eq!(p.get_vertex(0), Ok(&pt(whole(1), whole(2))));
    assert_eq!(p.get_vertex(1), Err(RenderError::NoSuchVertex { index: 1 }));
    let _ = (ConstraintType::LengthEquality, Constraint { influence: vec![], kind: ConstraintType::CurveEquality });
}

#[test]
fn archive_entry_found_when_unique() {
    let names = vec!["a/readme.txt".to_string(), "shirt/shirt_template_specification.json".to_string()];
    assert_eq!(template_specification(&names), Some(1));
    let none = vec!["a/readme.txt".to_string()];
    assert_eq!(template_specification(&none), None);
    let two = vec!["x_template_specification.json".to_string(), "y/template_specification.json".to_string()];
    assert_eq!(template_specification(&two), None);
}

#[test]
fn template_validity() {
    let t = two_vertex_template([whole(0), whole(2)]);
    assert!(t.is_valid());
    let mut bad = two_vertex_template([whole(0), whole(2)]);
    bad.parameter_order.push("missing".to_string());
    assert!(!bad.is_valid());
    let mut dup = two_vertex_template([whole(0), whole(2)]);
    let p = dup.pattern.panels.entries[0].1.clone();
    dup.pattern.panels.entries.push(("P1".to_string(), p));
    assert!(!dup.is_valid());
    assert!(values(vec![("a", whole(1))]).is_valid());
    assert!(!values(vec![("a", whole(1)), ("a", whole(2))]).is_valid());
}

fn constrained_template(param_refs: Vec<EdgeRef>, constraint_edges: Vec<usize>, kind: ConstraintType) -> Template {
    let p = panel(
        vec![pt(whole(0), whole(0)), pt(whole(10), whole(0)), pt(whole(0), whole(5)), pt(whole(10), whole(5)), pt(whole(0), whole(9)), pt(whole(3), whole(9))],
        vec![straight(0, 1), straight(2, 3), straight(4, 5)],
    );
    let mut t = template(
        pattern_with("P1", p),
        vec![("len".to_string(), length_param("P1", param_refs, [whole(0), whole(3)]))],
    );
    let refs = constraint_edges.into_iter().map(|id| EdgeRef { id, direction: None }).collect();
    t.constraints = NamedMap {
        entries: vec![("c".to_string(), Constraint { influence: vec![Influence { edge_list: refs, panel: "P1".to_string() }], kind })],
    };
    t.constraint_order = vec!["c".to_string()];
    t
}

#[test]
fn length_constraint_violation_is_reported() {
    let t = constrained_template(vec![end_ref(0)], vec![0, 1], ConstraintType::LengthEquality);
    let r = t.with_parameters(&values(vec![("len", dec(12, 1))]));
    assert_eq!(r.unwrap_err(), RenderError::ConstraintViolated { constraint: "c".to_string() });
}

#[test]
fn length_constraint_kept_when_both_edges_move() {
    let t = constrained_template(vec![end_ref(0), end_ref(1)], vec![0, 1], ConstraintType::LengthEquality);
    let out = t.with_parameters(&values(vec![("len", dec(12, 1))])).unwrap();
    assert_eq!(out.panels.entries[0].1.vertices[3], pt(dec(120, 1), whole(5)));
}

#[test]
fn every_constraint_is_checked_after_a_parameter() {
    let t = constrained_template(vec![end_ref(0)], vec![1, 2], ConstraintType::LengthEquality);
    let r = t.with_parameters(&values(vec![("len", dec(12, 1))]));
    assert_eq!(r.unwrap_err(), RenderError::ConstraintViolated { constraint: "c".to_string() });
}

#[test]
fn constraint_on_edge_sharing_a_moved_vertex_is_checked() {
    let p = panel(
        vec![pt(whole(0), whole(0)), pt(whole(1), whole(0)), pt(whole(1), whole(1)), pt(whole(2), whole(1))],
        vec![straight(0, 1), straight(1, 2), straight(2, 3)],
    );
    let mut t = template(
        pattern_with("P1", p),
        vec![("len".to_string(), length_param("P1", vec![end_ref(1)], [dec(5, 1), whole(2)]))],
    );
    let refs = vec![EdgeRef { id: 0, direction: None }, EdgeRef { id: 2, direction: None }];
    t.constraints = NamedMap {
        entries: vec![(
            "c".to_string(),
            Constraint {
                influence: vec![Influence { edge_list: refs, panel: "P1".to_string() }],
                kind: ConstraintType::LengthEquality,
            },
        )],
    };
    t.constraint_order = vec!["c".to_string()];
    let r = t.with_parameters(&values(vec![("len", whole(2))]));
    assert_eq!(r.unwrap_err(), RenderError::ConstraintViolated { constraint: "c".to_string() });
    assert!(t.with_parameters(&values(vec![("len", whole(1))])).is_ok());
}

#[test]
fn neutral_value_succeeds_even_where_edge_vector_is_huge() {
    let p = panel(vec![pt(whole(i64::MIN), whole(0)), pt(whole(i64::MAX), whole(0))], vec![straight(0, 1)]);
    let t = template(pattern_with("P1", p), vec![("len".to_string(), length_param("P1", vec![end_ref(0)], [whole(0), whole(2)]))]);
    let out = t.with_parameters(&values(vec![("len", whole(1))])).unwrap();
    assert_eq!(out.panels.entries[0].1.vertices, t.pattern.panels.entries[0].1.vertices);
    assert_eq!(t.with_parameters(&values(vec![("len", whole(2))])).unwrap_err(), RenderError::Overflow);
}

#[test]
fn curve_constraint_compares_control_points() {
    let t = constrained_template(vec![end_ref(0)], vec![0, 1], ConstraintType::CurveEquality);
    assert!(t.with_parameters(&values(vec![("len", dec(12, 1))])).is_ok());
}

#[test]
fn vertex_changed_in_place() {
    let mut p = panel(vec![pt(whole(1), whole(2)), pt(whole(3), whole(4))], vec![]);
    *p.get_vertex_mut(1).unwrap() = pt(whole(7), whole(8));
    assert_eq!(p.vertices, vec![pt(whole(1), whole(2)), pt(whole(7), whole(8))]);
    assert_eq!(p.get_vertex_mut(2), Err(RenderError::NoSuchVertex { index: 2 }));
}
