//! Templates: a base pattern with parameters and constraints, and the engine
//! that applies parameter values to a copy of the base pattern.
use vstd::prelude::*;
use crate::decimal::{dec_add, dec_mul, dec_sub, Decimal};
use crate::geometry::Point2;
use crate::pattern::{
    order_covers, ConstraintType, CurvatureCoords, Edge, EdgeRef, NamedMap, OrderedIter, Panel,
    ParameterType, Pattern, RenderError, Stitch, StitchStrough,
};

verus! {

/// Global properties of a template.
#[derive(Clone, Debug)]
pub struct Properties {
    pub curvature_coords: CurvatureCoords,
    pub normalize_panel_translation: bool,
    pub units_in_meter: Decimal,
    pub normalized_edge_loops: bool,
}

/// Edges of one panel that a parameter or a constraint affects.
#[derive(Clone, Debug)]
pub struct Influence {
    pub edge_list: Vec<EdgeRef>,
    pub panel: String,
}

/// A named deformation of the pattern.
#[derive(Clone, Debug)]
pub struct Parameter {
    pub influence: Vec<Influence>,
    /// Inclusive range `[min, max]` of accepted values.
    pub range: [Decimal; 2],
    pub kind: ParameterType,
    /// The neutral value, at which the pattern is unchanged.
    pub value: Decimal,
}

/// Edge groups that must stay equal after deformation.
#[derive(Clone, Debug)]
pub struct Constraint {
    pub influence: Vec<Influence>,
    pub kind: ConstraintType,
}

/// A base pattern with its parametrization.
#[derive(Clone, Debug)]
pub struct Template {
    pub pattern: Pattern,
    pub properties: Properties,
    pub parameters: NamedMap<Parameter>,
    pub parameter_order: Vec<String>,
    pub constraints: NamedMap<Constraint>,
    pub constraint_order: Vec<String>,
}

/// Values supplied for parameters, by name.
#[derive(Clone, Debug)]
pub struct Parameters {
    pub parameters: NamedMap<Decimal>,
}

/// Vertices and edges of each panel, by position.
pub type Geometry = Seq<(Seq<Point2>, Seq<Edge>)>;

pub open spec fn geometry_of(panels: Seq<(String, Panel)>) -> Geometry {
    panels.map_values(|e: (String, Panel)| (e.1.vertices@, e.1.edges@))
}

pub open spec fn edge_wf(e: Edge) -> bool {
    e.curvature matches Some(c) ==> c.wf()
}

/// Every coordinate of a panel is a well-formed decimal.
pub open spec fn panel_wf(vs: Seq<Point2>, es: Seq<Edge>) -> bool {
    &&& forall|j: int| 0 <= j < vs.len() ==> (#[trigger] vs[j]).wf()
    &&& forall|j: int| 0 <= j < es.len() ==> edge_wf(#[trigger] es[j])
}

/// Every coordinate is a well-formed decimal.
pub open spec fn geometry_wf(g: Geometry) -> bool {
    forall|i: int| 0 <= i < g.len() ==> panel_wf((#[trigger] g[i]).0, g[i].1)
}

/// Two panel lists with the same names and placements.
pub open spec fn same_frame(a: Seq<(String, Panel)>, b: Seq<(String, Panel)>) -> bool {
    &&& a.len() == b.len()
    &&& forall|i: int|
        0 <= i < a.len() ==> (#[trigger] a[i]).0@ == b[i].0@ && a[i].1.translation
            == b[i].1.translation && a[i].1.rotation == b[i].1.rotation
}

pub open spec fn moves_start(er: EdgeRef) -> bool {
    er.direction matches Some(d) && (d == crate::pattern::Direction::Start || d
        == crate::pattern::Direction::Both)
}

pub open spec fn moves_end(er: EdgeRef) -> bool {
    er.direction matches Some(d) && (d == crate::pattern::Direction::End || d
        == crate::pattern::Direction::Both)
}

/// `k * (end - start)`, exactly.
pub open spec fn scaled_delta(k: Decimal, start: Point2, end: Point2) -> Option<Point2> {
    match (dec_sub(end.x, start.x), dec_sub(end.y, start.y)) {
        (Some(dx), Some(dy)) => match (dec_mul(k, dx), dec_mul(k, dy)) {
            (Some(x), Some(y)) => Some(Point2 { x, y }),
            _ => None,
        },
        _ => None,
    }
}

pub open spec fn point_sub(a: Point2, b: Point2) -> Option<Point2> {
    match (dec_sub(a.x, b.x), dec_sub(a.y, b.y)) {
        (Some(x), Some(y)) => Some(Point2 { x, y }),
        _ => None,
    }
}

pub open spec fn point_add(a: Point2, b: Point2) -> Option<Point2> {
    match (dec_add(a.x, b.x), dec_add(a.y, b.y)) {
        (Some(x), Some(y)) => Some(Point2 { x, y }),
        _ => None,
    }
}

/// A `Length` edit: with `d = k * (end - start)`, the start vertex moves to
/// `start - d` and the end vertex to `end + d`, each where the reference's
/// direction asks for it. Only components along the edge change. A zero
/// delta leaves the vertices as they are.
pub open spec fn length_edit(vs: Seq<Point2>, a: int, b: int, er: EdgeRef, k: Decimal) -> Result<
    Seq<Point2>,
    RenderError,
> {
    if k.mantissa == 0 || (!moves_start(er) && !moves_end(er)) {
        Ok(vs)
    } else {
        match scaled_delta(k, vs[a], vs[b]) {
            None => Err(RenderError::Overflow),
            Some(d) => {
                let ns = if moves_start(er) { point_sub(vs[a], d) } else { Some(vs[a]) };
                let ne = if moves_end(er) { point_add(vs[b], d) } else { Some(vs[b]) };
                match (ns, ne) {
                    (Some(s1), Some(e1)) => Ok(vs.update(a, s1).update(b, e1)),
                    _ => Err(RenderError::Overflow),
                }
            },
        }
    }
}

/// A `Curve` edit: the control point's offset from the edge (its second,
/// relative coordinate) is scaled by `1 + k`; a straight edge stays straight.
pub open spec fn curve_edit(e: Edge, k: Decimal) -> Result<Edge, RenderError> {
    match e.curvature {
        None => Ok(e),
        Some(c) => match dec_mul(k, c.y) {
            None => Err(RenderError::Overflow),
            Some(t) => match dec_add(c.y, t) {
                None => Err(RenderError::Overflow),
                Some(y) => Ok(Edge { endpoints: e.endpoints, curvature: Some(Point2 { x: c.x, y }) }),
            },
        },
    }
}

/// One edge reference resolved in a panel's vertices `vs` and edges `es`
/// and deformed by `k`.
pub open spec fn panel_edit(
    vs: Seq<Point2>,
    es: Seq<Edge>,
    panel: String,
    er: EdgeRef,
    kind: ParameterType,
    k: Decimal,
) -> Result<(Seq<Point2>, Seq<Edge>), RenderError> {
    if er.id >= es.len() {
        Err(RenderError::NoSuchEdge { panel, edge: er.id })
    } else {
        let e = es[er.id as int];
        let a = e.endpoints[0];
        let b = e.endpoints[1];
        if a >= vs.len() {
            Err(RenderError::NoSuchVertex { index: a })
        } else if b >= vs.len() {
            Err(RenderError::NoSuchVertex { index: b })
        } else {
            match kind {
                ParameterType::Length => match length_edit(vs, a as int, b as int, er, k) {
                    Ok(nvs) => Ok((nvs, es)),
                    Err(err) => Err(err),
                },
                ParameterType::Curve => match curve_edit(e, k) {
                    Ok(ne) => Ok((vs, es.update(er.id as int, ne))),
                    Err(err) => Err(err),
                },
            }
        }
    }
}

/// One edge reference of panel `pi` deformed by `k`.
pub open spec fn edge_step(
    g: Geometry,
    pi: int,
    panel: String,
    er: EdgeRef,
    kind: ParameterType,
    k: Decimal,
) -> Result<Geometry, RenderError> {
    match panel_edit(g[pi].0, g[pi].1, panel, er, kind, k) {
        Ok(x) => Ok(g.update(pi, x)),
        Err(e) => Err(e),
    }
}

/// The first `n` edge references of an influence on panel `pi`, in order.
pub open spec fn refs_step(
    g: Geometry,
    pi: int,
    infl: Influence,
    kind: ParameterType,
    k: Decimal,
    n: int,
) -> Result<Geometry, RenderError>
    decreases n,
{
    if n <= 0 {
        Ok(g)
    } else {
        match refs_step(g, pi, infl, kind, k, n - 1) {
            Ok(g1) => edge_step(g1, pi, infl.panel, infl.edge_list@[n - 1], kind, k),
            Err(e) => Err(e),
        }
    }
}

/// One influence: its panel is looked up by name, then its references applied.
pub open spec fn influence_step(
    panels: NamedMap<Panel>,
    g: Geometry,
    infl: Influence,
    kind: ParameterType,
    k: Decimal,
) -> Result<Geometry, RenderError> {
    if !panels.has(infl.panel@) {
        Err(RenderError::NoSuchPanel { panel: infl.panel })
    } else {
        refs_step(g, panels.pos(infl.panel@), infl, kind, k, infl.edge_list@.len() as int)
    }
}

/// The first `n` influences of a parameter, in order.
pub open spec fn influences_step(
    panels: NamedMap<Panel>,
    g: Geometry,
    p: Parameter,
    k: Decimal,
    n: int,
) -> Result<Geometry, RenderError>
    decreases n,
{
    if n <= 0 {
        Ok(g)
    } else {
        match influences_step(panels, g, p, k, n - 1) {
            Ok(g1) => influence_step(panels, g1, p.influence@[n - 1], p.kind, k),
            Err(e) => Err(e),
        }
    }
}

fn point_sub_exec(a: &Point2, b: &Point2) -> (r: Option<Point2>)
    requires
        a.wf(),
        b.wf(),
    ensures
        r == point_sub(*a, *b),
        r matches Some(p) ==> p.wf(),
{
    match (a.x.checked_sub(&b.x), a.y.checked_sub(&b.y)) {
        (Some(x), Some(y)) => Some(Point2 { x, y }),
        _ => None,
    }
}

fn point_add_exec(a: &Point2, b: &Point2) -> (r: Option<Point2>)
    requires
        a.wf(),
        b.wf(),
    ensures
        r == point_add(*a, *b),
        r matches Some(p) ==> p.wf(),
{
    match (a.x.checked_add(&b.x), a.y.checked_add(&b.y)) {
        (Some(x), Some(y)) => Some(Point2 { x, y }),
        _ => None,
    }
}

fn scaled_delta_exec(k: &Decimal, start: &Point2, end: &Point2) -> (r: Option<Point2>)
    requires
        k.wf(),
        start.wf(),
        end.wf(),
    ensures
        r == scaled_delta(*k, *start, *end),
        r matches Some(p) ==> p.wf(),
{
    match (end.x.checked_sub(&start.x), end.y.checked_sub(&start.y)) {
        (Some(dx), Some(dy)) => match (k.checked_mul(&dx), k.checked_mul(&dy)) {
            (Some(x), Some(y)) => Some(Point2 { x, y }),
            _ => None,
        },
        _ => None,
    }
}

/// Deforms one edge reference of a panel.
fn edit_panel(p: &mut Panel, panel: &String, er: EdgeRef, kind: ParameterType, k: Decimal) -> (r:
    Result<(), RenderError>)
    requires
        panel_wf(old(p).vertices@, old(p).edges@),
        k.wf(),
    ensures
        final(p).translation == old(p).translation,
        final(p).rotation == old(p).rotation,
        panel_wf(final(p).vertices@, final(p).edges@),
        match r {
            Ok(_) => panel_edit(old(p).vertices@, old(p).edges@, *panel, er, kind, k) == Ok::<
                (Seq<Point2>, Seq<Edge>),
                RenderError,
            >((final(p).vertices@, final(p).edges@)),
            Err(e) => panel_edit(old(p).vertices@, old(p).edges@, *panel, er, kind, k) == Err::<
                (Seq<Point2>, Seq<Edge>),
                RenderError,
            >(e),
        },
{
    if er.id >= p.edges.len() {
        return Err(RenderError::NoSuchEdge { panel: panel.clone(), edge: er.id });
    }
    let e = p.edges[er.id];
    let a = e.endpoints[0];
    let b = e.endpoints[1];
    if a >= p.vertices.len() {
        return Err(RenderError::NoSuchVertex { index: a });
    }
    if b >= p.vertices.len() {
        return Err(RenderError::NoSuchVertex { index: b });
    }
    match kind {
        ParameterType::Length => {
            let ms = match er.direction {
                Some(d) => d.is_start(),
                None => false,
            };
            let me = match er.direction {
                Some(d) => d.is_end(),
                None => false,
            };
            if k.mantissa == 0 || (!ms && !me) {
                return Ok(());
            }
            let start = p.vertices[a];
            let end = p.vertices[b];
            let d = match scaled_delta_exec(&k, &start, &end) {
                Some(d) => d,
                None => return Err(RenderError::Overflow),
            };
            let ns = if ms {
                point_sub_exec(&start, &d)
            } else {
                Some(start)
            };
            let ne = if me {
                point_add_exec(&end, &d)
            } else {
                Some(end)
            };
            match (ns, ne) {
                (Some(s1), Some(e1)) => {
                    p.vertices.set(a, s1);
                    p.vertices.set(b, e1);
                    Ok(())
                },
                _ => Err(RenderError::Overflow),
            }
        },
        ParameterType::Curve => {
            match e.curvature {
                None => {
                    assert(old(p).edges@.update(er.id as int, e) =~= old(p).edges@);
                    Ok(())
                },
                Some(c) => {
                    let t = match k.checked_mul(&c.y) {
                        Some(t) => t,
                        None => return Err(RenderError::Overflow),
                    };
                    let y = match c.y.checked_add(&t) {
                        Some(y) => y,
                        None => return Err(RenderError::Overflow),
                    };
                    let ne = Edge { endpoints: e.endpoints, curvature: Some(Point2 { x: c.x, y }) };
                    p.edges.set(er.id, ne);
                    Ok(())
                },
            }
        },
    }
}

impl Template {
    /// Names are unique, declared orders name existing entries, numbers are
    /// well-formed.
    pub open spec fn wf(&self) -> bool {
        &&& self.pattern.wf()
        &&& geometry_wf(geometry_of(self.pattern.panels.entries@))
        &&& self.parameters.wf()
        &&& order_covers(&self.parameters, self.parameter_order@)
        &&& self.constraints.wf()
        &&& order_covers(&self.constraints, self.constraint_order@)
        &&& forall|i: int|
            0 <= i < self.parameters.entries@.len() ==> {
                let p = #[trigger] self.parameters.entries@[i].1;
                p.value.wf() && p.range[0].wf() && p.range[1].wf()
            }
    }

    /// The parameter declared under `name`.
    pub open spec fn parameter(&self, name: Seq<char>) -> Parameter {
        self.parameters.entries@[self.parameters.pos(name)].1
    }

    /// One parameter, named `name`, applied to `g` with the supplied values.
    pub open spec fn parameter_step(&self, values: &Parameters, g: Geometry, name: Seq<char>) -> Result<
        Geometry,
        RenderError,
    > {
        let p = self.parameter(name);
        if !values.parameters.has(name) {
            Ok(g)
        } else {
            let v = values.parameters.entries@[values.parameters.pos(name)].1;
            if v.value() < p.range[0].value() || p.range[1].value() < v.value() {
                Err(RenderError::OutOfRange { value: v, range: p.range })
            } else {
                match dec_sub(v, p.value) {
                    None => Err(RenderError::Overflow),
                    Some(k) => match influences_step(
                        self.pattern.panels,
                        g,
                        p,
                        k,
                        p.influence@.len() as int,
                    ) {
                        Ok(g1) => match self.constraints_step(g1, self.constraint_order@.len() as int) {
                            Ok(_) => Ok(g1),
                            Err(e) => Err(e),
                        },
                        Err(e) => Err(e),
                    },
                }
            }
        }
    }

    /// The constraint declared under `name`.
    pub open spec fn constraint(&self, name: Seq<char>) -> Constraint {
        self.constraints.entries@[self.constraints.pos(name)].1
    }

    /// The first `n` constraints of the declared order, checked against `g`.
    pub open spec fn constraints_step(&self, g: Geometry, n: int) -> Result<
        (),
        RenderError,
    >
        decreases n,
    {
        if n <= 0 {
            Ok(())
        } else {
            match self.constraints_step(g, n - 1) {
                Ok(_) => {
                    let name = self.constraint_order@[n - 1];
                    crate::constraint::constraint_result(self.pattern.panels, g, self.constraint(name@), name)
                },
                Err(e) => Err(e),
            }
        }
    }

    /// The first `n` parameters of the declared order applied to the base pattern.
    pub open spec fn parameters_step(&self, values: &Parameters, n: int) -> Result<
        Geometry,
        RenderError,
    >
        decreases n,
    {
        if n <= 0 {
            Ok(geometry_of(self.pattern.panels.entries@))
        } else {
            match self.parameters_step(values, n - 1) {
                Ok(g) => self.parameter_step(values, g, self.parameter_order@[n - 1]@),
                Err(e) => Err(e),
            }
        }
    }

    /// The first supplied name among the first `n` that no parameter declares.
    pub open spec fn first_unknown(&self, values: &Parameters, n: int) -> Option<int>
        decreases n,
    {
        if n <= 0 {
            None
        } else {
            match self.first_unknown(values, n - 1) {
                Some(j) => Some(j),
                None => if !self.parameters.has(values.parameters.entries@[n - 1].0@) {
                    Some(n - 1)
                } else {
                    None
                },
            }
        }
    }

    /// The geometry that results from applying `values`, or the error.
    pub open spec fn applied(&self, values: &Parameters) -> Result<Geometry, RenderError> {
        match self.first_unknown(values, values.parameters.entries@.len() as int) {
            Some(j) => Err(RenderError::NoSuchParameter { name: values.parameters.entries@[j].0 }),
            None => match self.parameters_step(values, self.parameter_order@.len() as int) {
                Ok(g) => match self.constraints_step(g, self.constraint_order@.len() as int) {
                    Ok(_) => Ok(g),
                    Err(e) => Err(e),
                },
                Err(e) => Err(e),
            },
        }
    }
}

impl Parameters {
    pub open spec fn wf(&self) -> bool {
        &&& self.parameters.wf()
        &&& forall|i: int|
            0 <= i < self.parameters.entries@.len() ==> (#[trigger] self.parameters.entries@[i]).1.wf()
    }
}

} // verus!

verus! {

proof fn lemma_refs_err(g: Geometry, pi: int, infl: Influence, kind: ParameterType, k: Decimal, m: int, n: int)
    requires
        0 <= m <= n,
        refs_step(g, pi, infl, kind, k, m) is Err,
    ensures
        refs_step(g, pi, infl, kind, k, n) == refs_step(g, pi, infl, kind, k, m),
    decreases n - m,
{
    if n > m {
        lemma_refs_err(g, pi, infl, kind, k, m, n - 1);
    }
}

proof fn lemma_influences_err(panels: NamedMap<Panel>, g: Geometry, p: Parameter, k: Decimal, m: int, n: int)
    requires
        0 <= m <= n,
        influences_step(panels, g, p, k, m) is Err,
    ensures
        influences_step(panels, g, p, k, n) == influences_step(panels, g, p, k, m),
    decreases n - m,
{
    if n > m {
        lemma_influences_err(panels, g, p, k, m, n - 1);
    }
}

proof fn lemma_constraints_err(t: &Template, g: Geometry, m: int, n: int)
    requires
        0 <= m <= n,
        t.constraints_step(g, m) is Err,
    ensures
        t.constraints_step(g, n) == t.constraints_step(g, m),
    decreases n - m,
{
    if n > m {
        lemma_constraints_err(t, g, m, n - 1);
    }
}

impl Template {
    /// Checks every constraint, in declared order.
    fn check_constraints(&self, panels: &Vec<(String, Panel)>) -> (r: Result<(), RenderError>)
        requires
            self.wf(),
            same_frame(panels@, self.pattern.panels.entries@),
            geometry_wf(geometry_of(panels@)),
        ensures
            r == self.constraints_step(geometry_of(panels@), self.constraint_order@.len() as int),
    {
        let ghost g = geometry_of(panels@);
        let mut i: usize = 0;
        while i < self.constraint_order.len()
            invariant
                self.wf(),
                g == geometry_of(panels@),
                same_frame(panels@, self.pattern.panels.entries@),
                geometry_wf(g),
                i <= self.constraint_order@.len(),
                self.constraints_step(g, i as int) == Ok::<(), RenderError>(()),
            decreases self.constraint_order@.len() - i,
        {
            let name = &self.constraint_order[i];
            assert(self.constraints.has(self.constraint_order@[i as int]@));
            let c = match self.constraints.get(name) {
                Some(c) => c,
                None => return Err(RenderError::ConstraintViolated { constraint: name.clone() }),
            };
            match crate::constraint::check_constraint(panels, &self.pattern.panels, c, name) {
                Ok(()) => {},
                Err(e) => {
                    proof {
                        lemma_constraints_err(self, g, i + 1, self.constraint_order@.len() as int);
                    }
                    return Err(e);
                },
            }
            i = i + 1;
        }
        Ok(())
    }
}

/// Panels with the names of a well-formed pattern's panels are keyed alike.
proof fn lemma_same_frame_wf(m: NamedMap<Panel>, base: &Pattern)
    requires
        base.wf(),
        same_frame(m.entries@, base.panels.entries@),
    ensures
        m.wf(),
        forall|name: Seq<char>| #[trigger] m.has(name) == base.panels.has(name),
{
    assert forall|i: int, j: int| 0 <= i < j < m.entries@.len() implies #[trigger] m.entries@[i].0@
        != #[trigger] m.entries@[j].0@ by {
        assert(m.entries@[i].0@ == base.panels.entries@[i].0@);
        assert(m.entries@[j].0@ == base.panels.entries@[j].0@);
    }
    assert forall|name: Seq<char>| #[trigger] m.has(name) == base.panels.has(name) by {
        if m.has(name) {
            let i = choose|i: int| 0 <= i < m.entries@.len() && #[trigger] m.entries@[i].0@ == name;
            assert(base.panels.entries@[i].0@ == name);
        }
        if base.panels.has(name) {
            let i = choose|i: int| 0 <= i < base.panels.entries@.len() && #[trigger] base.panels.entries@[i].0@ == name;
            assert(m.entries@[i].0@ == name);
        }
    }
}

proof fn lemma_first_unknown_kept(t: &Template, values: &Parameters, m: int, n: int)
    requires
        0 <= m <= n,
        t.first_unknown(values, m) is Some,
    ensures
        t.first_unknown(values, n) == t.first_unknown(values, m),
    decreases n - m,
{
    if n > m {
        lemma_first_unknown_kept(t, values, m, n - 1);
    }
}

proof fn lemma_parameters_err(t: &Template, values: &Parameters, m: int, n: int)
    requires
        0 <= m <= n,
        t.parameters_step(values, m) is Err,
    ensures
        t.parameters_step(values, n) == t.parameters_step(values, m),
    decreases n - m,
{
    if n > m {
        lemma_parameters_err(t, values, m, n - 1);
    }
}

/// Deforms one edge reference of the panel at `pi`.
fn edit_panels(
    panels: &mut Vec<(String, Panel)>,
    pi: usize,
    panel: &String,
    er: EdgeRef,
    kind: ParameterType,
    k: Decimal,
) -> (r: Result<(), RenderError>)
    requires
        pi < old(panels)@.len(),
        geometry_wf(geometry_of(old(panels)@)),
        k.wf(),
    ensures
        same_frame(final(panels)@, old(panels)@),
        geometry_wf(geometry_of(final(panels)@)),
        match r {
            Ok(_) => edge_step(geometry_of(old(panels)@), pi as int, *panel, er, kind, k) == Ok::<
                Geometry,
                RenderError,
            >(geometry_of(final(panels)@)),
            Err(e) => edge_step(geometry_of(old(panels)@), pi as int, *panel, er, kind, k) == Err::<
                Geometry,
                RenderError,
            >(e),
        },
{
    let ghost g0 = geometry_of(panels@);
    let ghost p0 = panels@;
    let mut entry = panels.remove(pi);
    assert(g0[pi as int] == (entry.1.vertices@, entry.1.edges@));
    let r = edit_panel(&mut entry.1, panel, er, kind, k);
    panels.insert(pi, entry);
    assert(panels@ =~= p0.update(pi as int, entry));
    assert(geometry_of(panels@) =~= g0.update(pi as int, (entry.1.vertices@, entry.1.edges@)));
    assert forall|i: int| 0 <= i < panels@.len() implies (#[trigger] panels@[i]).0@ == p0[i].0@
        && panels@[i].1.translation == p0[i].1.translation && panels@[i].1.rotation
        == p0[i].1.rotation by {}
    assert forall|i: int| 0 <= i < geometry_of(panels@).len() implies panel_wf(
        (#[trigger] geometry_of(panels@)[i]).0,
        geometry_of(panels@)[i].1,
    ) by {
        if i != pi as int {
            assert(geometry_of(panels@)[i] == g0[i]);
        }
    }
    r
}

/// Applies the edge references of one influence.
fn apply_influence(
    panels: &mut Vec<(String, Panel)>,
    base: &NamedMap<Panel>,
    infl: &Influence,
    kind: ParameterType,
    k: Decimal,
) -> (r: Result<(), RenderError>)
    requires
        base.wf(),
        same_frame(old(panels)@, base.entries@),
        geometry_wf(geometry_of(old(panels)@)),
        k.wf(),
    ensures
        same_frame(final(panels)@, base.entries@),
        geometry_wf(geometry_of(final(panels)@)),
        match r {
            Ok(_) => influence_step(*base, geometry_of(old(panels)@), *infl, kind, k) == Ok::<
                Geometry,
                RenderError,
            >(geometry_of(final(panels)@)),
            Err(e) => influence_step(*base, geometry_of(old(panels)@), *infl, kind, k) == Err::<
                Geometry,
                RenderError,
            >(e),
        },
{
    let ghost g0 = geometry_of(panels@);
    let pi = match base.position(&infl.panel) {
        Some(i) => i,
        None => return Err(RenderError::NoSuchPanel { panel: infl.panel.clone() }),
    };
    let mut j: usize = 0;
    while j < infl.edge_list.len()
        invariant
            g0 == geometry_of(old(panels)@),
            base.wf(),
            j <= infl.edge_list@.len(),
            same_frame(panels@, base.entries@),
            geometry_wf(geometry_of(panels@)),
            k.wf(),
            pi < base.entries@.len(),
            pi == base.pos(infl.panel@),
            base.has(infl.panel@),
            refs_step(g0, pi as int, *infl, kind, k, j as int) == Ok::<Geometry, RenderError>(
                geometry_of(panels@),
            ),
        decreases infl.edge_list@.len() - j,
    {
        let ghost before = panels@;
        match edit_panels(panels, pi, &infl.panel, infl.edge_list[j], kind, k) {
            Ok(()) => {},
            Err(e) => {
                proof {
                    assert(refs_step(g0, pi as int, *infl, kind, k, j + 1) == edge_step(geometry_of(before), pi as int, infl.panel, infl.edge_list@[j as int], kind, k));
                    lemma_refs_err(g0, pi as int, *infl, kind, k, j + 1, infl.edge_list@.len() as int);
                }
                return Err(e);
            },
        }
        assert forall|i: int| 0 <= i < panels@.len() implies (#[trigger] panels@[i]).0@
            == base.entries@[i].0@ && panels@[i].1.translation == base.entries@[i].1.translation
            && panels@[i].1.rotation == base.entries@[i].1.rotation by {
            assert(before[i].0@ == base.entries@[i].0@);
        }
        j = j + 1;
    }
    Ok(())
}

/// Applies every influence of a parameter, deformed by `k`.
fn apply_parameter(
    panels: &mut Vec<(String, Panel)>,
    base: &NamedMap<Panel>,
    p: &Parameter,
    k: Decimal,
) -> (r: Result<(), RenderError>)
    requires
        base.wf(),
        same_frame(old(panels)@, base.entries@),
        geometry_wf(geometry_of(old(panels)@)),
        k.wf(),
    ensures
        same_frame(final(panels)@, base.entries@),
        geometry_wf(geometry_of(final(panels)@)),
        match r {
            Ok(_) => influences_step(*base, geometry_of(old(panels)@), *p, k, p.influence@.len() as int)
                == Ok::<Geometry, RenderError>(geometry_of(final(panels)@)),
            Err(e) => influences_step(*base, geometry_of(old(panels)@), *p, k, p.influence@.len() as int)
                == Err::<Geometry, RenderError>(e),
        },
{
    let ghost g0 = geometry_of(panels@);
    let mut j: usize = 0;
    while j < p.influence.len()
        invariant
            g0 == geometry_of(old(panels)@),
            j <= p.influence@.len(),
            base.wf(),
            same_frame(panels@, base.entries@),
            geometry_wf(geometry_of(panels@)),
            k.wf(),
            influences_step(*base, g0, *p, k, j as int) == Ok::<Geometry, RenderError>(
                geometry_of(panels@),
            ),
        decreases p.influence@.len() - j,
    {
        let ghost before = panels@;
        match apply_influence(panels, base, &p.influence[j], p.kind, k) {
            Ok(()) => {},
            Err(e) => {
                proof {
                    assert(influences_step(*base, g0, *p, k, j + 1) == influence_step(*base, geometry_of(before), p.influence@[j as int], p.kind, k));
                    lemma_influences_err(*base, g0, *p, k, j + 1, p.influence@.len() as int);
                }
                return Err(e);
            },
        }
        j = j + 1;
    }
    Ok(())
}

fn copy_vec<T: Copy>(v: &Vec<T>) -> (r: Vec<T>)
    ensures
        r@ == v@,
{
    let mut r: Vec<T> = Vec::new();
    let mut i: usize = 0;
    while i < v.len()
        invariant
            i <= v@.len(),
            r@ == v@.subrange(0, i as int),
        decreases v@.len() - i,
    {
        r.push(v[i]);
        i = i + 1;
        assert(r@ =~= v@.subrange(0, i as int));
    }
    assert(r@ =~= v@);
    r
}

fn copy_strings(v: &Vec<String>) -> (r: Vec<String>)
    ensures
        r@ == v@,
{
    let mut r: Vec<String> = Vec::new();
    let mut i: usize = 0;
    while i < v.len()
        invariant
            i <= v@.len(),
            r@ == v@.subrange(0, i as int),
        decreases v@.len() - i,
    {
        r.push(v[i].clone());
        i = i + 1;
        assert(r@ =~= v@.subrange(0, i as int));
    }
    assert(r@ =~= v@);
    r
}

/// What a stitch joins: edge indices with panel names.
pub open spec fn stitch_view(s: Stitch) -> Seq<(usize, Seq<char>)> {
    s.0@.map_values(|t: StitchStrough| (t.edge, t.panel@))
}

fn copy_stitches(v: &Vec<Stitch>) -> (r: Vec<Stitch>)
    ensures
        r@.len() == v@.len(),
        forall|i: int| 0 <= i < v@.len() ==> stitch_view(#[trigger] r@[i]) == stitch_view(v@[i]),
{
    let mut r: Vec<Stitch> = Vec::new();
    let mut i: usize = 0;
    while i < v.len()
        invariant
            i <= v@.len(),
            r@.len() == i,
            forall|m: int| 0 <= m < i ==> stitch_view(#[trigger] r@[m]) == stitch_view(v@[m]),
        decreases v@.len() - i,
    {
        let src = &v[i].0;
        let mut s: Vec<StitchStrough> = Vec::new();
        let mut j: usize = 0;
        while j < src.len()
            invariant
                j <= src@.len(),
                s@.len() == j,
                forall|m: int| 0 <= m < j ==> (#[trigger] s@[m]).edge == src@[m].edge && s@[m].panel@ == src@[m].panel@,
            decreases src@.len() - j,
        {
            s.push(StitchStrough { edge: src[j].edge, panel: src[j].panel.clone() });
            j = j + 1;
        }
        let st = Stitch(s);
        assert(stitch_view(st) =~= stitch_view(v@[i as int]));
        r.push(st);
        i = i + 1;
    }
    r
}

fn copy_panels(v: &Vec<(String, Panel)>) -> (r: Vec<(String, Panel)>)
    ensures
        same_frame(r@, v@),
        geometry_of(r@) == geometry_of(v@),
{
    let mut r: Vec<(String, Panel)> = Vec::new();
    let mut i: usize = 0;
    while i < v.len()
        invariant
            i <= v@.len(),
            same_frame(r@, v@.subrange(0, i as int)),
            geometry_of(r@) == geometry_of(v@.subrange(0, i as int)),
        decreases v@.len() - i,
    {
        let e = &v[i];
        let p = Panel {
            translation: e.1.translation,
            rotation: e.1.rotation,
            edges: copy_vec(&e.1.edges),
            vertices: copy_vec(&e.1.vertices),
        };
        let ghost r0 = r@;
        r.push((e.0.clone(), p));
        i = i + 1;
        assert(geometry_of(r@) =~= geometry_of(v@.subrange(0, i as int))) by {
            assert(geometry_of(r0) == geometry_of(v@.subrange(0, i - 1)));
            assert forall|m: int| 0 <= m < i - 1 implies geometry_of(r@)[m] == geometry_of(v@.subrange(0, i as int))[m] by {
                assert(geometry_of(r0)[m] == geometry_of(v@.subrange(0, i - 1))[m]);
            }
        }
        assert forall|m: int| 0 <= m < r@.len() implies (#[trigger] r@[m]).0@ == v@.subrange(0, i as int)[m].0@
            && r@[m].1.translation == v@.subrange(0, i as int)[m].1.translation
            && r@[m].1.rotation == v@.subrange(0, i as int)[m].1.rotation by {
            if m < i - 1 {
                assert(r0[m] == r@[m]);
                assert(v@.subrange(0, i - 1)[m] == v@.subrange(0, i as int)[m]);
            }
        }
    }
    assert(v@.subrange(0, v@.len() as int) =~= v@);
    r
}

} // verus!

verus! {

impl Template {
    /// The parameters in their declared order.
    pub fn parameters<'a>(&'a self) -> (r: OrderedIter<'a, Parameter>)
        ensures
            r.items == &self.parameters,
            r.order == &self.parameter_order,
            r.pos == 0,
            self.wf() ==> r.wf(),
    {
        OrderedIter::new(&self.parameters, &self.parameter_order)
    }

    /// Applies the supplied parameter values to a copy of the base pattern.
    ///
    /// A supplied name that no parameter declares is refused. Parameters are
    /// then taken in their declared order; one without a supplied value is
    /// left at its neutral value. A supplied value outside the inclusive range
    /// is refused; otherwise each influence deforms its panel by the
    /// difference between the supplied and the neutral value, and every
    /// declared constraint is then checked against the deformed geometry.
    /// The returned pattern meets every declared constraint.
    pub fn with_parameters(&self, parameters: &Parameters) -> (r: Result<Pattern, RenderError>)
        requires
            self.wf(),
            parameters.wf(),
        ensures
            match r {
                Ok(p) => {
                    &&& self.applied(parameters) == Ok::<Geometry, RenderError>(
                        geometry_of(p.panels.entries@),
                    )
                    &&& p.wf()
                    &&& self.constraints_step(geometry_of(p.panels.entries@), self.constraint_order@.len() as int)
                        == Ok::<(), RenderError>(())
                    &&& same_frame(p.panels.entries@, self.pattern.panels.entries@)
                    &&& geometry_wf(geometry_of(p.panels.entries@))
                    &&& p.panel_order@ == self.pattern.panel_order@
                    &&& p.stitches@.len() == self.pattern.stitches@.len()
                    &&& forall|i: int|
                        0 <= i < p.stitches@.len() ==> stitch_view(
                            #[trigger] p.stitches@[i],
                        ) == stitch_view(self.pattern.stitches@[i])
                },
                Err(e) => self.applied(parameters) == Err::<Geometry, RenderError>(e),
            },
    {
        let n = parameters.parameters.entries.len();
        let mut j: usize = 0;
        while j < n
            invariant
                n == parameters.parameters.entries@.len(),
                self.wf(),
                j <= n,
                self.first_unknown(parameters, j as int) is None,
            decreases n - j,
        {
            let name = &parameters.parameters.entries[j].0;
            if self.parameters.position(name).is_none() {
                proof {
                    assert(self.first_unknown(parameters, j + 1) == Some(j as int));
                    lemma_first_unknown_kept(self, parameters, j + 1, n as int);
                }
                return Err(RenderError::NoSuchParameter { name: name.clone() });
            }
            j = j + 1;
        }
        let mut panels = copy_panels(&self.pattern.panels.entries);
        let mut i: usize = 0;
        while i < self.parameter_order.len()
            invariant
                self.wf(),
                parameters.wf(),
                i <= self.parameter_order@.len(),
                self.first_unknown(parameters, parameters.parameters.entries@.len() as int) is None,
                same_frame(panels@, self.pattern.panels.entries@),
                geometry_wf(geometry_of(panels@)),
                self.parameters_step(parameters, i as int) == Ok::<Geometry, RenderError>(
                    geometry_of(panels@),
                ),
            decreases self.parameter_order@.len() - i,
        {
            let name = &self.parameter_order[i];
            assert(self.parameters.has(self.parameter_order@[i as int]@));
            let p = match self.parameters.get(name) {
                Some(p) => p,
                None => return Err(RenderError::NoSuchParameter { name: name.clone() }),
            };
            assert(self.parameters.entries@[self.parameters.pos(name@)].1.value.wf());
            let ghost g = geometry_of(panels@);
            match parameters.parameters.get(name) {
                None => {},
                Some(v) => {
                    assert(parameters.parameters.entries@[parameters.parameters.pos(name@)].1.wf());
                    if v.lt(&p.range[0]) || p.range[1].lt(v) {
                        proof {
                            lemma_parameters_err(self, parameters, i + 1, self.parameter_order@.len() as int);
                        }
                        return Err(RenderError::OutOfRange { value: *v, range: p.range });
                    }
                    let k = match v.checked_sub(&p.value) {
                        Some(k) => k,
                        None => {
                            proof {
                                lemma_parameters_err(self, parameters, i + 1, self.parameter_order@.len() as int);
                            }
                            return Err(RenderError::Overflow);
                        },
                    };
                    match apply_parameter(&mut panels, &self.pattern.panels, p, k) {
                        Ok(()) => {},
                        Err(e) => {
                            proof {
                                lemma_parameters_err(self, parameters, i + 1, self.parameter_order@.len() as int);
                            }
                            return Err(e);
                        },
                    }
                    match self.check_constraints(&panels) {
                        Ok(()) => {},
                        Err(e) => {
                            proof {
                                lemma_parameters_err(self, parameters, i + 1, self.parameter_order@.len() as int);
                            }
                            return Err(e);
                        },
                    }
                },
            }
            i = i + 1;
        }
        match self.check_constraints(&panels) {
            Ok(()) => {},
            Err(e) => return Err(e),
        }
        let panel_order = copy_strings(&self.pattern.panel_order);
        let stitches = copy_stitches(&self.pattern.stitches);
        let result = Pattern { panels: NamedMap { entries: panels }, panel_order, stitches };
        proof {
            lemma_same_frame_wf(result.panels, &self.pattern);
        }
        Ok(result)
    }
}

} // verus!

verus! {

proof fn lemma_zero_edge(g: Geometry, pi: int, panel: String, er: EdgeRef, kind: ParameterType, k: Decimal)
    requires
        k.mantissa == 0,
        0 <= pi < g.len(),
    ensures
        edge_step(g, pi, panel, er, kind, k) matches Ok(g2) ==> g2 == g,
{
    let vs = g[pi].0;
    let es = g[pi].1;
    if er.id < es.len() {
        let e = es[er.id as int];
        let a = e.endpoints[0] as int;
        let b = e.endpoints[1] as int;
        if a < vs.len() && b < vs.len() {
            match kind {
                ParameterType::Length => {
                    if let Ok(nvs) = length_edit(vs, a, b, er, k) {
                        assert(nvs =~= vs);
                    }
                },
                ParameterType::Curve => {
                    if let Ok(ne) = curve_edit(e, k) {
                        assert(ne == e);
                        assert(es.update(er.id as int, ne) =~= es);
                    }
                },
            }
            if let Ok(g2) = edge_step(g, pi, panel, er, kind, k) {
                assert(g2 =~= g);
            }
        }
    }
}

proof fn lemma_zero_refs(g: Geometry, pi: int, infl: Influence, kind: ParameterType, k: Decimal, n: int)
    requires
        k.mantissa == 0,
        0 <= pi < g.len(),
    ensures
        refs_step(g, pi, infl, kind, k, n) matches Ok(g2) ==> g2 == g,
    decreases n,
{
    if n > 0 {
        lemma_zero_refs(g, pi, infl, kind, k, n - 1);
        if let Ok(g1) = refs_step(g, pi, infl, kind, k, n - 1) {
            lemma_zero_edge(g1, pi, infl.panel, infl.edge_list@[n - 1], kind, k);
        }
    }
}

proof fn lemma_zero_influences(panels: NamedMap<Panel>, g: Geometry, p: Parameter, k: Decimal, n: int)
    requires
        k.mantissa == 0,
        g.len() == panels.entries@.len(),
    ensures
        influences_step(panels, g, p, k, n) matches Ok(g2) ==> g2 == g,
    decreases n,
{
    if n > 0 {
        lemma_zero_influences(panels, g, p, k, n - 1);
        if let Ok(g1) = influences_step(panels, g, p, k, n - 1) {
            let infl = p.influence@[n - 1];
            if panels.has(infl.panel@) {
                lemma_zero_refs(g1, panels.pos(infl.panel@), infl, p.kind, k, infl.edge_list@.len() as int);
            }
        }
    }
}

/// Supplying every parameter at its neutral value (equal by value to its
/// declared default) leaves the geometry exactly as it was: where the
/// application succeeds, every coordinate is unchanged.
pub proof fn lemma_neutral_values_keep_geometry(t: &Template, values: &Parameters)
    requires
        t.wf(),
        values.wf(),
        forall|i: int|
            0 <= i < values.parameters.entries@.len() ==> {
                let name = (#[trigger] values.parameters.entries@[i]).0@;
                t.parameters.has(name) ==> values.parameters.entries@[i].1.value() == t.parameter(
                    name,
                ).value.value()
            },
    ensures
        t.applied(values) matches Ok(g) ==> g == geometry_of(t.pattern.panels.entries@),
{
    lemma_neutral_steps(t, values, t.parameter_order@.len() as int);
}

proof fn lemma_neutral_steps(t: &Template, values: &Parameters, n: int)
    requires
        t.wf(),
        values.wf(),
        forall|i: int|
            0 <= i < values.parameters.entries@.len() ==> {
                let name = (#[trigger] values.parameters.entries@[i]).0@;
                t.parameters.has(name) ==> values.parameters.entries@[i].1.value() == t.parameter(
                    name,
                ).value.value()
            },
        n <= t.parameter_order@.len(),
    ensures
        t.parameters_step(values, n) matches Ok(g) ==> g == geometry_of(t.pattern.panels.entries@),
    decreases n,
{
    if n > 0 {
        lemma_neutral_steps(t, values, n - 1);
        if let Ok(g) = t.parameters_step(values, n - 1) {
            let name = t.parameter_order@[n - 1]@;
            assert(t.parameters.has(name));
            let p = t.parameter(name);
            if values.parameters.has(name) {
                let i = values.parameters.pos(name);
                let v = values.parameters.entries@[i].1;
                assert(v.wf());
                assert(p.value.wf());
                crate::decimal::lemma_sub_of_equal(v, p.value);
                let k = dec_sub(v, p.value)->0;
                lemma_zero_influences(t.pattern.panels, g, p, k, p.influence@.len() as int);
            }
        }
    }
}

} // verus!

verus! {

fn panel_is_wf(p: &Panel) -> (r: bool)
    ensures
        r == panel_wf(p.vertices@, p.edges@),
{
    let mut i: usize = 0;
    while i < p.vertices.len()
        invariant
            i <= p.vertices@.len(),
            forall|j: int| 0 <= j < i ==> (#[trigger] p.vertices@[j]).wf(),
        decreases p.vertices@.len() - i,
    {
        let v = p.vertices[i];
        if v.x.scale > crate::decimal::MAX_SCALE || v.y.scale > crate::decimal::MAX_SCALE {
            return false;
        }
        i = i + 1;
    }
    let mut i: usize = 0;
    while i < p.edges.len()
        invariant
            i <= p.edges@.len(),
            forall|j: int| 0 <= j < p.vertices@.len() ==> (#[trigger] p.vertices@[j]).wf(),
            forall|j: int| 0 <= j < i ==> edge_wf(#[trigger] p.edges@[j]),
        decreases p.edges@.len() - i,
    {
        match p.edges[i].curvature {
            Some(c) => {
                if c.x.scale > crate::decimal::MAX_SCALE || c.y.scale > crate::decimal::MAX_SCALE {
                    return false;
                }
            },
            None => {},
        }
        i = i + 1;
    }
    true
}

impl Template {
    /// Whether the template is consistent: unique names, declared orders
    /// naming existing entries, and numbers within the supported precision.
    pub fn is_valid(&self) -> (r: bool)
        ensures
            r == self.wf(),
    {
        if !self.pattern.panels.has_unique_names() || !self.pattern.panels.covers(&self.pattern.panel_order) {
            return false;
        }
        if !self.parameters.has_unique_names() || !self.parameters.covers(&self.parameter_order) {
            return false;
        }
        if !self.constraints.has_unique_names() || !self.constraints.covers(&self.constraint_order) {
            return false;
        }
        let ghost g = geometry_of(self.pattern.panels.entries@);
        let mut i: usize = 0;
        while i < self.pattern.panels.entries.len()
            invariant
                g == geometry_of(self.pattern.panels.entries@),
                i <= self.pattern.panels.entries@.len(),
                forall|j: int| 0 <= j < i ==> panel_wf((#[trigger] g[j]).0, g[j].1),
            decreases self.pattern.panels.entries@.len() - i,
        {
            if !panel_is_wf(&self.pattern.panels.entries[i].1) {
                assert(!panel_wf(g[i as int].0, g[i as int].1));
                return false;
            }
            i = i + 1;
        }
        let mut i: usize = 0;
        while i < self.parameters.entries.len()
            invariant
                i <= self.parameters.entries@.len(),
                forall|j: int|
                    0 <= j < i ==> {
                        let p = #[trigger] self.parameters.entries@[j].1;
                        p.value.wf() && p.range[0].wf() && p.range[1].wf()
                    },
            decreases self.parameters.entries@.len() - i,
        {
            let p = &self.parameters.entries[i].1;
            if p.value.scale > crate::decimal::MAX_SCALE || p.range[0].scale > crate::decimal::MAX_SCALE
                || p.range[1].scale > crate::decimal::MAX_SCALE {
                return false;
            }
            i = i + 1;
        }
        true
    }
}

impl Parameters {
    /// Whether names are unique and numbers within the supported precision.
    pub fn is_valid(&self) -> (r: bool)
        ensures
            r == self.wf(),
    {
        if !self.parameters.has_unique_names() {
            return false;
        }
        let mut i: usize = 0;
        while i < self.parameters.entries.len()
            invariant
                self.parameters.wf(),
                i <= self.parameters.entries@.len(),
                forall|j: int| 0 <= j < i ==> (#[trigger] self.parameters.entries@[j]).1.wf(),
            decreases self.parameters.entries@.len() - i,
        {
            if self.parameters.entries[i].1.scale > crate::decimal::MAX_SCALE {
                return false;
            }
            i = i + 1;
        }
        true
    }
}

} // verus!

verus! {

/// A `Length` edit moves each chosen endpoint along the edge's own direction
/// only: with `k` the delta, the end vertex moves by `k * (end - start)` and
/// the start vertex by `-k * (end - start)`, component by component (values in
/// units of `10^-28`, scaled once more by `10^28` where a product is taken);
/// an endpoint that is not chosen, and every other vertex, stays as it was.
pub proof fn lemma_length_edit_along_edge(vs: Seq<Point2>, a: int, b: int, er: EdgeRef, k: Decimal)
    requires
        0 <= a < vs.len(),
        0 <= b < vs.len(),
        a != b,
        vs[a].wf(),
        vs[b].wf(),
        k.wf(),
        length_edit(vs, a, b, er, k) is Ok,
    ensures
        ({
            let nvs = length_edit(vs, a, b, er, k)->Ok_0;
            let p = crate::decimal::pow10(28);
            let dx = vs[b].x.value() - vs[a].x.value();
            let dy = vs[b].y.value() - vs[a].y.value();
            &&& nvs.len() == vs.len()
            &&& forall|i: int| 0 <= i < vs.len() && i != a && i != b ==> nvs[i] == vs[i]
            &&& moves_end(er) ==> nvs[b].x.value() * p == vs[b].x.value() * p + k.value() * dx
                && nvs[b].y.value() * p == vs[b].y.value() * p + k.value() * dy
            &&& !moves_end(er) ==> nvs[b] == vs[b]
            &&& moves_start(er) ==> nvs[a].x.value() * p == vs[a].x.value() * p - k.value() * dx
                && nvs[a].y.value() * p == vs[a].y.value() * p - k.value() * dy
            &&& !moves_start(er) ==> nvs[a] == vs[a]
        }),
{
    let p = crate::decimal::pow10(28);
    if k.mantissa == 0 {
        assert(k.value() == 0);
    } else if moves_start(er) || moves_end(er) {
        let s = vs[a];
        let e = vs[b];
        crate::decimal::lemma_sub_value(e.x, s.x);
        crate::decimal::lemma_sub_value(e.y, s.y);
        let ddx = dec_sub(e.x, s.x)->0;
        let ddy = dec_sub(e.y, s.y)->0;
        crate::decimal::lemma_mul_value(k, ddx);
        crate::decimal::lemma_mul_value(k, ddy);
        let d = scaled_delta(k, s, e)->0;
        crate::decimal::lemma_sub_value(s.x, d.x);
        crate::decimal::lemma_sub_value(s.y, d.y);
        crate::decimal::lemma_add_value(e.x, d.x);
        crate::decimal::lemma_add_value(e.y, d.y);
        assert(crate::decimal::MAX_SCALE as nat == 28);
        let (sx, sy, ex, ey, qx, qy) = (s.x.value(), s.y.value(), e.x.value(), e.y.value(), d.x.value(), d.y.value());
        assert((ex + qx) * p == ex * p + qx * p) by (nonlinear_arith);
        assert((ey + qy) * p == ey * p + qy * p) by (nonlinear_arith);
        assert((sx - qx) * p == sx * p - qx * p) by (nonlinear_arith);
        assert((sy - qy) * p == sy * p - qy * p) by (nonlinear_arith);
    }
}

} // verus!

verus! {

/// Edge `id` of the panel exists, and so do both of its endpoints.
pub open spec fn edge_resolves(p: Panel, id: usize) -> bool {
    &&& id < p.edges@.len()
    &&& p.edges@[id as int].endpoints[0] < p.vertices@.len()
    &&& p.edges@[id as int].endpoints[1] < p.vertices@.len()
}

/// The influence names an existing panel, and each of its references an
/// existing edge with existing endpoints.
pub open spec fn influence_resolves(panels: NamedMap<Panel>, infl: Influence) -> bool {
    &&& panels.has(infl.panel@)
    &&& forall|j: int|
        0 <= j < infl.edge_list@.len() ==> edge_resolves(
            panels.entries@[panels.pos(infl.panel@)].1,
            #[trigger] infl.edge_list@[j].id,
        )
}

proof fn lemma_zero_edge_ok(g: Geometry, pi: int, panel: String, er: EdgeRef, kind: ParameterType, k: Decimal)
    requires
        k.mantissa == 0,
        0 <= pi < g.len(),
        er.id < g[pi].1.len(),
        g[pi].1[er.id as int].endpoints[0] < g[pi].0.len(),
        g[pi].1[er.id as int].endpoints[1] < g[pi].0.len(),
    ensures
        edge_step(g, pi, panel, er, kind, k) == Ok::<Geometry, RenderError>(g),
{
    let es = g[pi].1;
    let e = es[er.id as int];
    match kind {
        ParameterType::Length => {},
        ParameterType::Curve => {
            if let Some(c) = e.curvature {
                assert(curve_edit(e, k) == Ok::<Edge, RenderError>(e));
            }
            assert(es.update(er.id as int, e) =~= es);
        },
    }
    assert(g.update(pi, g[pi]) =~= g);
}

proof fn lemma_zero_refs_ok(g: Geometry, pi: int, infl: Influence, kind: ParameterType, k: Decimal, n: int)
    requires
        k.mantissa == 0,
        0 <= pi < g.len(),
        0 <= n <= infl.edge_list@.len(),
        forall|j: int|
            0 <= j < infl.edge_list@.len() ==> {
                let id = (#[trigger] infl.edge_list@[j]).id;
                id < g[pi].1.len() && g[pi].1[id as int].endpoints[0] < g[pi].0.len()
                    && g[pi].1[id as int].endpoints[1] < g[pi].0.len()
            },
    ensures
        refs_step(g, pi, infl, kind, k, n) == Ok::<Geometry, RenderError>(g),
    decreases n,
{
    if n > 0 {
        lemma_zero_refs_ok(g, pi, infl, kind, k, n - 1);
        let er = infl.edge_list@[n - 1];
        lemma_zero_edge_ok(g, pi, infl.panel, er, kind, k);
    }
}

proof fn lemma_zero_influences_ok(panels: NamedMap<Panel>, p: Parameter, k: Decimal, n: int)
    requires
        k.mantissa == 0,
        0 <= n <= p.influence@.len(),
        forall|i: int| 0 <= i < p.influence@.len() ==> influence_resolves(panels, #[trigger] p.influence@[i]),
    ensures
        influences_step(panels, geometry_of(panels.entries@), p, k, n) == Ok::<Geometry, RenderError>(
            geometry_of(panels.entries@),
        ),
    decreases n,
{
    let g = geometry_of(panels.entries@);
    if n > 0 {
        lemma_zero_influences_ok(panels, p, k, n - 1);
        let infl = p.influence@[n - 1];
        assert(influence_resolves(panels, infl));
        let pi = panels.pos(infl.panel@);
        assert(g[pi] == (panels.entries@[pi].1.vertices@, panels.entries@[pi].1.edges@));
        assert forall|j: int| 0 <= j < infl.edge_list@.len() implies {
            let id = (#[trigger] infl.edge_list@[j]).id;
            id < g[pi].1.len() && g[pi].1[id as int].endpoints[0] < g[pi].0.len()
                && g[pi].1[id as int].endpoints[1] < g[pi].0.len()
        } by {
            assert(edge_resolves(panels.entries@[pi].1, infl.edge_list@[j].id));
        }
        lemma_zero_refs_ok(g, pi, infl, p.kind, k, infl.edge_list@.len() as int);
    }
}

proof fn lemma_first_unknown_none(t: &Template, values: &Parameters, n: int)
    requires
        0 <= n <= values.parameters.entries@.len(),
        forall|i: int|
            0 <= i < values.parameters.entries@.len() ==> t.parameters.has(
                (#[trigger] values.parameters.entries@[i]).0@,
            ),
    ensures
        t.first_unknown(values, n) is None,
    decreases n,
{
    if n > 0 {
        lemma_first_unknown_none(t, values, n - 1);
        assert(t.parameters.has(values.parameters.entries@[n - 1].0@));
    }
}

/// Supplying every parameter at its neutral value succeeds and leaves the
/// geometry exactly as it was, where every supplied name is declared, each
/// neutral value lies within its range, every influence resolves to existing
/// panels, edges and vertices, and the base pattern meets its constraints.
pub proof fn lemma_neutral_values_succeed(t: &Template, values: &Parameters)
    requires
        t.wf(),
        values.wf(),
        forall|i: int|
            0 <= i < values.parameters.entries@.len() ==> {
                let name = (#[trigger] values.parameters.entries@[i]).0@;
                t.parameters.has(name) && values.parameters.entries@[i].1.value() == t.parameter(
                    name,
                ).value.value()
            },
        forall|i: int|
            0 <= i < t.parameters.entries@.len() ==> {
                let p = (#[trigger] t.parameters.entries@[i]).1;
                &&& p.range[0].value() <= p.value.value() <= p.range[1].value()
                &&& forall|j: int|
                    0 <= j < p.influence@.len() ==> influence_resolves(
                        t.pattern.panels,
                        #[trigger] p.influence@[j],
                    )
            },
        t.constraints_step(geometry_of(t.pattern.panels.entries@), t.constraint_order@.len() as int)
            is Ok,
    ensures
        t.applied(values) == Ok::<Geometry, RenderError>(geometry_of(t.pattern.panels.entries@)),
{
    lemma_first_unknown_none(t, values, values.parameters.entries@.len() as int);
    lemma_neutral_steps_ok(t, values, t.parameter_order@.len() as int);
}

proof fn lemma_neutral_steps_ok(t: &Template, values: &Parameters, n: int)
    requires
        t.wf(),
        values.wf(),
        0 <= n <= t.parameter_order@.len(),
        forall|i: int|
            0 <= i < values.parameters.entries@.len() ==> {
                let name = (#[trigger] values.parameters.entries@[i]).0@;
                t.parameters.has(name) && values.parameters.entries@[i].1.value() == t.parameter(
                    name,
                ).value.value()
            },
        forall|i: int|
            0 <= i < t.parameters.entries@.len() ==> {
                let p = (#[trigger] t.parameters.entries@[i]).1;
                &&& p.range[0].value() <= p.value.value() <= p.range[1].value()
                &&& forall|j: int|
                    0 <= j < p.influence@.len() ==> influence_resolves(
                        t.pattern.panels,
                        #[trigger] p.influence@[j],
                    )
            },
        t.constraints_step(geometry_of(t.pattern.panels.entries@), t.constraint_order@.len() as int)
            is Ok,
    ensures
        t.parameters_step(values, n) == Ok::<Geometry, RenderError>(geometry_of(t.pattern.panels.entries@)),
    decreases n,
{
    if n > 0 {
        lemma_neutral_steps_ok(t, values, n - 1);
        let name = t.parameter_order@[n - 1]@;
        assert(t.parameters.has(name));
        let pos = t.parameters.pos(name);
        let p = t.parameter(name);
        assert(p == t.parameters.entries@[pos].1);
        if values.parameters.has(name) {
            let i = values.parameters.pos(name);
            let v = values.parameters.entries@[i].1;
            assert(v.wf());
            assert(p.value.wf());
            assert(values.parameters.entries@[i].0@ == name);
            crate::decimal::lemma_sub_of_equal(v, p.value);
            let k = dec_sub(v, p.value)->0;
            lemma_zero_influences_ok(t.pattern.panels, p, k, p.influence@.len() as int);
        }
    }
}

} // verus!
