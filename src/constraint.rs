//! Checking constraints after deformation: the edges that a constraint
//! names must agree exactly in squared length, or in curvature. A moved
//! vertex changes every edge that ends in it, so all constraints are checked.
use vstd::prelude::*;
use crate::decimal::{dec_add, dec_mul, dec_sub, Decimal};
use crate::geometry::Point2;
use crate::pattern::{ConstraintType, Edge, NamedMap, Panel, RenderError};
use crate::template::{geometry_of, panel_wf, Constraint, Geometry, Influence};

verus! {

/// What a constraint compares of an edge: its squared length (and zero), or
/// its control point (zero for a straight edge).
pub type Measure = (Decimal, Decimal);

pub open spec fn zero() -> Decimal {
    Decimal { mantissa: 0, scale: 0 }
}

pub open spec fn squared_length(a: Point2, b: Point2) -> Option<Decimal> {
    match (dec_sub(b.x, a.x), dec_sub(b.y, a.y)) {
        (Some(dx), Some(dy)) => match (dec_mul(dx, dx), dec_mul(dy, dy)) {
            (Some(x2), Some(y2)) => dec_add(x2, y2),
            _ => None,
        },
        _ => None,
    }
}

/// The measure of edge `id` of a panel.
pub open spec fn edge_measure(
    vs: Seq<Point2>,
    es: Seq<Edge>,
    panel: String,
    id: usize,
    kind: ConstraintType,
) -> Result<Measure, RenderError> {
    if id >= es.len() {
        Err(RenderError::NoSuchEdge { panel, edge: id })
    } else {
        let e = es[id as int];
        let a = e.endpoints[0];
        let b = e.endpoints[1];
        if a >= vs.len() {
            Err(RenderError::NoSuchVertex { index: a })
        } else if b >= vs.len() {
            Err(RenderError::NoSuchVertex { index: b })
        } else {
            match kind {
                ConstraintType::LengthEquality => match squared_length(vs[a as int], vs[b as int]) {
                    Some(l) => Ok((l, zero())),
                    None => Err(RenderError::Overflow),
                },
                ConstraintType::CurveEquality => match e.curvature {
                    Some(c) => Ok((c.x, c.y)),
                    None => Ok((zero(), zero())),
                },
            }
        }
    }
}

/// Measures of the first `n` edge references of an influence on panel `pi`.
pub open spec fn ref_measures(g: Geometry, pi: int, infl: Influence, kind: ConstraintType, n: int) -> Result<
    Seq<Measure>,
    RenderError,
>
    decreases n,
{
    if n <= 0 {
        Ok(Seq::empty())
    } else {
        match ref_measures(g, pi, infl, kind, n - 1) {
            Ok(ms) => match edge_measure(g[pi].0, g[pi].1, infl.panel, infl.edge_list@[n - 1].id, kind) {
                Ok(m) => Ok(ms.push(m)),
                Err(e) => Err(e),
            },
            Err(e) => Err(e),
        }
    }
}

/// Measures of the first `n` influences of a constraint, in order.
pub open spec fn constraint_measures(
    panels: NamedMap<Panel>,
    g: Geometry,
    c: Constraint,
    n: int,
) -> Result<Seq<Measure>, RenderError>
    decreases n,
{
    if n <= 0 {
        Ok(Seq::empty())
    } else {
        match constraint_measures(panels, g, c, n - 1) {
            Ok(ms) => {
                let infl = c.influence@[n - 1];
                if !panels.has(infl.panel@) {
                    Err(RenderError::NoSuchPanel { panel: infl.panel })
                } else {
                    match ref_measures(g, panels.pos(infl.panel@), infl, c.kind, infl.edge_list@.len() as int) {
                        Ok(more) => Ok(ms + more),
                        Err(e) => Err(e),
                    }
                }
            },
            Err(e) => Err(e),
        }
    }
}

/// Two measures agree by value.
pub open spec fn same_measure(a: Measure, b: Measure) -> bool {
    a.0.value() == b.0.value() && a.1.value() == b.1.value()
}

/// Every measure agrees with the first.
pub open spec fn all_agree(ms: Seq<Measure>) -> bool {
    forall|i: int| 0 <= i < ms.len() ==> same_measure(#[trigger] ms[i], ms[0])
}

/// The constraint holds of the geometry, or the error that stops it.
pub open spec fn constraint_result(panels: NamedMap<Panel>, g: Geometry, c: Constraint, name: String) -> Result<
    (),
    RenderError,
> {
    match constraint_measures(panels, g, c, c.influence@.len() as int) {
        Err(e) => Err(e),
        Ok(ms) => if all_agree(ms) {
            Ok(())
        } else {
            Err(RenderError::ConstraintViolated { constraint: name })
        },
    }
}

proof fn lemma_ref_measures_err(g: Geometry, pi: int, infl: Influence, kind: ConstraintType, m: int, n: int)
    requires
        0 <= m <= n,
        ref_measures(g, pi, infl, kind, m) is Err,
    ensures
        ref_measures(g, pi, infl, kind, n) == ref_measures(g, pi, infl, kind, m),
    decreases n - m,
{
    if n > m {
        lemma_ref_measures_err(g, pi, infl, kind, m, n - 1);
    }
}

proof fn lemma_constraint_measures_err(panels: NamedMap<Panel>, g: Geometry, c: Constraint, m: int, n: int)
    requires
        0 <= m <= n,
        constraint_measures(panels, g, c, m) is Err,
    ensures
        constraint_measures(panels, g, c, n) == constraint_measures(panels, g, c, m),
    decreases n - m,
{
    if n > m {
        lemma_constraint_measures_err(panels, g, c, m, n - 1);
    }
}

fn squared_length_exec(a: &Point2, b: &Point2) -> (r: Option<Decimal>)
    requires
        a.wf(),
        b.wf(),
    ensures
        r == squared_length(*a, *b),
{
    match (b.x.checked_sub(&a.x), b.y.checked_sub(&a.y)) {
        (Some(dx), Some(dy)) => match (dx.checked_mul(&dx), dy.checked_mul(&dy)) {
            (Some(x2), Some(y2)) => x2.checked_add(&y2),
            _ => None,
        },
        _ => None,
    }
}

fn measure_edge(p: &Panel, panel: &String, id: usize, kind: ConstraintType) -> (r: Result<Measure, RenderError>)
    requires
        panel_wf(p.vertices@, p.edges@),
    ensures
        r == edge_measure(p.vertices@, p.edges@, *panel, id, kind),
        r matches Ok(m) ==> m.0.wf() && m.1.wf(),
{
    if id >= p.edges.len() {
        return Err(RenderError::NoSuchEdge { panel: panel.clone(), edge: id });
    }
    let e = p.edges[id];
    let a = e.endpoints[0];
    let b = e.endpoints[1];
    if a >= p.vertices.len() {
        return Err(RenderError::NoSuchVertex { index: a });
    }
    if b >= p.vertices.len() {
        return Err(RenderError::NoSuchVertex { index: b });
    }
    assert(crate::template::edge_wf(p.edges@[id as int]));
    match kind {
        ConstraintType::LengthEquality => match squared_length_exec(&p.vertices[a], &p.vertices[b]) {
            Some(l) => Ok((l, Decimal::zero())),
            None => Err(RenderError::Overflow),
        },
        ConstraintType::CurveEquality => match e.curvature {
            Some(c) => Ok((c.x, c.y)),
            None => Ok((Decimal::zero(), Decimal::zero())),
        },
    }
}

/// Measures every edge that the constraint names, in order.
fn measure_constraint(
    panels: &Vec<(String, Panel)>,
    base: &NamedMap<Panel>,
    c: &Constraint,
) -> (r: Result<Vec<Measure>, RenderError>)
    requires
        base.wf(),
        crate::template::same_frame(panels@, base.entries@),
        crate::template::geometry_wf(geometry_of(panels@)),
    ensures
        match r {
            Ok(ms) => constraint_measures(*base, geometry_of(panels@), *c, c.influence@.len() as int)
                == Ok::<Seq<Measure>, RenderError>(ms@),
            Err(e) => constraint_measures(*base, geometry_of(panels@), *c, c.influence@.len() as int)
                == Err::<Seq<Measure>, RenderError>(e),
        },
        r matches Ok(ms) ==> forall|i: int| 0 <= i < ms@.len() ==> (#[trigger] ms@[i]).0.wf() && ms@[i].1.wf(),
{
    let ghost g = geometry_of(panels@);
    let mut out: Vec<Measure> = Vec::new();
    let mut i: usize = 0;
    while i < c.influence.len()
        invariant
            g == geometry_of(panels@),
            base.wf(),
            crate::template::same_frame(panels@, base.entries@),
            crate::template::geometry_wf(g),
            i <= c.influence@.len(),
            constraint_measures(*base, g, *c, i as int) == Ok::<Seq<Measure>, RenderError>(out@),
            forall|m: int| 0 <= m < out@.len() ==> (#[trigger] out@[m]).0.wf() && out@[m].1.wf(),
        decreases c.influence@.len() - i,
    {
        let infl = &c.influence[i];
        let pi = match base.position(&infl.panel) {
            Some(pi) => pi,
            None => {
                proof {
                    lemma_constraint_measures_err(*base, g, *c, i + 1, c.influence@.len() as int);
                }
                return Err(RenderError::NoSuchPanel { panel: infl.panel.clone() });
            },
        };
        let p = &panels[pi].1;
        assert(g[pi as int] == (p.vertices@, p.edges@));
        let ghost before = out@;
        let mut j: usize = 0;
        assert(out@.subrange(before.len() as int, out@.len() as int) =~= Seq::<Measure>::empty());
        assert(out@.subrange(0, before.len() as int) =~= before);
        while j < infl.edge_list.len()
            invariant
                i < c.influence@.len(),
                *infl == c.influence@[i as int],
                base.wf(),
                base.has(infl.panel@),
                pi == base.pos(infl.panel@),
                constraint_measures(*base, g, *c, i as int) == Ok::<Seq<Measure>, RenderError>(before),
                g == geometry_of(panels@),
                crate::template::geometry_wf(g),
                pi < panels@.len(),
                g[pi as int] == (p.vertices@, p.edges@),
                panel_wf(p.vertices@, p.edges@),
                j <= infl.edge_list@.len(),
                out@.len() >= before.len(),
                out@.subrange(0, before.len() as int) == before,
                ref_measures(g, pi as int, *infl, c.kind, j as int) == Ok::<Seq<Measure>, RenderError>(
                    out@.subrange(before.len() as int, out@.len() as int),
                ),
                forall|m: int| 0 <= m < out@.len() ==> (#[trigger] out@[m]).0.wf() && out@[m].1.wf(),
            decreases infl.edge_list@.len() - j,
        {
            match measure_edge(p, &infl.panel, infl.edge_list[j].id, c.kind) {
                Ok(m) => {
                    let ghost o = out@;
                    out.push(m);
                    assert(out@.subrange(before.len() as int, out@.len() as int) =~= o.subrange(
                        before.len() as int,
                        o.len() as int,
                    ).push(m));
                    assert(out@.subrange(0, before.len() as int) =~= o.subrange(0, before.len() as int));
                },
                Err(e) => {
                    proof {
                        lemma_ref_measures_err(g, pi as int, *infl, c.kind, j + 1, infl.edge_list@.len() as int);
                        lemma_constraint_measures_err(*base, g, *c, i + 1, c.influence@.len() as int);
                    }
                    return Err(e);
                },
            }
            j = j + 1;
        }
        assert(out@ =~= before + out@.subrange(before.len() as int, out@.len() as int));
        i = i + 1;
    }
    Ok(out)
}

fn measures_agree(a: &Measure, b: &Measure) -> (r: bool)
    requires
        a.0.wf(),
        a.1.wf(),
        b.0.wf(),
        b.1.wf(),
    ensures
        r == same_measure(*a, *b),
{
    !a.0.lt(&b.0) && !b.0.lt(&a.0) && !a.1.lt(&b.1) && !b.1.lt(&a.1)
}

/// Checks that every edge the constraint names agrees with the first.
pub fn check_constraint(
    panels: &Vec<(String, Panel)>,
    base: &NamedMap<Panel>,
    c: &Constraint,
    name: &String,
) -> (r: Result<(), RenderError>)
    requires
        base.wf(),
        crate::template::same_frame(panels@, base.entries@),
        crate::template::geometry_wf(geometry_of(panels@)),
    ensures
        r == constraint_result(*base, geometry_of(panels@), *c, *name),
{
    let ms = match measure_constraint(panels, base, c) {
        Ok(ms) => ms,
        Err(e) => return Err(e),
    };
    let mut i: usize = 0;
    while i < ms.len()
        invariant
            constraint_measures(*base, geometry_of(panels@), *c, c.influence@.len() as int) == Ok::<
                Seq<Measure>,
                RenderError,
            >(ms@),
            i <= ms@.len(),
            forall|m: int| 0 <= m < ms@.len() ==> (#[trigger] ms@[m]).0.wf() && ms@[m].1.wf(),
            forall|m: int| 0 <= m < i ==> same_measure(#[trigger] ms@[m], ms@[0]),
        decreases ms@.len() - i,
    {
        if !measures_agree(&ms[i], &ms[0]) {
            assert(!same_measure(ms@[i as int], ms@[0]));
            assert(!all_agree(ms@));
            return Err(RenderError::ConstraintViolated { constraint: name.clone() });
        }
        i = i + 1;
    }
    Ok(())
}

} // verus!
