//! The render sink: drawing primitives for each panel edge and a bounding
//! box that grows to hold them.
use vstd::prelude::*;
use crate::geometry::{grow, AsAABB, Point2, Rect, AABB};
use crate::pattern::{Edge, Panel, RenderError};
use crate::template::panel_wf;

verus! {

/// How a path continues from its starting point.
#[derive(Clone, Copy, Debug, PartialEq, Eq, Structural)]
pub enum Segment {
    /// A straight line to the point.
    Line(Point2),
    /// A quadratic curve through a control point to an end point.
    Quadratic { control: Point2, end: Point2 },
}

/// A move-to followed by one drawing primitive.
#[derive(Clone, Copy, Debug, PartialEq, Eq, Structural)]
pub struct PathData {
    pub start: Point2,
    pub segment: Segment,
}

/// A finished drawing: its paths and its viewport.
#[derive(Clone, Debug)]
pub struct Document {
    pub paths: Vec<PathData>,
    /// Left, top, right and bottom bounds of the drawing.
    pub view_box: Rect,
}

/// Accumulates paths and the box that holds them.
#[derive(Debug)]
pub struct Target {
    pub paths: Vec<PathData>,
    pub view_box: AABB,
}

impl Default for Target {
    fn default() -> (r: Target)
        ensures
            r.paths@.len() == 0,
            r.view_box.0 == crate::geometry::origin_rect(),
    {
        Target { paths: Vec::new(), view_box: AABB::default() }
    }
}

impl Target {
    /// Appends a path to the drawing.
    pub fn add(&mut self, path: PathData)
        ensures
            final(self).paths@ == old(self).paths@.push(path),
            final(self).view_box == old(self).view_box,
    {
        self.paths.push(path);
    }

    /// Grows the viewport to hold the shape.
    pub fn resize_for<S: AsAABB>(&mut self, shape: S)
        requires
            old(self).view_box.0.wf(),
            shape.bounds().wf(),
        ensures
            final(self).view_box.0 == grow(
                grow(old(self).view_box.0, shape.bounds().top_left),
                shape.bounds().bottom_right,
            ),
            final(self).view_box.0.wf(),
            final(self).paths == old(self).paths,
    {
        self.view_box.insert(shape);
    }

    /// The finished document, with the viewport set to the final box.
    pub fn build(self) -> (r: Document)
        ensures
            r.paths@ == self.paths@,
            r.view_box == self.view_box.0,
    {
        Document { paths: self.paths, view_box: self.view_box.rect() }
    }
}

/// The path drawn for an edge, or the index of a missing vertex.
pub open spec fn edge_path(vs: Seq<Point2>, e: Edge) -> Result<PathData, RenderError> {
    let a = e.endpoints[0];
    let b = e.endpoints[1];
    if a >= vs.len() {
        Err(RenderError::NoSuchVertex { index: a })
    } else if b >= vs.len() {
        Err(RenderError::NoSuchVertex { index: b })
    } else {
        match e.curvature {
            Some(c) => Ok(
                PathData {
                    start: vs[a as int],
                    segment: Segment::Quadratic { control: c, end: vs[b as int] },
                },
            ),
            None => Ok(PathData { start: vs[a as int], segment: Segment::Line(vs[b as int]) }),
        }
    }
}

/// The box grown to hold every point of a path.
pub open spec fn grow_path(r: Rect, p: PathData) -> Rect {
    match p.segment {
        Segment::Line(end) => grow(grow(r, p.start), end),
        Segment::Quadratic { control, end } => grow(grow(grow(r, p.start), control), end),
    }
}

/// The paths of the first `n` edges and the box grown from `r` to hold them.
pub open spec fn render_edges(vs: Seq<Point2>, es: Seq<Edge>, r: Rect, n: int) -> Result<
    (Seq<PathData>, Rect),
    RenderError,
>
    decreases n,
{
    if n <= 0 {
        Ok((Seq::empty(), r))
    } else {
        match render_edges(vs, es, r, n - 1) {
            Ok((ps, r1)) => match edge_path(vs, es[n - 1]) {
                Ok(p) => Ok((ps.push(p), grow_path(r1, p))),
                Err(e) => Err(e),
            },
            Err(e) => Err(e),
        }
    }
}

proof fn lemma_render_err(vs: Seq<Point2>, es: Seq<Edge>, r: Rect, m: int, n: int)
    requires
        0 <= m <= n,
        render_edges(vs, es, r, m) is Err,
    ensures
        render_edges(vs, es, r, n) == render_edges(vs, es, r, m),
    decreases n - m,
{
    if n > m {
        lemma_render_err(vs, es, r, m, n - 1);
    }
}

impl Panel {
    /// Draws each edge, in order, as a move to its first endpoint followed by a
    /// line (or a quadratic curve through its control point) to its second,
    /// and grows the target's viewport to hold every point drawn.
    pub fn render(&self, target: &mut Target) -> (r: Result<(), RenderError>)
        requires
            panel_wf(self.vertices@, self.edges@),
            old(target).view_box.0.wf(),
        ensures
            final(target).view_box.0.wf(),
            match r {
                Ok(_) => render_edges(
                    self.vertices@,
                    self.edges@,
                    old(target).view_box.0,
                    self.edges@.len() as int,
                ) == Ok::<(Seq<PathData>, Rect), RenderError>(
                    (
                        final(target).paths@.subrange(
                            old(target).paths@.len() as int,
                            final(target).paths@.len() as int,
                        ),
                        final(target).view_box.0,
                    ),
                ) && final(target).paths@.subrange(0, old(target).paths@.len() as int)
                    == old(target).paths@,
                Err(e) => render_edges(
                    self.vertices@,
                    self.edges@,
                    old(target).view_box.0,
                    self.edges@.len() as int,
                ) == Err::<(Seq<PathData>, Rect), RenderError>(e),
            },
    {
        let ghost r0 = target.view_box.0;
        let ghost p0 = target.paths@;
        let mut i: usize = 0;
        assert(target.paths@.subrange(p0.len() as int, target.paths@.len() as int) =~= Seq::<PathData>::empty());
        assert(target.paths@.subrange(0, p0.len() as int) =~= p0);
        while i < self.edges.len()
            invariant
                panel_wf(self.vertices@, self.edges@),
                i <= self.edges@.len(),
                target.view_box.0.wf(),
                r0 == old(target).view_box.0,
                p0 == old(target).paths@,
                target.paths@.len() >= p0.len(),
                target.paths@.subrange(0, p0.len() as int) == p0,
                render_edges(self.vertices@, self.edges@, r0, i as int) == Ok::<
                    (Seq<PathData>, Rect),
                    RenderError,
                >((target.paths@.subrange(p0.len() as int, target.paths@.len() as int), target.view_box.0)),
            decreases self.edges@.len() - i,
        {
            let edge = self.edges[i];
            let a = edge.endpoints[0];
            let b = edge.endpoints[1];
            if a >= self.vertices.len() {
                proof {
                    lemma_render_err(self.vertices@, self.edges@, r0, i + 1, self.edges@.len() as int);
                }
                return Err(RenderError::NoSuchVertex { index: a });
            }
            if b >= self.vertices.len() {
                proof {
                    lemma_render_err(self.vertices@, self.edges@, r0, i + 1, self.edges@.len() as int);
                }
                return Err(RenderError::NoSuchVertex { index: b });
            }
            let first = self.vertices[a];
            let second = self.vertices[b];
            assert(crate::template::edge_wf(self.edges@[i as int]));
            let ghost before = target.paths@;
            let path = match edge.curvature {
                Some(c) => PathData { start: first, segment: Segment::Quadratic { control: c, end: second } },
                None => PathData { start: first, segment: Segment::Line(second) },
            };
            target.add(path);
            target.resize_for(first);
            match edge.curvature {
                Some(c) => {
                    target.resize_for(c);
                },
                None => {},
            }
            target.resize_for(second);
            assert(target.paths@.subrange(p0.len() as int, target.paths@.len() as int) =~= before.subrange(
                p0.len() as int,
                before.len() as int,
            ).push(path));
            assert(target.paths@.subrange(0, p0.len() as int) =~= before.subrange(0, p0.len() as int));
            i = i + 1;
        }
        Ok(())
    }
}

} // verus!
