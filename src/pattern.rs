//! The garment geometry: panels of vertices and edges, stitches, edge
//! references, and name-keyed collections iterated in a declared order.
use vstd::prelude::*;
use crate::decimal::Decimal;
use crate::geometry::{Point2, Vector3};

verus! {

/// How curvature control points are expressed.
#[derive(Clone, Copy, Debug, PartialEq, Eq, Structural)]
pub enum CurvatureCoords {
    Relative,
}

/// Which endpoints of an edge a reference affects.
#[derive(Clone, Copy, Debug, PartialEq, Eq, Structural)]
pub enum Direction {
    Start,
    End,
    Both,
}

impl Direction {
    pub fn is_start(&self) -> (r: bool)
        ensures
            r == (*self == Direction::Start || *self == Direction::Both),
    {
        match self {
            Direction::Start | Direction::Both => true,
            Direction::End => false,
        }
    }

    pub fn is_end(&self) -> (r: bool)
        ensures
            r == (*self == Direction::End || *self == Direction::Both),
    {
        match self {
            Direction::End | Direction::Both => true,
            Direction::Start => false,
        }
    }
}

/// What a parameter changes: the length of edges or their curvature.
#[derive(Clone, Copy, Debug, PartialEq, Eq, Structural)]
pub enum ParameterType {
    Length,
    Curve,
}

/// What a constraint keeps equal across its edges.
#[derive(Clone, Copy, Debug, PartialEq, Eq, Structural)]
pub enum ConstraintType {
    LengthEquality,
    CurveEquality,
}

/// Properties of a dataset of templates.
#[derive(Clone, Debug)]
pub struct DatasetProperties {
    pub templates: String,
}

/// A reference to an edge of a panel, with the endpoints it affects.
#[derive(Clone, Copy, Debug, PartialEq, Eq, Structural)]
pub struct EdgeRef {
    pub id: usize,
    pub direction: Option<Direction>,
}

/// The two encoded forms of an edge reference: an object with a direction,
/// or a bare edge index.
#[derive(Clone, Copy, Debug, PartialEq, Eq, Structural)]
pub enum RawEdgeRef {
    WithDirection { direction: Direction, id: usize },
    Id(usize),
}

pub open spec fn edge_ref_of_raw(raw: RawEdgeRef) -> EdgeRef {
    match raw {
        RawEdgeRef::WithDirection { direction, id } => EdgeRef { id, direction: Some(direction) },
        RawEdgeRef::Id(id) => EdgeRef { id, direction: None },
    }
}

pub open spec fn raw_of_edge_ref(e: EdgeRef) -> RawEdgeRef {
    match e.direction {
        Some(direction) => RawEdgeRef::WithDirection { direction, id: e.id },
        None => RawEdgeRef::Id(e.id),
    }
}

impl From<RawEdgeRef> for EdgeRef {
    fn from(raw: RawEdgeRef) -> (r: EdgeRef) {
        match raw {
            RawEdgeRef::WithDirection { direction, id } => EdgeRef { id, direction: Some(direction) },
            RawEdgeRef::Id(id) => EdgeRef { id, direction: None },
        }
    }
}

impl vstd::std_specs::convert::FromSpecImpl<RawEdgeRef> for EdgeRef {
    open spec fn obeys_from_spec() -> bool {
        true
    }

    open spec fn from_spec(v: RawEdgeRef) -> EdgeRef {
        edge_ref_of_raw(v)
    }
}

impl From<EdgeRef> for RawEdgeRef {
    fn from(e: EdgeRef) -> (r: RawEdgeRef) {
        match e.direction {
            Some(direction) => RawEdgeRef::WithDirection { direction, id: e.id },
            None => RawEdgeRef::Id(e.id),
        }
    }
}

impl vstd::std_specs::convert::FromSpecImpl<EdgeRef> for RawEdgeRef {
    open spec fn obeys_from_spec() -> bool {
        true
    }

    open spec fn from_spec(v: EdgeRef) -> RawEdgeRef {
        raw_of_edge_ref(v)
    }
}

/// Encoding an edge reference and decoding it again gives it back: without a
/// direction it is encoded as the bare index, with one as an object carrying
/// that direction; and each encoded form decodes to a reference that encodes
/// back to it.
pub proof fn lemma_edge_ref_round_trip(e: EdgeRef, raw: RawEdgeRef)
    ensures
        edge_ref_of_raw(raw_of_edge_ref(e)) == e,
        raw_of_edge_ref(edge_ref_of_raw(raw)) == raw,
        e.direction is None ==> raw_of_edge_ref(e) == RawEdgeRef::Id(e.id),
        e.direction is Some ==> raw_of_edge_ref(e) == (RawEdgeRef::WithDirection {
            direction: e.direction->0,
            id: e.id,
        }),
{
}

/// One edge taking part in a stitch.
#[derive(Clone, Debug)]
pub struct StitchStrough {
    pub edge: usize,
    pub panel: String,
}

/// Edges, of one or more panels, that are sewn together.
#[derive(Clone, Debug)]
pub struct Stitch(pub Vec<StitchStrough>);

/// An edge between two vertices of its panel, straight or a quadratic curve.
#[derive(Clone, Copy, Debug)]
pub struct Edge {
    /// Indices into the panel's vertices.
    pub endpoints: [usize; 2],
    /// Control point of a quadratic curve; `None` for a straight edge.
    pub curvature: Option<Point2>,
}

/// The errors of applying parameters to a template and of rendering.
#[derive(Clone, Debug, PartialEq, Eq)]
pub enum RenderError {
    NoSuchParameter { name: String },
    OutOfRange { value: Decimal, range: [Decimal; 2] },
    NoSuchPanel { panel: String },
    NoSuchEdge { panel: String, edge: usize },
    NoSuchVertex { index: usize },
    /// A coordinate left the exact number range.
    Overflow,
    /// Edges that a constraint declares equal differ after deformation.
    ConstraintViolated { constraint: String },
}

/// A flat piece of a garment.
#[derive(Clone, Debug)]
pub struct Panel {
    pub translation: Vector3,
    pub rotation: Vector3,
    pub edges: Vec<Edge>,
    pub vertices: Vec<Point2>,
}

impl Panel {
    pub fn get_vertex(&self, index: usize) -> (r: Result<&Point2, RenderError>)
        ensures
            index < self.vertices@.len() ==> r == Ok::<&Point2, RenderError>(&self.vertices@[index as int]),
            index >= self.vertices@.len() ==> r == Err::<&Point2, RenderError>(RenderError::NoSuchVertex { index }),
    {
        if index < self.vertices.len() {
            Ok(&self.vertices[index])
        } else {
            Err(RenderError::NoSuchVertex { index })
        }
    }
}

impl Panel {
    /// The vertex at `index`, to be changed in place.
    pub fn get_vertex_mut(&mut self, index: usize) -> (r: Result<&mut Point2, RenderError>)
        ensures
            index < old(self).vertices@.len() ==> r is Ok,
            index >= old(self).vertices@.len() ==> r == Err::<&mut Point2, RenderError>(
                RenderError::NoSuchVertex { index },
            ) && *final(self) == *old(self),
            r matches Ok(v) ==> *v == old(self).vertices@[index as int] && final(self).vertices@
                == old(self).vertices@.update(index as int, *final(v)) && final(self).edges
                == old(self).edges && final(self).translation == old(self).translation
                && final(self).rotation == old(self).rotation,
    {
        if index < self.vertices.len() {
            Ok(&mut self.vertices[index])
        } else {
            Err(RenderError::NoSuchVertex { index })
        }
    }
}

/// A collection of values keyed by unique names, kept in insertion order.
#[derive(Clone, Debug)]
pub struct NamedMap<T> {
    pub entries: Vec<(String, T)>,
}

impl<T> NamedMap<T> {
    pub open spec fn names(&self) -> Seq<Seq<char>> {
        self.entries@.map_values(|e: (String, T)| e.0@)
    }

    /// No name occurs twice.
    pub open spec fn wf(&self) -> bool {
        forall|i: int, j: int|
            0 <= i < j < self.entries@.len() ==> #[trigger] self.entries@[i].0@
                != #[trigger] self.entries@[j].0@
    }

    pub open spec fn has(&self, name: Seq<char>) -> bool {
        exists|i: int| 0 <= i < self.entries@.len() && #[trigger] self.entries@[i].0@ == name
    }

    /// The position of the entry named `name`.
    pub open spec fn pos(&self, name: Seq<char>) -> int {
        choose|i: int| 0 <= i < self.entries@.len() && #[trigger] self.entries@[i].0@ == name
    }

    pub fn new() -> (r: NamedMap<T>)
        ensures
            r.entries@.len() == 0,
    {
        NamedMap { entries: Vec::new() }
    }

    /// Where the entry named `name` stands, if there is one.
    pub fn position(&self, name: &String) -> (r: Option<usize>)
        requires
            self.wf(),
        ensures
            r is None <==> !self.has(name@),
            r matches Some(i) ==> i == self.pos(name@) && i < self.entries@.len()
                && self.entries@[i as int].0@ == name@,
    {
        let mut i: usize = 0;
        while i < self.entries.len()
            invariant
                self.wf(),
                i <= self.entries@.len(),
                forall|j: int| 0 <= j < i ==> self.entries@[j].0@ != name@,
            decreases self.entries@.len() - i,
        {
            let same = self.entries[i].0 == *name;
            if same {
                assert(self.entries@[i as int].0@ == name@);
                let ghost p = self.pos(name@);
                assert(self.has(name@));
                assert(self.entries@[p].0@ == name@);
                assert(p == i as int) by {
                    if p < i as int {
                    } else if p > i as int {
                        assert(self.entries@[i as int].0@ != self.entries@[p].0@);
                    }
                };
                return Some(i);
            }
            i = i + 1;
        }
        None
    }

    /// The value named `name`, if there is one.
    pub fn get(&self, name: &String) -> (r: Option<&T>)
        requires
            self.wf(),
        ensures
            r is None <==> !self.has(name@),
            r matches Some(v) ==> *v == self.entries@[self.pos(name@)].1,
    {
        match self.position(name) {
            Some(i) => Some(&self.entries[i].1),
            None => None,
        }
    }
}

/// Every name of `order` is a key of `items`.
pub open spec fn order_covers<T>(items: &NamedMap<T>, order: Seq<String>) -> bool {
    forall|i: int| 0 <= i < order.len() ==> items.has(#[trigger] order[i]@)
}

/// Walks a name-keyed collection in a declared order.
pub struct OrderedIter<'a, T> {
    pub items: &'a NamedMap<T>,
    pub order: &'a Vec<String>,
    pub pos: usize,
}

impl<'a, T> OrderedIter<'a, T> {
    pub open spec fn wf(&self) -> bool {
        self.items.wf() && order_covers(self.items, self.order@) && self.pos <= self.order@.len()
    }

    /// Starts at the first name of `order`.
    pub fn new(items: &'a NamedMap<T>, order: &'a Vec<String>) -> (r: OrderedIter<'a, T>)
        ensures
            r.items == items,
            r.order == order,
            r.pos == 0,
    {
        OrderedIter { items, order, pos: 0 }
    }

    /// The next name in order with its value; `None` after the last.
    pub fn next(&mut self) -> (r: Option<(&'a String, &'a T)>)
        requires
            old(self).wf(),
        ensures
            final(self).wf(),
            final(self).items == old(self).items,
            final(self).order == old(self).order,
            old(self).pos < old(self).order@.len() ==> {
                &&& final(self).pos == old(self).pos + 1
                &&& r matches Some((n, v))
                &&& *n == old(self).order@[old(self).pos as int]
                &&& *v == old(self).items.entries@[old(self).items.pos(n@)].1
            },
            old(self).pos >= old(self).order@.len() ==> r is None && final(self).pos == old(self).pos,
    {
        if self.pos >= self.order.len() {
            return None;
        }
        let name: &'a String = &self.order[self.pos];
        assert(self.items.has(self.order@[self.pos as int]@));
        let item = self.items.get(name);
        self.pos = self.pos + 1;
        match item {
            Some(v) => Some((name, v)),
            None => None,
        }
    }
}

/// Panels and the stitches between them.
#[derive(Clone, Debug)]
pub struct Pattern {
    pub panels: NamedMap<Panel>,
    pub panel_order: Vec<String>,
    pub stitches: Vec<Stitch>,
}

impl Pattern {
    /// Panel names are unique and the declared order names existing panels.
    pub open spec fn wf(&self) -> bool {
        self.panels.wf() && order_covers(&self.panels, self.panel_order@)
    }

    /// The panels in their declared order.
    pub fn panels<'a>(&'a self) -> (r: OrderedIter<'a, Panel>)
        ensures
            r.items == &self.panels,
            r.order == &self.panel_order,
            r.pos == 0,
            self.wf() ==> r.wf(),
    {
        OrderedIter::new(&self.panels, &self.panel_order)
    }
}

} // verus!

verus! {

impl<T> NamedMap<T> {
    /// Whether no name occurs twice.
    pub fn has_unique_names(&self) -> (r: bool)
        ensures
            r == self.wf(),
    {
        let n = self.entries.len();
        let mut i: usize = 0;
        while i < n
            invariant
                n == self.entries@.len(),
                i <= n,
                forall|a: int, b: int|
                    0 <= a < b < n && a < i ==> #[trigger] self.entries@[a].0@
                        != #[trigger] self.entries@[b].0@,
            decreases n - i,
        {
            let mut j: usize = i + 1;
            while j < n
                invariant
                    n == self.entries@.len(),
                    i < n,
                    i < j <= n,
                    forall|a: int, b: int|
                        0 <= a < b < n && a < i ==> #[trigger] self.entries@[a].0@
                            != #[trigger] self.entries@[b].0@,
                    forall|b: int| i < b < j ==> self.entries@[i as int].0@ != #[trigger] self.entries@[b].0@,
                decreases n - j,
            {
                if self.entries[i].0 == self.entries[j].0 {
                    return false;
                }
                j = j + 1;
            }
            i = i + 1;
        }
        true
    }

    /// Whether every name of `order` is a key.
    pub fn covers(&self, order: &Vec<String>) -> (r: bool)
        requires
            self.wf(),
        ensures
            r == order_covers(self, order@),
    {
        let mut i: usize = 0;
        while i < order.len()
            invariant
                self.wf(),
                i <= order@.len(),
                forall|j: int| 0 <= j < i ==> self.has(#[trigger] order@[j]@),
            decreases order@.len() - i,
        {
            if self.position(&order[i]).is_none() {
                return false;
            }
            i = i + 1;
        }
        true
    }
}

} // verus!
