//! Points, rectangles and the growing axis-aligned bounding box.
use vstd::prelude::*;
use crate::decimal::Decimal;

verus! {

/// A point (or a vector) in the plane. `x` grows to the right, `y` downwards.
#[derive(Clone, Copy, Debug, PartialEq, Eq, Structural)]
pub struct Point2 {
    pub x: Decimal,
    pub y: Decimal,
}

/// A vector in space (placement of a panel in a garment layout).
#[derive(Clone, Copy, Debug, PartialEq, Eq, Structural)]
pub struct Vector3 {
    pub x: Decimal,
    pub y: Decimal,
    pub z: Decimal,
}

impl Point2 {
    pub open spec fn wf(self) -> bool {
        self.x.wf() && self.y.wf()
    }

    pub fn new(x: Decimal, y: Decimal) -> (r: Point2)
        ensures
            r == (Point2 { x, y }),
    {
        Point2 { x, y }
    }
}

/// A rectangle given by two corners.
#[derive(Clone, Copy, Debug, PartialEq, Eq, Structural)]
pub struct Rect {
    pub top_left: Point2,
    pub bottom_right: Point2,
}

impl Rect {
    pub open spec fn wf(self) -> bool {
        self.top_left.wf() && self.bottom_right.wf()
    }

    /// The point lies within the rectangle, borders included.
    pub open spec fn contains(self, p: Point2) -> bool {
        self.top_left.x.value() <= p.x.value() && p.x.value() <= self.bottom_right.x.value()
            && self.top_left.y.value() <= p.y.value() && p.y.value()
            <= self.bottom_right.y.value()
    }

    pub fn new(top_left: Point2, bottom_right: Point2) -> (r: Rect)
        ensures
            r == (Rect { top_left, bottom_right }),
    {
        Rect { top_left, bottom_right }
    }

    pub fn top_left(&self) -> (r: &Point2)
        ensures
            *r == self.top_left,
    {
        &self.top_left
    }

    pub fn bottom_right(&self) -> (r: &Point2)
        ensures
            *r == self.bottom_right,
    {
        &self.bottom_right
    }

    /// `right - left`; `None` where it leaves the number range.
    pub fn width(&self) -> (r: Option<Decimal>)
        requires
            self.wf(),
        ensures
            r == crate::decimal::dec_sub(self.bottom_right.x, self.top_left.x),
    {
        self.bottom_right.x.checked_sub(&self.top_left.x)
    }

    /// `bottom - top`; `None` where it leaves the number range.
    pub fn height(&self) -> (r: Option<Decimal>)
        requires
            self.wf(),
        ensures
            r == crate::decimal::dec_sub(self.bottom_right.y, self.top_left.y),
    {
        self.bottom_right.y.checked_sub(&self.top_left.y)
    }

    /// Width and height as a vector.
    pub fn size(&self) -> (r: Option<Point2>)
        requires
            self.wf(),
        ensures
            r == (match (
                crate::decimal::dec_sub(self.bottom_right.x, self.top_left.x),
                crate::decimal::dec_sub(self.bottom_right.y, self.top_left.y),
            ) {
                (Some(w), Some(h)) => Some(Point2 { x: w, y: h }),
                _ => None,
            }),
    {
        match (self.width(), self.height()) {
            (Some(w), Some(h)) => Some(Point2 { x: w, y: h }),
            _ => None,
        }
    }
}

/// The smaller of two coordinates; the first one where they are equal.
pub open spec fn lower(a: Decimal, b: Decimal) -> Decimal {
    if b.value() < a.value() {
        b
    } else {
        a
    }
}

/// The larger of two coordinates; the first one where they are equal.
pub open spec fn upper(a: Decimal, b: Decimal) -> Decimal {
    if a.value() < b.value() {
        b
    } else {
        a
    }
}

/// The rectangle grown to hold `p`.
pub open spec fn grow(r: Rect, p: Point2) -> Rect {
    Rect {
        top_left: Point2 { x: lower(r.top_left.x, p.x), y: lower(r.top_left.y, p.y) },
        bottom_right: Point2 { x: upper(r.bottom_right.x, p.x), y: upper(r.bottom_right.y, p.y) },
    }
}

/// The rectangle grown to hold each point of `pts`, in order.
pub open spec fn grow_all(r: Rect, pts: Seq<Point2>) -> Rect
    decreases pts.len(),
{
    if pts.len() == 0 {
        r
    } else {
        grow(grow_all(r, pts.drop_last()), pts.last())
    }
}

/// The box at the origin that holds nothing else.
pub open spec fn origin_rect() -> Rect {
    Rect {
        top_left: Point2 {
            x: Decimal { mantissa: 0, scale: 0 },
            y: Decimal { mantissa: 0, scale: 0 },
        },
        bottom_right: Point2 {
            x: Decimal { mantissa: 0, scale: 0 },
            y: Decimal { mantissa: 0, scale: 0 },
        },
    }
}

/// An axis-aligned bounding box that only ever grows.
#[derive(Clone, Copy, Debug, PartialEq, Eq, Structural)]
pub struct AABB(pub Rect);

impl Default for AABB {
    fn default() -> (r: AABB)
        ensures
            r.0 == origin_rect(),
    {
        let z = Decimal::zero();
        AABB(Rect { top_left: Point2 { x: z, y: z }, bottom_right: Point2 { x: z, y: z } })
    }
}

impl AABB {
    pub fn from_rect(rect: Rect) -> (r: AABB)
        ensures
            r.0 == rect,
    {
        AABB(rect)
    }

    pub fn rect(&self) -> (r: Rect)
        ensures
            r == self.0,
    {
        self.0
    }

    /// Grows the box so that it holds `point`; each corner and each axis
    /// is updated on its own.
    pub fn insert_point(&mut self, point: Point2)
        requires
            old(self).0.wf(),
            point.wf(),
        ensures
            final(self).0 == grow(old(self).0, point),
            final(self).0.wf(),
            old(self).0.contains(point) ==> *final(self) == *old(self),
    {
        if point.x.lt(&self.0.top_left.x) {
            self.0.top_left.x = point.x;
        }
        if point.y.lt(&self.0.top_left.y) {
            self.0.top_left.y = point.y;
        }
        if self.0.bottom_right.x.lt(&point.x) {
            self.0.bottom_right.x = point.x;
        }
        if self.0.bottom_right.y.lt(&point.y) {
            self.0.bottom_right.y = point.y;
        }
    }

    /// Grows the box so that it holds both corners of the shape's own box.
    pub fn insert<S: AsAABB>(&mut self, shape: S)
        requires
            old(self).0.wf(),
            shape.bounds().wf(),
        ensures
            final(self).0 == grow(
                grow(old(self).0, shape.bounds().top_left),
                shape.bounds().bottom_right,
            ),
            final(self).0.wf(),
    {
        let aabb = shape.as_aabb();
        self.insert_point(aabb.0.top_left);
        self.insert_point(aabb.0.bottom_right);
    }
}

/// A shape with an axis-aligned bounding box.
pub trait AsAABB {
    /// The shape's bounding rectangle.
    spec fn bounds(&self) -> Rect;

    fn as_aabb(&self) -> (r: AABB)
        ensures
            r.0 == self.bounds(),
    ;
}

impl AsAABB for Point2 {
    open spec fn bounds(&self) -> Rect {
        Rect { top_left: *self, bottom_right: *self }
    }

    fn as_aabb(&self) -> (r: AABB) {
        AABB(Rect { top_left: *self, bottom_right: *self })
    }
}

impl AsAABB for Rect {
    open spec fn bounds(&self) -> Rect {
        *self
    }

    fn as_aabb(&self) -> (r: AABB) {
        AABB(*self)
    }
}

/// `v` is the least of `first` and `rest` by value, and one of them.
pub open spec fn least(v: Decimal, first: Decimal, rest: Seq<Decimal>) -> bool {
    &&& v.value() <= first.value()
    &&& forall|i: int| 0 <= i < rest.len() ==> v.value() <= #[trigger] rest[i].value()
    &&& (v == first || exists|i: int| 0 <= i < rest.len() && v == rest[i])
}

/// `v` is the greatest of `first` and `rest` by value, and one of them.
pub open spec fn greatest(v: Decimal, first: Decimal, rest: Seq<Decimal>) -> bool {
    &&& first.value() <= v.value()
    &&& forall|i: int| 0 <= i < rest.len() ==> #[trigger] rest[i].value() <= v.value()
    &&& (v == first || exists|i: int| 0 <= i < rest.len() && v == rest[i])
}

pub open spec fn xs(pts: Seq<Point2>) -> Seq<Decimal> {
    pts.map_values(|p: Point2| p.x)
}

pub open spec fn ys(pts: Seq<Point2>) -> Seq<Decimal> {
    pts.map_values(|p: Point2| p.y)
}

/// After inserting any sequence of points into a box, its top-left corner is
/// the component-wise minimum and its bottom-right corner the component-wise
/// maximum over the box's starting corners and all inserted points.
pub proof fn lemma_aabb_bounds(start: Rect, pts: Seq<Point2>)
    ensures
        least(grow_all(start, pts).top_left.x, start.top_left.x, xs(pts)),
        least(grow_all(start, pts).top_left.y, start.top_left.y, ys(pts)),
        greatest(grow_all(start, pts).bottom_right.x, start.bottom_right.x, xs(pts)),
        greatest(grow_all(start, pts).bottom_right.y, start.bottom_right.y, ys(pts)),
    decreases pts.len(),
{
    if pts.len() > 0 {
        let init = pts.drop_last();
        lemma_aabb_bounds(start, init);
        assert(xs(init) =~= xs(pts).drop_last());
        assert(ys(init) =~= ys(pts).drop_last());
        let r = grow_all(start, init);
        let last = pts.len() - 1;
        assert(xs(pts)[last] == pts.last().x);
        assert(ys(pts)[last] == pts.last().y);
        assert forall|i: int| 0 <= i < last implies xs(pts)[i] == xs(init)[i]
            && ys(pts)[i] == ys(init)[i] by {}
        if r.top_left.x != start.top_left.x && lower(r.top_left.x, pts.last().x) == r.top_left.x {
            let i = choose|i: int| 0 <= i < xs(init).len() && r.top_left.x == xs(init)[i];
            assert(grow_all(start, pts).top_left.x == xs(pts)[i]);
        }
        if r.top_left.y != start.top_left.y && lower(r.top_left.y, pts.last().y) == r.top_left.y {
            let i = choose|i: int| 0 <= i < ys(init).len() && r.top_left.y == ys(init)[i];
            assert(grow_all(start, pts).top_left.y == ys(pts)[i]);
        }
        if r.bottom_right.x != start.bottom_right.x && upper(r.bottom_right.x, pts.last().x)
            == r.bottom_right.x {
            let i = choose|i: int| 0 <= i < xs(init).len() && r.bottom_right.x == xs(init)[i];
            assert(grow_all(start, pts).bottom_right.x == xs(pts)[i]);
        }
        if r.bottom_right.y != start.bottom_right.y && upper(r.bottom_right.y, pts.last().y)
            == r.bottom_right.y {
            let i = choose|i: int| 0 <= i < ys(init).len() && r.bottom_right.y == ys(init)[i];
            assert(grow_all(start, pts).bottom_right.y == ys(pts)[i]);
        }
    }
}

} // verus!
