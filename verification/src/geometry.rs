//! Geometry primitives shared by layout and drawing.
//!
//! All coordinates are logical screen pixels in the current orientation, the
//! same space the host renderer draws in. In portrait an X4 Pro is 480x800; in
//! landscape 800x480. Never assume either.
use vstd::prelude::*;

verus! {

/// Whether `v` is representable as an `i32`.
pub open spec fn fits_i32(v: int) -> bool {
    i32::MIN <= v <= i32::MAX
}

/// The larger of `v` and zero.
pub open spec fn nonneg(v: int) -> int {
    if v < 0 {
        0
    } else {
        v
    }
}

/// A position on screen.
#[derive(Copy, Clone, Debug, Default, PartialEq, Eq, Structural)]
pub struct Point {
    pub x: i32,
    pub y: i32,
}

impl Point {
    /// The top-left corner of the screen.
    pub fn origin() -> (p: Point)
        ensures
            p.x == 0,
            p.y == 0,
    {
        Point { x: 0, y: 0 }
    }

    pub fn new(x: i32, y: i32) -> (p: Point)
        ensures
            p.x == x,
            p.y == y,
    {
        Point { x, y }
    }

    /// This point moved by `dx`/`dy`.
    pub fn offset(self, dx: i32, dy: i32) -> (p: Point)
        requires
            fits_i32(self.x + dx),
            fits_i32(self.y + dy),
        ensures
            p.x == self.x + dx,
            p.y == self.y + dy,
    {
        Point::new(self.x + dx, self.y + dy)
    }
}

/// A width and height. Never negative: constructors clamp at zero so a
/// layout that over-subtracts cannot produce inverted rectangles.
#[derive(Copy, Clone, Debug, Default, PartialEq, Eq, Structural)]
pub struct Size {
    pub width: i32,
    pub height: i32,
}

impl Size {
    pub open spec fn zero_spec() -> Size {
        Size { width: 0, height: 0 }
    }

    /// A size of nothing at all.
    pub fn zero() -> (s: Size)
        ensures
            s.width == 0,
            s.height == 0,
    {
        Size { width: 0, height: 0 }
    }

    /// Neither dimension is negative.
    pub open spec fn wf(self) -> bool {
        self.width >= 0 && self.height >= 0
    }

    pub fn new(width: i32, height: i32) -> (s: Size)
        ensures
            s.width == nonneg(width as int),
            s.height == nonneg(height as int),
            s.wf(),
    {
        Size {
            width: if width < 0 { 0 } else { width },
            height: if height < 0 { 0 } else { height },
        }
    }

    /// This size shrunk by `dw`/`dh`, clamped at zero.
    pub fn shrink(self, dw: i32, dh: i32) -> (s: Size)
        requires
            fits_i32(self.width - dw),
            fits_i32(self.height - dh),
        ensures
            s.width == nonneg(self.width - dw),
            s.height == nonneg(self.height - dh),
            s.wf(),
    {
        Size::new(self.width - dw, self.height - dh)
    }

    pub open spec fn is_empty_spec(self) -> bool {
        self.width == 0 || self.height == 0
    }

    pub fn is_empty(self) -> (b: bool)
        ensures
            b == self.is_empty_spec(),
    {
        self.width == 0 || self.height == 0
    }
}

/// Space inset equally or individually on each edge.
#[derive(Copy, Clone, Debug, Default, PartialEq, Eq, Structural)]
pub struct Insets {
    pub top: i32,
    pub right: i32,
    pub bottom: i32,
    pub left: i32,
}

impl Insets {
    /// No inset on any edge.
    pub fn zero() -> (i: Insets)
        ensures
            i.top == 0,
            i.right == 0,
            i.bottom == 0,
            i.left == 0,
    {
        Insets { top: 0, right: 0, bottom: 0, left: 0 }
    }

    /// The same inset on all four edges.
    pub fn all(value: i32) -> (i: Insets)
        ensures
            i.top == value,
            i.right == value,
            i.bottom == value,
            i.left == value,
    {
        Insets { top: value, right: value, bottom: value, left: value }
    }

    /// Independent horizontal and vertical insets.
    pub fn symmetric(horizontal: i32, vertical: i32) -> (i: Insets)
        ensures
            i.top == vertical,
            i.right == horizontal,
            i.bottom == vertical,
            i.left == horizontal,
    {
        Insets { top: vertical, right: horizontal, bottom: vertical, left: horizontal }
    }

    pub open spec fn spec_horizontal(self) -> int {
        self.left + self.right
    }

    pub open spec fn spec_vertical(self) -> int {
        self.top + self.bottom
    }

    pub fn horizontal(&self) -> (h: i32)
        requires
            fits_i32(self.spec_horizontal()),
        ensures
            h == self.spec_horizontal(),
    {
        self.left + self.right
    }

    pub fn vertical(&self) -> (v: i32)
        requires
            fits_i32(self.spec_vertical()),
        ensures
            v == self.spec_vertical(),
    {
        self.top + self.bottom
    }
}

/// A positioned, sized region.
#[derive(Copy, Clone, Debug, Default, PartialEq, Eq, Structural)]
pub struct Rect {
    pub origin: Point,
    pub size: Size,
}

impl Rect {
    pub open spec fn spec_right(self) -> int {
        self.origin.x + self.size.width
    }

    pub open spec fn spec_bottom(self) -> int {
        self.origin.y + self.size.height
    }

    /// The right and bottom edges are representable.
    pub open spec fn edges_fit(self) -> bool {
        fits_i32(self.spec_right()) && fits_i32(self.spec_bottom())
    }

    /// Whether `p` lies inside: the left and top edges are inside, the right
    /// and bottom ones are not.
    pub open spec fn spec_contains(self, p: Point) -> bool {
        &&& p.x >= self.origin.x
        &&& p.y >= self.origin.y
        &&& p.x < self.spec_right()
        &&& p.y < self.spec_bottom()
    }

    /// Whether the two regions share at least one point.
    pub open spec fn spec_intersects(self, other: Rect) -> bool {
        &&& self.origin.x < other.spec_right()
        &&& other.origin.x < self.spec_right()
        &&& self.origin.y < other.spec_bottom()
        &&& other.origin.y < self.spec_bottom()
    }

    /// The rect `new` builds from these four numbers.
    pub open spec fn spec_new(x: int, y: int, width: int, height: int) -> Rect {
        Rect {
            origin: Point { x: x as i32, y: y as i32 },
            size: Size { width: nonneg(width) as i32, height: nonneg(height) as i32 },
        }
    }

    pub fn new(x: i32, y: i32, width: i32, height: i32) -> (r: Rect)
        ensures
            r == Rect::spec_new(x as int, y as int, width as int, height as int),
            r.origin.x == x,
            r.origin.y == y,
            r.size.width == nonneg(width as int),
            r.size.height == nonneg(height as int),
            r.size.wf(),
    {
        Rect { origin: Point::new(x, y), size: Size::new(width, height) }
    }

    pub fn x(&self) -> (v: i32)
        ensures
            v == self.origin.x,
    {
        self.origin.x
    }

    pub fn y(&self) -> (v: i32)
        ensures
            v == self.origin.y,
    {
        self.origin.y
    }

    pub fn width(&self) -> (v: i32)
        ensures
            v == self.size.width,
    {
        self.size.width
    }

    pub fn height(&self) -> (v: i32)
        ensures
            v == self.size.height,
    {
        self.size.height
    }

    pub fn right(&self) -> (v: i32)
        requires
            fits_i32(self.spec_right()),
        ensures
            v == self.spec_right(),
    {
        self.origin.x + self.size.width
    }

    pub fn bottom(&self) -> (v: i32)
        requires
            fits_i32(self.spec_bottom()),
        ensures
            v == self.spec_bottom(),
    {
        self.origin.y + self.size.height
    }

    /// The inputs on which `inset` does its arithmetic without overflow.
    pub open spec fn inset_fits(self, insets: Insets) -> bool {
        &&& fits_i32(self.origin.x + insets.left)
        &&& fits_i32(self.origin.y + insets.top)
        &&& fits_i32(insets.spec_horizontal())
        &&& fits_i32(insets.spec_vertical())
        &&& fits_i32(self.size.width - insets.spec_horizontal())
        &&& fits_i32(self.size.height - insets.spec_vertical())
    }

    /// This rect pulled inward on every edge by `insets`.
    pub fn inset(&self, insets: Insets) -> (r: Rect)
        requires
            self.inset_fits(insets),
        ensures
            r.origin.x == self.origin.x + insets.left,
            r.origin.y == self.origin.y + insets.top,
            r.size.width == nonneg(self.size.width - insets.spec_horizontal()),
            r.size.height == nonneg(self.size.height - insets.spec_vertical()),
            r.size.wf(),
    {
        Rect {
            origin: self.origin.offset(insets.left, insets.top),
            size: self.size.shrink(insets.horizontal(), insets.vertical()),
        }
    }

    pub fn contains(&self, point: Point) -> (b: bool)
        requires
            self.edges_fit(),
        ensures
            b == self.spec_contains(point),
    {
        point.x >= self.origin.x && point.y >= self.origin.y && point.x < self.right() && point.y
            < self.bottom()
    }

    /// Whether `point` lies inside, for a rect whose far edges may not be
    /// representable: the edges are compared in wider arithmetic.
    pub fn contains_wide(&self, point: Point) -> (b: bool)
        ensures
            b == self.spec_contains(point),
    {
        let right = self.origin.x as i64 + self.size.width as i64;
        let bottom = self.origin.y as i64 + self.size.height as i64;
        point.x >= self.origin.x && point.y >= self.origin.y && (point.x as i64) < right && (
        point.y as i64) < bottom
    }

    /// Whether the two regions overlap. Touching edges do not count.
    pub fn intersects(&self, other: Rect) -> (b: bool)
        requires
            self.edges_fit(),
            other.edges_fit(),
        ensures
            b == self.spec_intersects(other),
    {
        self.origin.x < other.right() && other.origin.x < self.right() && self.origin.y
            < other.bottom() && other.origin.y < self.bottom()
    }
}

/// Moving a point by `dx`/`dy` and back by `-dx`/`-dy` returns it, whenever
/// both moves stay within `i32` (negating `i32::MIN` does not).
pub proof fn lemma_offset_round_trip(p: Point, dx: i32, dy: i32)
    requires
        fits_i32(p.x + dx),
        fits_i32(p.y + dy),
        dx != i32::MIN,
        dy != i32::MIN,
    ensures
        fits_i32((p.x + dx) + (-dx)),
        fits_i32((p.y + dy) + (-dy)),
        (Point { x: ((p.x + dx) + (-dx)) as i32, y: ((p.y + dy) + (-dy)) as i32 }) == p,
{
}

/// A point is inside a rect exactly when it is inside both of its halves:
/// containment is the product of the horizontal and vertical spans.
pub proof fn lemma_contains_spans(r: Rect, p: Point)
    ensures
        r.spec_contains(p) <==> (r.origin.x <= p.x < r.spec_right() && r.origin.y <= p.y
            < r.spec_bottom()),
{
}

/// A well-formed rect that contains a point intersects any rect containing
/// that same point.
pub proof fn lemma_common_point_intersects(a: Rect, b: Rect, p: Point)
    requires
        a.spec_contains(p),
        b.spec_contains(p),
    ensures
        a.spec_intersects(b),
{
}

/// An empty size contains no point: a rect with a zero dimension is never hit.
pub proof fn lemma_empty_contains_nothing(r: Rect, p: Point)
    requires
        r.size.width == 0 || r.size.height == 0,
    ensures
        !r.spec_contains(p),
{
}

/// Insetting by non-negative insets never grows a rect: every point of the
/// inset rect is a point of the rect it was taken from.
pub proof fn lemma_inset_within(r: Rect, insets: Insets, inner: Rect, p: Point)
    requires
        r.size.wf(),
        insets.top >= 0,
        insets.right >= 0,
        insets.bottom >= 0,
        insets.left >= 0,
        inner.origin.x == r.origin.x + insets.left,
        inner.origin.y == r.origin.y + insets.top,
        inner.size.width == nonneg(r.size.width - insets.spec_horizontal()),
        inner.size.height == nonneg(r.size.height - insets.spec_vertical()),
        inner.spec_contains(p),
    ensures
        r.spec_contains(p),
{
}

} // verus!
