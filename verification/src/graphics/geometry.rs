//! Points, sizes and rectangles on the screen.
use vstd::prelude::*;

verus! {

/// A point, size or offset: a pair of coordinates.
#[derive(Debug, Clone, Copy, PartialEq, Eq, Structural)]
pub struct Point {
    pub x: i32,
    pub y: i32,
}

/// A size: a width and a height.
pub type Size = Point;

/// An offset between two points.
pub type Offset = Point;

/// Whether `v` fits in an `i32`.
pub open spec fn fits_i32(v: int) -> bool {
    i32::MIN <= v <= i32::MAX
}

/// The larger of two integers.
pub open spec fn max_i(a: int, b: int) -> int {
    if a >= b {
        a
    } else {
        b
    }
}

/// The smaller of two integers.
pub open spec fn min_i(a: int, b: int) -> int {
    if a <= b {
        a
    } else {
        b
    }
}

impl Point {
    /// The point `(x, y)`.
    pub fn new(x: i32, y: i32) -> (r: Point)
        ensures
            r.x == x && r.y == y,
    {
        Point { x, y }
    }

    /// The coordinate-wise maximum.
    pub fn elem_max(a: Point, b: Point) -> (r: Point)
        ensures
            r.x == max_i(a.x as int, b.x as int),
            r.y == max_i(a.y as int, b.y as int),
    {
        Point { x: if a.x >= b.x { a.x } else { b.x }, y: if a.y >= b.y { a.y } else { b.y } }
    }

    /// The coordinate-wise minimum.
    pub fn elem_min(a: Point, b: Point) -> (r: Point)
        ensures
            r.x == min_i(a.x as int, b.x as int),
            r.y == min_i(a.y as int, b.y as int),
    {
        Point { x: if a.x <= b.x { a.x } else { b.x }, y: if a.y <= b.y { a.y } else { b.y } }
    }

    /// The coordinate-wise sum.
    pub fn plus(self, other: Point) -> (r: Point)
        requires
            fits_i32(self.x + other.x),
            fits_i32(self.y + other.y),
        ensures
            r.x == self.x + other.x,
            r.y == self.y + other.y,
    {
        Point { x: self.x + other.x, y: self.y + other.y }
    }

    /// The coordinate-wise difference.
    pub fn minus(self, other: Point) -> (r: Point)
        requires
            fits_i32(self.x - other.x),
            fits_i32(self.y - other.y),
        ensures
            r.x == self.x - other.x,
            r.y == self.y - other.y,
    {
        Point { x: self.x - other.x, y: self.y - other.y }
    }

    /// The coordinate-wise product.
    pub fn times(self, other: Point) -> (r: Point)
        requires
            fits_i32(self.x * other.x),
            fits_i32(self.y * other.y),
        ensures
            r.x == self.x * other.x,
            r.y == self.y * other.y,
    {
        Point { x: self.x * other.x, y: self.y * other.y }
    }

    /// The opposite point.
    pub fn neg(self) -> (r: Point)
        requires
            self.x != i32::MIN,
            self.y != i32::MIN,
        ensures
            r.x == -self.x,
            r.y == -self.y,
    {
        Point { x: -self.x, y: -self.y }
    }

    /// The point of `rect` nearest to this one; `None` when `rect` is empty.
    pub fn clamp(self, rect: Rectangle) -> (r: Option<Point>)
        requires
            rect.wf(),
        ensures
            rect.is_empty() ==> r is None,
            !rect.is_empty() ==> r == Some(
                Point {
                    x: min_i(max_i(self.x as int, rect.pos.x as int), rect.x_end_spec() - 1) as i32,
                    y: min_i(max_i(self.y as int, rect.pos.y as int), rect.y_end_spec() - 1) as i32,
                },
            ),
            r matches Some(p) ==> rect.contains_spec(p),
    {
        if rect.size.x <= 0 || rect.size.y <= 0 {
            return None;
        }
        let x_end = rect.pos.x + rect.size.x;
        let y_end = rect.pos.y + rect.size.y;
        let x = if self.x < rect.pos.x {
            rect.pos.x
        } else if self.x >= x_end {
            x_end - 1
        } else {
            self.x
        };
        let y = if self.y < rect.pos.y {
            rect.pos.y
        } else if self.y >= y_end {
            y_end - 1
        } else {
            self.y
        };
        Some(Point { x, y })
    }
}

/// A rectangle: its top-left corner and its size; it covers the points
/// `pos <= p < pos + size`.
#[derive(Debug, Clone, Copy, PartialEq, Eq, Structural)]
pub struct Rectangle {
    pub pos: Point,
    pub size: Size,
}

impl Rectangle {
    /// The end coordinates fit in an `i32`.
    pub open spec fn wf(self) -> bool {
        fits_i32(self.pos.x + self.size.x) && fits_i32(self.pos.y + self.size.y)
    }

    /// First column after the rectangle.
    pub open spec fn x_end_spec(self) -> int {
        self.pos.x + self.size.x
    }

    /// First row after the rectangle.
    pub open spec fn y_end_spec(self) -> int {
        self.pos.y + self.size.y
    }

    /// Whether the rectangle covers no point.
    pub open spec fn is_empty(self) -> bool {
        self.size.x <= 0 || self.size.y <= 0
    }

    /// The points both rectangles cover, as a rectangle; `None` when there
    /// are none.
    pub open spec fn spec_intersection(self, other: Rectangle) -> Option<Rectangle> {
        let x0 = max_i(self.pos.x as int, other.pos.x as int);
        let y0 = max_i(self.pos.y as int, other.pos.y as int);
        let x1 = min_i(self.x_end_spec(), other.x_end_spec());
        let y1 = min_i(self.y_end_spec(), other.y_end_spec());
        if x0 >= x1 || y0 >= y1 {
            None
        } else {
            Some(
                Rectangle {
                    pos: Point { x: x0 as i32, y: y0 as i32 },
                    size: Point { x: (x1 - x0) as i32, y: (y1 - y0) as i32 },
                },
            )
        }
    }

    /// The rectangle moved by `offset`.
    pub open spec fn spec_translate(self, offset: Point) -> Rectangle {
        Rectangle {
            pos: Point { x: (self.pos.x + offset.x) as i32, y: (self.pos.y + offset.y) as i32 },
            size: self.size,
        }
    }

    /// Whether the rectangle covers `p`.
    pub open spec fn contains_spec(self, p: Point) -> bool {
        self.pos.x <= p.x < self.x_end_spec() && self.pos.y <= p.y < self.y_end_spec()
    }

    /// The rectangle at `pos` of size `size`.
    pub fn new(pos: Point, size: Size) -> (r: Rectangle)
        ensures
            r.pos == pos && r.size == size,
    {
        Rectangle { pos, size }
    }

    /// The rectangle from `start` to `end`, when `start` is not past `end`.
    pub fn from_points(start: Point, end: Point) -> (r: Option<Rectangle>)
        requires
            fits_i32(end.x - start.x),
            fits_i32(end.y - start.y),
        ensures
            (start.x <= end.x && start.y <= end.y) ==> r == Some(
                Rectangle { pos: start, size: Point { x: (end.x - start.x) as i32, y: (end.y - start.y) as i32 } },
            ),
            !(start.x <= end.x && start.y <= end.y) ==> r is None,
    {
        if start.x <= end.x && start.y <= end.y {
            Some(Rectangle { pos: start, size: Point { x: end.x - start.x, y: end.y - start.y } })
        } else {
            None
        }
    }

    /// First column.
    pub fn x_start(&self) -> (r: i32)
        ensures
            r == self.pos.x,
    {
        self.pos.x
    }

    /// First row.
    pub fn y_start(&self) -> (r: i32)
        ensures
            r == self.pos.y,
    {
        self.pos.y
    }

    /// First column after the rectangle.
    pub fn x_end(&self) -> (r: i32)
        requires
            self.wf(),
        ensures
            r == self.x_end_spec(),
    {
        self.pos.x + self.size.x
    }

    /// First row after the rectangle.
    pub fn y_end(&self) -> (r: i32)
        requires
            self.wf(),
        ensures
            r == self.y_end_spec(),
    {
        self.pos.y + self.size.y
    }

    /// The corner after the rectangle.
    pub fn end_pos(&self) -> (r: Point)
        requires
            self.wf(),
        ensures
            r.x == self.x_end_spec() && r.y == self.y_end_spec(),
    {
        Point { x: self.pos.x + self.size.x, y: self.pos.y + self.size.y }
    }

    /// Whether the rectangle covers `p`.
    pub fn contains(&self, p: &Point) -> (r: bool)
        requires
            self.wf(),
        ensures
            r == self.contains_spec(*p),
    {
        self.pos.x <= p.x && p.x < self.pos.x + self.size.x && self.pos.y <= p.y && p.y < self.pos.y
            + self.size.y
    }

    /// The rectangle moved by `offset`.
    pub fn translate(self, offset: Offset) -> (r: Rectangle)
        requires
            fits_i32(self.pos.x + offset.x),
            fits_i32(self.pos.y + offset.y),
        ensures
            r.pos.x == self.pos.x + offset.x,
            r.pos.y == self.pos.y + offset.y,
            r.size == self.size,
            r == self.spec_translate(offset),
    {
        Rectangle { pos: Point { x: self.pos.x + offset.x, y: self.pos.y + offset.y }, size: self.size }
    }

    /// The points both rectangles cover, or `None` when there are none.
    pub fn intersection(self, other: Rectangle) -> (r: Option<Rectangle>)
        requires
            self.wf(),
            other.wf(),
        ensures
            r == self.spec_intersection(other),
            match r {
                Some(i) => {
                    &&& i.wf()
                    &&& !i.is_empty()
                    &&& i.pos.x == max_i(self.pos.x as int, other.pos.x as int)
                    &&& i.pos.y == max_i(self.pos.y as int, other.pos.y as int)
                    &&& i.x_end_spec() == min_i(self.x_end_spec(), other.x_end_spec())
                    &&& i.y_end_spec() == min_i(self.y_end_spec(), other.y_end_spec())
                },
                None => forall|p: Point| !(#[trigger] self.contains_spec(p) && other.contains_spec(p)),
            },
            forall|p: Point|
                (#[trigger] self.contains_spec(p) && other.contains_spec(p)) <==> (r matches Some(i)
                    && i.contains_spec(p)),
    {
        let x0 = if self.pos.x >= other.pos.x { self.pos.x } else { other.pos.x };
        let y0 = if self.pos.y >= other.pos.y { self.pos.y } else { other.pos.y };
        let sx = self.pos.x + self.size.x;
        let ox = other.pos.x + other.size.x;
        let sy = self.pos.y + self.size.y;
        let oy = other.pos.y + other.size.y;
        let x1 = if sx <= ox { sx } else { ox };
        let y1 = if sy <= oy { sy } else { oy };
        if x0 >= x1 || y0 >= y1 {
            assert forall|p: Point| !(#[trigger] self.contains_spec(p) && other.contains_spec(p)) by {}
            return None;
        }
        Some(Rectangle { pos: Point { x: x0, y: y0 }, size: Point { x: x1 - x0, y: y1 - y0 } })
    }

    /// The smallest rectangle that covers both.
    pub fn union(self, other: Rectangle) -> (r: Rectangle)
        requires
            self.wf(),
            other.wf(),
            fits_i32(max_i(self.x_end_spec(), other.x_end_spec()) - min_i(self.pos.x as int, other.pos.x as int)),
            fits_i32(max_i(self.y_end_spec(), other.y_end_spec()) - min_i(self.pos.y as int, other.pos.y as int)),
        ensures
            r.wf(),
            r.pos.x == min_i(self.pos.x as int, other.pos.x as int),
            r.pos.y == min_i(self.pos.y as int, other.pos.y as int),
            r.x_end_spec() == max_i(self.x_end_spec(), other.x_end_spec()),
            r.y_end_spec() == max_i(self.y_end_spec(), other.y_end_spec()),
    {
        let x0 = if self.pos.x <= other.pos.x { self.pos.x } else { other.pos.x };
        let y0 = if self.pos.y <= other.pos.y { self.pos.y } else { other.pos.y };
        let sx = self.pos.x + self.size.x;
        let ox = other.pos.x + other.size.x;
        let sy = self.pos.y + self.size.y;
        let oy = other.pos.y + other.size.y;
        let x1 = if sx >= ox { sx } else { ox };
        let y1 = if sy >= oy { sy } else { oy };
        Rectangle { pos: Point { x: x0, y: y0 }, size: Point { x: x1 - x0, y: y1 - y0 } }
    }

    /// The smallest rectangle that covers this one and the point `p`.
    pub fn extend_to_contain(self, p: Point) -> (r: Rectangle)
        requires
            self.wf(),
            p.x < i32::MAX,
            p.y < i32::MAX,
            fits_i32(max_i(self.x_end_spec(), p.x + 1) - min_i(self.pos.x as int, p.x as int)),
            fits_i32(max_i(self.y_end_spec(), p.y + 1) - min_i(self.pos.y as int, p.y as int)),
        ensures
            r.wf(),
            r.pos.x == min_i(self.pos.x as int, p.x as int),
            r.pos.y == min_i(self.pos.y as int, p.y as int),
            r.x_end_spec() == max_i(self.x_end_spec(), p.x + 1),
            r.y_end_spec() == max_i(self.y_end_spec(), p.y + 1),
    {
        self.union(Rectangle { pos: p, size: Point { x: 1, y: 1 } })
    }
}

/// The intersection of two rectangles does not depend on their order.
pub proof fn law_intersection_commutes(a: Rectangle, b: Rectangle)
    ensures
        a.spec_intersection(b) == b.spec_intersection(a),
{
}

} // verus!
