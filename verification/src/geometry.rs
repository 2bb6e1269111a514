//! Plane geometry for hit testing and clipping: immutable `Point` and
//! `Rectangle` values on integer pixel coordinates.
//!
//! Containment of a point follows a half-open convention (`[left, right)`
//! on each axis) so that adjacent rectangles tile the plane without
//! double-counting boundary pixels, and `intersects` demands overlap on
//! open intervals, so rectangles that merely share an edge do not
//! intersect.

use vstd::prelude::*;

verus! {

pub open spec fn int_min(a: int, b: int) -> int {
    if a <= b {
        a
    } else {
        b
    }
}

pub open spec fn int_max(a: int, b: int) -> int {
    if a >= b {
        a
    } else {
        b
    }
}

pub open spec fn int_abs(a: int) -> int {
    if a >= 0 {
        a
    } else {
        -a
    }
}

/// A point on the integer pixel plane. Arithmetic always returns a new
/// point; a `Point` value is never mutated in place.
#[derive(Clone, Copy, Debug)]
pub struct Point {
    pub x: i64,
    pub y: i64,
}

impl Point {
    pub fn new(x: i64, y: i64) -> (p: Point)
        ensures
            p.x == x,
            p.y == y,
    {
        Point { x, y }
    }

    /// The origin `(0, 0)`.
    pub fn origin() -> (p: Point)
        ensures
            p.x == 0,
            p.y == 0,
    {
        Point { x: 0, y: 0 }
    }

    /// Translation by `(offset_x, offset_y)`.
    pub fn plus(&self, offset_x: i64, offset_y: i64) -> (p: Point)
        requires
            i64::MIN <= self.x + offset_x <= i64::MAX,
            i64::MIN <= self.y + offset_y <= i64::MAX,
        ensures
            p.x == self.x + offset_x,
            p.y == self.y + offset_y,
    {
        Point { x: self.x + offset_x, y: self.y + offset_y }
    }

    /// Translation by `(-offset_x, -offset_y)`.
    pub fn minus(&self, offset_x: i64, offset_y: i64) -> (p: Point)
        requires
            i64::MIN <= self.x - offset_x <= i64::MAX,
            i64::MIN <= self.y - offset_y <= i64::MAX,
        ensures
            p.x == self.x - offset_x,
            p.y == self.y - offset_y,
    {
        Point { x: self.x - offset_x, y: self.y - offset_y }
    }

    /// Component-wise minimum.
    pub fn min(&self, point: Point) -> (p: Point)
        ensures
            p.x == int_min(self.x as int, point.x as int),
            p.y == int_min(self.y as int, point.y as int),
    {
        Point {
            x: if self.x <= point.x {
                self.x
            } else {
                point.x
            },
            y: if self.y <= point.y {
                self.y
            } else {
                point.y
            },
        }
    }

    /// Component-wise maximum.
    pub fn max(&self, point: Point) -> (p: Point)
        ensures
            p.x == int_max(self.x as int, point.x as int),
            p.y == int_max(self.y as int, point.y as int),
    {
        Point {
            x: if self.x >= point.x {
                self.x
            } else {
                point.x
            },
            y: if self.y >= point.y {
                self.y
            } else {
                point.y
            },
        }
    }

    /// The square of the Euclidean distance between the two points.
    /// (The distance itself is irrational in general; callers that need
    /// it take the square root outside the verified core.)
    pub fn distance_squared(&self, point: Point) -> (d: u128)
        requires
            (point.x - self.x) * (point.x - self.x) + (point.y - self.y) * (point.y - self.y)
                <= u128::MAX,
        ensures
            d == (point.x - self.x) * (point.x - self.x) + (point.y - self.y) * (point.y
                - self.y),
    {
        let dx: i128 = point.x as i128 - self.x as i128;
        let dy: i128 = point.y as i128 - self.y as i128;
        let ax: u128 = if dx >= 0 {
            dx as u128
        } else {
            (-dx) as u128
        };
        let ay: u128 = if dy >= 0 {
            dy as u128
        } else {
            (-dy) as u128
        };
        proof {
            assert(ax * ax == dx * dx && ay * ay == dy * dy) by (nonlinear_arith)
                requires
                    ax == int_abs(dx as int),
                    ay == int_abs(dy as int),
            ;
        }
        ax * ax + ay * ay
    }

    /// Both coordinates are equal.
    pub fn eq(&self, point: Point) -> (b: bool)
        ensures
            b == (self.x == point.x && self.y == point.y),
    {
        self.x == point.x && self.y == point.y
    }

    /// Both coordinates are strictly greater (a conjunction, not a
    /// lexicographic order).
    pub fn gt(&self, point: Point) -> (b: bool)
        ensures
            b == (self.x > point.x && self.y > point.y),
    {
        self.x > point.x && self.y > point.y
    }

    /// Both coordinates are strictly smaller.
    pub fn lt(&self, point: Point) -> (b: bool)
        ensures
            b == (self.x < point.x && self.y < point.y),
    {
        self.x < point.x && self.y < point.y
    }

    /// Both coordinates are greater or equal.
    pub fn gte(&self, point: Point) -> (b: bool)
        ensures
            b == (self.x >= point.x && self.y >= point.y),
    {
        self.x >= point.x && self.y >= point.y
    }

    /// Both coordinates are smaller or equal.
    pub fn lte(&self, point: Point) -> (b: bool)
        ensures
            b == (self.x <= point.x && self.y <= point.y),
    {
        self.x <= point.x && self.y <= point.y
    }

    /// Half-open containment: the point lies in `[left, right) x [top, bottom)`.
    pub fn within(&self, rect: Rectangle) -> (b: bool)
        requires
            rect.wf(),
        ensures
            b == spec_pt_within(rect, self.x as int, self.y as int),
    {
        rect.left() <= self.x && self.x < rect.right() && rect.top() <= self.y && self.y
            < rect.bottom()
    }
}

/// The rectangle handed to a point-iteration callback: the caller's
/// context if one is given, the iterated rectangle otherwise.
pub open spec fn context_rect(r: Rectangle, context: Option<Rectangle>) -> Rectangle {
    match context {
        Some(c) => c,
        None => r,
    }
}

/// Half-open containment of a point in a rectangle.
pub open spec fn spec_pt_within(r: Rectangle, px: int, py: int) -> bool {
    &&& r.spec_left() <= px < r.spec_right()
    &&& r.spec_top() <= py < r.spec_bottom()
}

/// Closed containment of a point in a rectangle: boundary points count.
pub open spec fn spec_pt_within_closed(r: Rectangle, px: int, py: int) -> bool {
    &&& r.spec_left() <= px <= r.spec_right()
    &&& r.spec_top() <= py <= r.spec_bottom()
}

/// `inner` lies entirely inside `outer` (closed comparison on all four
/// edges).
pub open spec fn spec_rect_within(inner: Rectangle, outer: Rectangle) -> bool {
    &&& outer.spec_left() <= inner.spec_left()
    &&& outer.spec_top() <= inner.spec_top()
    &&& inner.spec_right() <= outer.spec_right()
    &&& inner.spec_bottom() <= outer.spec_bottom()
}

/// Overlap on open intervals on both axes: rectangles that merely touch
/// at an edge or a corner do not intersect.
pub open spec fn spec_intersects(a: Rectangle, b: Rectangle) -> bool {
    &&& b.spec_right() > a.spec_left()
    &&& b.spec_bottom() > a.spec_top()
    &&& b.spec_left() < a.spec_right()
    &&& b.spec_top() < a.spec_bottom()
}

/// The overlapping region of the two rectangles has strictly positive
/// extent on both axes.
pub open spec fn spec_overlap_positive(a: Rectangle, b: Rectangle) -> bool {
    &&& int_min(a.spec_right(), b.spec_right()) > int_max(a.spec_left(), b.spec_left())
    &&& int_min(a.spec_bottom(), b.spec_bottom()) > int_max(a.spec_top(), b.spec_top())
}

/// An axis-aligned rectangle with a normalized representation: the stored
/// extent is always non-negative. Constructing a rectangle with a negative
/// width or height shifts the origin so the value denotes the same region
/// with a positive extent.
#[derive(Clone, Copy, Debug)]
pub struct Rectangle {
    origin: Point,
    extent: Point,
}

impl Rectangle {
    /// Every rectangle built by this module is well formed: its extent is
    /// non-negative and its far corner stays within the coordinate range.
    pub open spec fn wf(self) -> bool {
        &&& 0 <= self.spec_width()
        &&& 0 <= self.spec_height()
        &&& self.spec_right() <= i64::MAX
        &&& self.spec_bottom() <= i64::MAX
    }

    pub closed spec fn spec_left(self) -> int {
        self.origin.x as int
    }

    pub closed spec fn spec_top(self) -> int {
        self.origin.y as int
    }

    pub closed spec fn spec_width(self) -> int {
        self.extent.x as int
    }

    pub closed spec fn spec_height(self) -> int {
        self.extent.y as int
    }

    pub open spec fn spec_right(self) -> int {
        self.spec_left() + self.spec_width()
    }

    pub open spec fn spec_bottom(self) -> int {
        self.spec_top() + self.spec_height()
    }

    /// Normalizing constructor: a negative `width` or `height` denotes the
    /// same region as the rectangle at the shifted origin with the extent
    /// made positive.
    pub fn new(x: i64, y: i64, width: i64, height: i64) -> (r: Rectangle)
        requires
            i64::MIN < width,
            i64::MIN < height,
            i64::MIN <= x + width <= i64::MAX,
            i64::MIN <= y + height <= i64::MAX,
        ensures
            r.wf(),
            r.spec_left() == int_min(x as int, x + width),
            r.spec_top() == int_min(y as int, y + height),
            r.spec_width() == int_abs(width as int),
            r.spec_height() == int_abs(height as int),
    {
        let ox: i64 = if width < 0 {
            x + width
        } else {
            x
        };
        let w: i64 = if width < 0 {
            -width
        } else {
            width
        };
        let oy: i64 = if height < 0 {
            y + height
        } else {
            y
        };
        let h: i64 = if height < 0 {
            -height
        } else {
            height
        };
        Rectangle { origin: Point { x: ox, y: oy }, extent: Point { x: w, y: h } }
    }

    pub fn top(&self) -> (v: i64)
        ensures
            v == self.spec_top(),
    {
        self.origin.y
    }

    pub fn left(&self) -> (v: i64)
        ensures
            v == self.spec_left(),
    {
        self.origin.x
    }

    pub fn bottom(&self) -> (v: i64)
        requires
            self.wf(),
        ensures
            v == self.spec_bottom(),
    {
        self.origin.y + self.extent.y
    }

    pub fn right(&self) -> (v: i64)
        requires
            self.wf(),
        ensures
            v == self.spec_right(),
    {
        self.origin.x + self.extent.x
    }

    pub fn width(&self) -> (v: i64)
        ensures
            v == self.spec_width(),
    {
        self.extent.x
    }

    pub fn height(&self) -> (v: i64)
        ensures
            v == self.spec_height(),
    {
        self.extent.y
    }

    /// The normalized top-left corner.
    pub fn get_origin(&self) -> (p: Point)
        ensures
            p.x == self.spec_left(),
            p.y == self.spec_top(),
    {
        self.origin
    }

    /// The far corner: origin plus extent.
    pub fn corner(&self) -> (p: Point)
        requires
            self.wf(),
        ensures
            p.x == self.spec_right(),
            p.y == self.spec_bottom(),
    {
        Point { x: self.origin.x + self.extent.x, y: self.origin.y + self.extent.y }
    }

    /// The (non-negative) extent as a point-shaped pair.
    pub fn extent(&self) -> (p: Point)
        ensures
            p.x == self.spec_width(),
            p.y == self.spec_height(),
    {
        self.extent
    }

    /// The midpoint: origin plus half the extent, rounded toward the
    /// origin.
    pub fn center(&self) -> (p: Point)
        requires
            self.wf(),
        ensures
            p.x == self.spec_left() + self.spec_width() / 2,
            p.y == self.spec_top() + self.spec_height() / 2,
    {
        Point { x: self.origin.x + self.extent.x / 2, y: self.origin.y + self.extent.y / 2 }
    }

    /// Width times height.
    pub fn area(&self) -> (a: i64)
        requires
            self.wf(),
            self.spec_width() * self.spec_height() <= i64::MAX,
        ensures
            a == self.spec_width() * self.spec_height(),
    {
        proof {
            assert(0 <= self.spec_width() * self.spec_height()) by (nonlinear_arith)
                requires
                    0 <= self.spec_width(),
                    0 <= self.spec_height(),
            ;
        }
        self.extent.x * self.extent.y
    }

    /// The rectangle collapsed to width zero at horizontal position `x`.
    pub fn flatten_x_at(&self, x: i64) -> (r: Rectangle)
        requires
            self.wf(),
        ensures
            r.wf(),
            r.spec_left() == x,
            r.spec_top() == self.spec_top(),
            r.spec_width() == 0,
            r.spec_height() == self.spec_height(),
    {
        Rectangle::new(x, self.origin.y, 0, self.extent.y)
    }

    /// The rectangle collapsed to height zero at vertical position `y`.
    pub fn flatten_y_at(&self, y: i64) -> (r: Rectangle)
        requires
            self.wf(),
        ensures
            r.wf(),
            r.spec_left() == self.spec_left(),
            r.spec_top() == y,
            r.spec_width() == self.spec_width(),
            r.spec_height() == 0,
    {
        Rectangle::new(self.origin.x, y, self.extent.x, 0)
    }

    /// Inset all four sides by `padding` (a negative padding moves the
    /// sides outward). An inset past the middle is normalized like any
    /// other negative extent.
    pub fn grow_by(&self, padding: i64) -> (r: Rectangle)
        requires
            self.wf(),
            i64::MIN <= self.spec_left() + padding <= i64::MAX,
            i64::MIN <= self.spec_top() + padding <= i64::MAX,
            i64::MIN <= self.spec_right() - padding <= i64::MAX,
            i64::MIN <= self.spec_bottom() - padding <= i64::MAX,
            i64::MIN < self.spec_width() - 2 * padding <= i64::MAX,
            i64::MIN < self.spec_height() - 2 * padding <= i64::MAX,
        ensures
            r.wf(),
            r.spec_left() == int_min(self.spec_left() + padding, self.spec_right() - padding),
            r.spec_top() == int_min(self.spec_top() + padding, self.spec_bottom() - padding),
            r.spec_width() == int_abs(self.spec_width() - 2 * padding),
            r.spec_height() == int_abs(self.spec_height() - 2 * padding),
    {
        let w: i64 = self.extent.x - padding - padding;
        let h: i64 = self.extent.y - padding - padding;
        Rectangle::new(self.origin.x + padding, self.origin.y + padding, w, h)
    }

    /// Outset all four sides by `padding`: the mirror image of `grow_by`.
    pub fn shrink_by(&self, padding: i64) -> (r: Rectangle)
        requires
            self.wf(),
            i64::MIN < padding,
            i64::MIN <= self.spec_left() - padding <= i64::MAX,
            i64::MIN <= self.spec_top() - padding <= i64::MAX,
            i64::MIN <= self.spec_right() + padding <= i64::MAX,
            i64::MIN <= self.spec_bottom() + padding <= i64::MAX,
            i64::MIN < self.spec_width() + 2 * padding <= i64::MAX,
            i64::MIN < self.spec_height() + 2 * padding <= i64::MAX,
        ensures
            r.wf(),
            r.spec_left() == int_min(self.spec_left() - padding, self.spec_right() + padding),
            r.spec_top() == int_min(self.spec_top() - padding, self.spec_bottom() + padding),
            r.spec_width() == int_abs(self.spec_width() + 2 * padding),
            r.spec_height() == int_abs(self.spec_height() + 2 * padding),
    {
        self.grow_by(-padding)
    }

    /// The smallest rectangle containing both: component-wise minimum of
    /// the origins and maximum of the corners.
    pub fn union(&self, rect: Rectangle) -> (r: Rectangle)
        requires
            self.wf(),
            rect.wf(),
            int_max(self.spec_right(), rect.spec_right()) - int_min(
                self.spec_left(),
                rect.spec_left(),
            ) <= i64::MAX,
            int_max(self.spec_bottom(), rect.spec_bottom()) - int_min(
                self.spec_top(),
                rect.spec_top(),
            ) <= i64::MAX,
        ensures
            r.wf(),
            r.spec_left() == int_min(self.spec_left(), rect.spec_left()),
            r.spec_top() == int_min(self.spec_top(), rect.spec_top()),
            r.spec_right() == int_max(self.spec_right(), rect.spec_right()),
            r.spec_bottom() == int_max(self.spec_bottom(), rect.spec_bottom()),
    {
        let o = self.get_origin().min(rect.get_origin());
        let c = self.corner().max(rect.corner());
        Rectangle { origin: o, extent: Point { x: c.x - o.x, y: c.y - o.y } }
    }

    /// Calls `iteratee` once for every integer point of the rectangle's
    /// half-open area, column by column from the origin: for each `x` in
    /// `[left, right)`, each `y` in `[top, bottom)` in turn — width times
    /// height calls in all. Each call receives `context_rect(self,
    /// context)` (the given context, or this rectangle) and the point, and
    /// is admitted by the iteratee's own precondition.
    pub fn for_each<F: Fn(Rectangle, i64, i64)>(&self, iteratee: F, context: Option<Rectangle>)
        requires
            self.wf(),
            forall|x: i64, y: i64|
                self.spec_left() <= x < self.spec_right() && self.spec_top() <= y
                    < self.spec_bottom() ==> call_requires(
                    iteratee,
                    (context_rect(*self, context), x, y),
                ),
    {
        let rect = match context {
            Some(c) => c,
            None => *self,
        };
        let x2 = self.right();
        let y2 = self.bottom();
        let mut x = self.left();
        while x < x2
            invariant
                self.wf(),
                rect == context_rect(*self, context),
                x2 == self.spec_right(),
                y2 == self.spec_bottom(),
                self.spec_left() <= x,
                forall|px: i64, py: i64|
                    self.spec_left() <= px < self.spec_right() && self.spec_top() <= py
                        < self.spec_bottom() ==> call_requires(iteratee, (rect, px, py)),
            decreases x2 - x,
        {
            let mut y = self.top();
            while y < y2
                invariant
                    self.wf(),
                    rect == context_rect(*self, context),
                    y2 == self.spec_bottom(),
                    self.spec_left() <= x < self.spec_right(),
                    self.spec_top() <= y,
                    forall|px: i64, py: i64|
                        self.spec_left() <= px < self.spec_right() && self.spec_top() <= py
                            < self.spec_bottom() ==> call_requires(iteratee, (rect, px, py)),
                decreases y2 - y,
            {
                iteratee(rect, x, y);
                y = y + 1;
            }
            x = x + 1;
        }
    }

    /// The overlapping region if it has strictly positive extent on both
    /// axes; otherwise the caller-supplied fallback decides the outcome
    /// from the two rectangles.
    pub fn intersect<F: FnOnce(Rectangle, Rectangle) -> Option<Rectangle>>(
        &self,
        target: Rectangle,
        if_none: F,
    ) -> (r: Option<Rectangle>)
        requires
            self.wf(),
            target.wf(),
            call_requires(if_none, (*self, target)),
        ensures
            spec_overlap_positive(*self, target) ==> (r matches Some(rect) && {
                &&& rect.wf()
                &&& rect.spec_left() == int_max(self.spec_left(), target.spec_left())
                &&& rect.spec_top() == int_max(self.spec_top(), target.spec_top())
                &&& rect.spec_right() == int_min(self.spec_right(), target.spec_right())
                &&& rect.spec_bottom() == int_min(self.spec_bottom(), target.spec_bottom())
            }),
            !spec_overlap_positive(*self, target) ==> call_ensures(if_none, (*self, target), r),
    {
        let o = self.get_origin().max(target.get_origin());
        let c = self.corner().min(target.corner());
        if c.x > o.x && c.y > o.y {
            Some(Rectangle { origin: o, extent: Point { x: c.x - o.x, y: c.y - o.y } })
        } else {
            if_none(*self, target)
        }
    }

    /// Open-interval overlap on both axes.
    pub fn intersects(&self, rect: Rectangle) -> (b: bool)
        requires
            self.wf(),
            rect.wf(),
        ensures
            b == spec_intersects(*self, rect),
    {
        let sc = self.corner();
        let rc = rect.corner();
        rc.x > self.origin.x && rc.y > self.origin.y && rect.origin.x < sc.x && rect.origin.y
            < sc.y
    }

    /// Closed containment of `self` inside `rect`.
    pub fn within(&self, rect: Rectangle) -> (b: bool)
        requires
            self.wf(),
            rect.wf(),
        ensures
            b == spec_rect_within(*self, rect),
    {
        let sc = self.corner();
        let rc = rect.corner();
        rect.origin.x <= self.origin.x && rect.origin.y <= self.origin.y && sc.x <= rc.x && sc.y
            <= rc.y
    }
}

/// Law: the union of two rectangles contains both of them, and in
/// particular every corner of either rectangle lies between the union's
/// edges on both axes (the far edges themselves are reached, so the
/// closed reading of containment applies; the half-open `within` excludes
/// far edges by design).
pub proof fn lemma_union_contains_corners(a: Rectangle, b: Rectangle, u: Rectangle)
    requires
        a.wf(),
        b.wf(),
        u.spec_left() == int_min(a.spec_left(), b.spec_left()),
        u.spec_top() == int_min(a.spec_top(), b.spec_top()),
        u.spec_right() == int_max(a.spec_right(), b.spec_right()),
        u.spec_bottom() == int_max(a.spec_bottom(), b.spec_bottom()),
    ensures
        spec_rect_within(a, u),
        spec_rect_within(b, u),
        spec_pt_within_closed(u, a.spec_left(), a.spec_top()),
        spec_pt_within_closed(u, a.spec_right(), a.spec_top()),
        spec_pt_within_closed(u, a.spec_left(), a.spec_bottom()),
        spec_pt_within_closed(u, a.spec_right(), a.spec_bottom()),
        spec_pt_within_closed(u, b.spec_left(), b.spec_top()),
        spec_pt_within_closed(u, b.spec_right(), b.spec_top()),
        spec_pt_within_closed(u, b.spec_left(), b.spec_bottom()),
        spec_pt_within_closed(u, b.spec_right(), b.spec_bottom()),
{
}

/// Law: rectangles that merely touch along an edge, or are separated, on
/// either axis do not intersect: intersection requires overlap on open
/// intervals.
pub proof fn lemma_touching_rectangles_do_not_intersect(a: Rectangle, b: Rectangle)
    requires
        a.spec_right() <= b.spec_left() || b.spec_right() <= a.spec_left() || a.spec_bottom()
            <= b.spec_top() || b.spec_bottom() <= a.spec_top(),
    ensures
        !spec_intersects(a, b),
        !spec_intersects(b, a),
{
}

} // verus!
