//! Axis-aligned rectangles.
//!
//! A `Rect` is a top-left corner and a size, both [`Point`]s.  Sizes are
//! nonnegative by convention but not enforced.  Two rectangles intersect
//! only when their open intervals overlap on both axes: rectangles that
//! merely touch along an edge do not intersect.  `keep_inside` clamps a
//! rectangle into a container with four independent edge checks, top-left
//! corner first, then bottom-right; for a rectangle larger than its
//! container the later bottom-right clamp wins the tie, a deliberate
//! ordering.

use vstd::prelude::*;
use crate::fixed::div_tz;
use crate::point::Point;

verus! {

#[derive(Clone, Copy, Debug, PartialEq, Eq, Structural)]
pub struct Rect {
    pub top_left: Point,
    pub size: Point,
}

/// The x coordinate of a rectangle's right edge.
pub open spec fn right_of(r: Rect) -> int {
    r.top_left.x + r.size.x
}

/// The y coordinate of a rectangle's bottom edge.
pub open spec fn bottom_of(r: Rect) -> int {
    r.top_left.y + r.size.y
}

/// The x coordinate of a rectangle's center (halves truncate towards zero).
pub open spec fn center_x_of(r: Rect) -> int {
    r.top_left.x + div_tz(r.size.x as int, 2)
}

/// The y coordinate of a rectangle's center.
pub open spec fn center_y_of(r: Rect) -> int {
    r.top_left.y + div_tz(r.size.y as int, 2)
}

/// The same rectangle with its left edge moved to `x` (size unchanged).
pub open spec fn with_x(r: Rect, x: int) -> Rect {
    Rect { top_left: Point { x: x as i64, y: r.top_left.y }, size: r.size }
}

/// The same rectangle with its top edge moved to `y` (size unchanged).
pub open spec fn with_y(r: Rect, y: int) -> Rect {
    Rect { top_left: Point { x: r.top_left.x, y: y as i64 }, size: r.size }
}

/// Open-interval overlap on both axes; touching edges do not count.
pub open spec fn intersects_of(a: Rect, b: Rect) -> bool {
    &&& a.top_left.x < right_of(b)
    &&& right_of(a) > b.top_left.x
    &&& a.top_left.y < bottom_of(b)
    &&& bottom_of(a) > b.top_left.y
}

/// The clamp that `keep_inside` performs: top and left edges first, then
/// right and bottom, each step independent of the others.
pub open spec fn keep_inside_of(r: Rect, c: Rect) -> Rect {
    let r1 = if r.top_left.y < c.top_left.y {
        with_y(r, c.top_left.y as int)
    } else {
        r
    };
    let r2 = if r1.top_left.x < c.top_left.x {
        with_x(r1, c.top_left.x as int)
    } else {
        r1
    };
    let r3 = if right_of(r2) > right_of(c) {
        with_x(r2, right_of(c) - r2.size.x)
    } else {
        r2
    };
    if bottom_of(r3) > bottom_of(c) {
        with_y(r3, bottom_of(c) - r3.size.y)
    } else {
        r3
    }
}

/// The bounds under which every clamped coordinate fits an `i64`, so that
/// `keep_inside` and its spec agree.
pub open spec fn clamp_in_range(r: Rect, c: Rect) -> bool {
    &&& i64::MIN <= right_of(c) <= i64::MAX
    &&& i64::MIN <= bottom_of(c) <= i64::MAX
    &&& i64::MIN <= right_of(c) - r.size.x <= i64::MAX
    &&& i64::MIN <= bottom_of(c) - r.size.y <= i64::MAX
}

impl Rect {
    pub fn new(top_left: Point, size: Point) -> (r: Rect)
        ensures
            r.top_left == top_left,
            r.size == size,
    {
        Rect { top_left, size }
    }

    pub fn with_xywh(x: i64, y: i64, width: i64, height: i64) -> (r: Rect)
        ensures
            r.top_left.x == x,
            r.top_left.y == y,
            r.size.x == width,
            r.size.y == height,
    {
        Rect::new(Point::new(x, y), Point::new(width, height))
    }

    /// A rectangle of the given size at the origin.
    pub fn with_size(size: Point) -> (r: Rect)
        ensures
            r.top_left.x == 0,
            r.top_left.y == 0,
            r.size == size,
    {
        Rect::new(Point::new(0, 0), size)
    }

    pub fn x(&self) -> (r: i64)
        ensures
            r == self.top_left.x,
    {
        self.top_left.x
    }

    pub fn y(&self) -> (r: i64)
        ensures
            r == self.top_left.y,
    {
        self.top_left.y
    }

    pub fn width(&self) -> (r: i64)
        ensures
            r == self.size.x,
    {
        self.size.x
    }

    pub fn height(&self) -> (r: i64)
        ensures
            r == self.size.y,
    {
        self.size.y
    }

    pub fn set_x(&mut self, x: i64)
        ensures
            *final(self) == with_x(*old(self), x as int),
    {
        self.top_left.x = x;
    }

    pub fn set_y(&mut self, y: i64)
        ensures
            *final(self) == with_y(*old(self), y as int),
    {
        self.top_left.y = y;
    }

    pub fn set_width(&mut self, width: i64)
        ensures
            final(self).size.x == width,
            final(self).size.y == old(self).size.y,
            final(self).top_left == old(self).top_left,
    {
        self.size.x = width;
    }

    pub fn set_height(&mut self, height: i64)
        ensures
            final(self).size.y == height,
            final(self).size.x == old(self).size.x,
            final(self).top_left == old(self).top_left,
    {
        self.size.y = height;
    }

    /// The x coordinate of the right edge.
    pub fn right(&self) -> (r: i64)
        requires
            i64::MIN <= right_of(*self) <= i64::MAX,
        ensures
            r == right_of(*self),
    {
        self.top_left.x + self.size.x
    }

    /// The y coordinate of the bottom edge.
    pub fn bottom(&self) -> (r: i64)
        requires
            i64::MIN <= bottom_of(*self) <= i64::MAX,
        ensures
            r == bottom_of(*self),
    {
        self.top_left.y + self.size.y
    }

    /// Move the rectangle so its right edge sits at `right` (size unchanged).
    pub fn set_right(&mut self, right: i64)
        requires
            i64::MIN <= right - old(self).size.x <= i64::MAX,
        ensures
            *final(self) == with_x(*old(self), right - old(self).size.x),
    {
        let x = right - self.size.x;
        self.set_x(x);
    }

    /// Move the rectangle so its bottom edge sits at `bottom` (size unchanged).
    pub fn set_bottom(&mut self, bottom: i64)
        requires
            i64::MIN <= bottom - old(self).size.y <= i64::MAX,
        ensures
            *final(self) == with_y(*old(self), bottom - old(self).size.y),
    {
        let y = bottom - self.size.y;
        self.set_y(y);
    }

    /// The bottom-right corner.
    pub fn bottom_right(&self) -> (r: Point)
        requires
            i64::MIN <= right_of(*self) <= i64::MAX,
            i64::MIN <= bottom_of(*self) <= i64::MAX,
        ensures
            r.x == right_of(*self),
            r.y == bottom_of(*self),
    {
        Point::new(self.right(), self.bottom())
    }

    /// Move the rectangle so its bottom-right corner sits at `bottom_right`.
    pub fn set_bottom_right(&mut self, bottom_right: Point)
        requires
            i64::MIN <= bottom_right.x - old(self).size.x <= i64::MAX,
            i64::MIN <= bottom_right.y - old(self).size.y <= i64::MAX,
        ensures
            final(self).top_left.x == bottom_right.x - old(self).size.x,
            final(self).top_left.y == bottom_right.y - old(self).size.y,
            final(self).size == old(self).size,
    {
        self.set_right(bottom_right.x);
        self.set_bottom(bottom_right.y);
    }

    /// The center of the rectangle.
    pub fn center(&self) -> (r: Point)
        requires
            self.size.x >= 0,
            self.size.y >= 0,
            i64::MIN <= center_x_of(*self) <= i64::MAX,
            i64::MIN <= center_y_of(*self) <= i64::MAX,
        ensures
            r.x == center_x_of(*self),
            r.y == center_y_of(*self),
    {
        let hw: i64 = ((self.size.x as u64) / 2) as i64;
        let hh: i64 = ((self.size.y as u64) / 2) as i64;
        Point::new(self.top_left.x + hw, self.top_left.y + hh)
    }

    /// True when the two rectangles' open intervals overlap on both axes;
    /// rectangles that only touch along an edge do not intersect.
    pub fn intersects_with(&self, other: &Rect) -> (r: bool)
        ensures
            r == intersects_of(*self, *other),
    {
        let ax = self.top_left.x as i128;
        let ay = self.top_left.y as i128;
        let bx = other.top_left.x as i128;
        let by = other.top_left.y as i128;
        ax < bx + other.size.x as i128 && ax + self.size.x as i128 > bx
            && ay < by + other.size.y as i128 && ay + self.size.y as i128 > by
    }

    /// Clamp this rectangle into `container`: top-left corner first, then
    /// bottom-right, each check independent, so for an oversized
    /// rectangle the bottom-right clamp decides.
    pub fn keep_inside(&mut self, container: Rect)
        requires
            clamp_in_range(*old(self), container),
        ensures
            *final(self) == keep_inside_of(*old(self), container),
    {
        if self.top_left.y < container.top_left.y {
            self.top_left.y = container.top_left.y;
        }
        if self.top_left.x < container.top_left.x {
            self.top_left.x = container.top_left.x;
        }
        let cr = container.right();
        if self.top_left.x as i128 + self.size.x as i128 > cr as i128 {
            self.top_left.x = cr - self.size.x;
        }
        let cb = container.bottom();
        if self.top_left.y as i128 + self.size.y as i128 > cb as i128 {
            self.top_left.y = cb - self.size.y;
        }
    }
}

/// Intersection is symmetric: `A` intersects `B` exactly when `B`
/// intersects `A`.
pub proof fn lemma_intersects_symmetric(a: Rect, b: Rect)
    ensures
        intersects_of(a, b) == intersects_of(b, a),
{
}

/// Rectangles that share only an edge do not intersect.
pub proof fn lemma_touching_edges_do_not_intersect(a: Rect, b: Rect)
    requires
        right_of(a) == b.top_left.x || right_of(b) == a.top_left.x || bottom_of(a) == b.top_left.y
            || bottom_of(b) == a.top_left.y,
    ensures
        !intersects_of(a, b),
{
}

/// After clamping, a rectangle no larger than its container lies fully
/// within it: top-left at or after the container's top-left, bottom-right
/// at or before the container's bottom-right, on both axes.
pub proof fn lemma_keep_inside_contains(r: Rect, c: Rect)
    requires
        clamp_in_range(r, c),
        0 <= r.size.x <= c.size.x,
        0 <= r.size.y <= c.size.y,
    ensures
        keep_inside_of(r, c).size == r.size,
        keep_inside_of(r, c).top_left.x >= c.top_left.x,
        keep_inside_of(r, c).top_left.y >= c.top_left.y,
        right_of(keep_inside_of(r, c)) <= right_of(c),
        bottom_of(keep_inside_of(r, c)) <= bottom_of(c),
{
}

/// Clamping is idempotent: clamping a second time with the same container
/// changes nothing, whatever the sizes involved.
pub proof fn lemma_keep_inside_idempotent(r: Rect, c: Rect)
    requires
        clamp_in_range(r, c),
    ensures
        keep_inside_of(keep_inside_of(r, c), c) == keep_inside_of(r, c),
{
}

} // verus!
