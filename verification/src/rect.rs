//! Axis-aligned rectangles on the integer grid.

use vstd::prelude::*;

verus! {

/// An axis-aligned rectangle given by its top-left corner and its extent.
///
/// `right` and `bottom` are derived: `right == left + width` and
/// `bottom == top + height`.
#[derive(Clone, Copy, Debug, PartialEq, Eq, Structural)]
pub struct Rect {
    pub left: i32,
    pub right: i32,
    pub width: i32,
    pub top: i32,
    pub bottom: i32,
    pub height: i32,
}

/// Half of `n`, rounded toward zero.
pub open spec fn half(n: int) -> int {
    if n >= 0 {
        n / 2
    } else {
        -((-n) / 2)
    }
}

impl Rect {
    /// The derived edges agree with the corner and the extent.
    pub open spec fn wf(self) -> bool {
        &&& self.right == self.left + self.width
        &&& self.bottom == self.top + self.height
    }

    /// The rectangle with the given corner and extent, as a mathematical value.
    pub open spec fn spec_new(left: i32, top: i32, width: i32, height: i32) -> Rect {
        Rect {
            left,
            right: (left + width) as i32,
            width,
            top,
            bottom: (top + height) as i32,
            height,
        }
    }

    /// The integer midpoint of the rectangle.
    pub open spec fn spec_center(&self) -> (int, int) {
        (self.left + half(self.width as int), self.top + half(self.height as int))
    }

    /// `(x, y)` is one of the cells the rectangle spans: its left and top
    /// edges are included, its right and bottom edges are not.
    pub open spec fn covers(&self, x: int, y: int) -> bool {
        &&& self.left <= x < self.left + self.width
        &&& self.top <= y < self.top + self.height
    }

    /// `(x, y)` lies in the rectangle, all four edges included.
    pub open spec fn encloses(&self, x: int, y: int) -> bool {
        &&& self.left <= x <= self.right
        &&& self.top <= y <= self.bottom
    }

    /// The rectangle with the given top-left corner and extent.
    pub fn new(left: i32, top: i32, width: i32, height: i32) -> (r: Rect)
        requires
            i32::MIN <= left + width <= i32::MAX,
            i32::MIN <= top + height <= i32::MAX,
        ensures
            r == Rect::spec_new(left, top, width, height),
            r.wf(),
    {
        Rect { left: left, right: left + width, width: width, top: top, bottom: top + height, height: height }
    }

    /// The integer midpoint of the rectangle: the corner plus half the extent,
    /// rounded toward the corner.
    pub fn center(&self) -> (c: (i32, i32))
        requires
            self.wf(),
        ensures
            c.0 == self.spec_center().0,
            c.1 == self.spec_center().1,
    {
        (self.left + self.width / 2, self.top + self.height / 2)
    }

    /// Whether the two rectangles share a point, their edges included.
    pub open spec fn spec_intersects_with(&self, other: &Rect) -> bool {
        &&& self.left <= other.right
        &&& other.left <= self.right
        &&& self.top <= other.bottom
        &&& other.top <= self.bottom
    }

    /// Whether the two rectangles share a point, their edges included.
    #[verifier::when_used_as_spec(spec_intersects_with)]
    pub fn intersects_with(&self, other: &Rect) -> (b: bool)
        ensures
            b == self.spec_intersects_with(other),
    {
        (self.left <= other.right) && (other.left <= self.right) && (self.top <= other.bottom) && (
        other.top <= self.bottom)
    }
}

/// Two rectangles of non-negative extent intersect exactly when some point
/// lies in both of them, edges included; and whether they do does not depend
/// on which of the two is asked.
pub proof fn lemma_intersects_iff_shared_point(a: Rect, b: Rect)
    requires
        a.left <= a.right,
        a.top <= a.bottom,
        b.left <= b.right,
        b.top <= b.bottom,
    ensures
        a.spec_intersects_with(&b) <==> exists|x: int, y: int| #[trigger] a.encloses(x, y) && b.encloses(x, y),
        a.spec_intersects_with(&b) == b.spec_intersects_with(&a),
{
    if a.spec_intersects_with(&b) {
        let x = if a.left >= b.left {
            a.left as int
        } else {
            b.left as int
        };
        let y = if a.top >= b.top {
            a.top as int
        } else {
            b.top as int
        };
        assert(a.encloses(x, y) && b.encloses(x, y));
    }
}

} // verus!
