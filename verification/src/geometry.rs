//! Rectangles in integer logical coordinates, as the layout engine hands them
//! to windows.

use vstd::prelude::*;

verus! {

/// A rectangle in logical coordinates: position `(x, y)` and size `(w, h)`.
#[derive(Clone, Copy, Debug, PartialEq, Eq, Structural)]
pub struct Rect {
    pub x: i32,
    pub y: i32,
    pub w: i32,
    pub h: i32,
}

impl Rect {
    /// A rectangle the layout engine may subdivide: non-negative size, and the
    /// far corner still representable in `i32`.
    pub open spec fn wf(self) -> bool {
        &&& 0 <= self.w
        &&& 0 <= self.h
        &&& self.x + self.w <= i32::MAX
        &&& self.y + self.h <= i32::MAX
    }

    pub open spec fn area(self) -> int {
        self.w * self.h
    }

    pub open spec fn spec_contains(self, px: int, py: int) -> bool {
        &&& self.x <= px < self.x + self.w
        &&& self.y <= py < self.y + self.h
    }

    /// No point lies in both `self` and `other`.
    pub open spec fn disjoint(self, other: Rect) -> bool {
        ||| self.x + self.w <= other.x
        ||| other.x + other.w <= self.x
        ||| self.y + self.h <= other.y
        ||| other.y + other.h <= self.y
    }

    /// Every point of `self` lies in `outer`.
    pub open spec fn within(self, outer: Rect) -> bool {
        &&& outer.x <= self.x
        &&& self.x + self.w <= outer.x + outer.w
        &&& outer.y <= self.y
        &&& self.y + self.h <= outer.y + outer.h
    }

    /// Whether the point `(px, py)` lies inside this rectangle.
    pub fn contains(&self, px: i32, py: i32) -> (r: bool)
        ensures
            r == self.spec_contains(px as int, py as int),
    {
        self.x <= px && (px as i64) < (self.x as i64) + (self.w as i64) && self.y <= py
            && (py as i64) < (self.y as i64) + (self.h as i64)
    }
}

/// Containment in disjoint outer rectangles keeps the inner ones disjoint.
pub proof fn lemma_within_disjoint(a: Rect, b: Rect, outer_a: Rect, outer_b: Rect)
    requires
        a.within(outer_a),
        b.within(outer_b),
        outer_a.disjoint(outer_b),
    ensures
        a.disjoint(b),
{
}

/// `within` is transitive.
pub proof fn lemma_within_trans(a: Rect, b: Rect, c: Rect)
    requires
        a.within(b),
        b.within(c),
    ensures
        a.within(c),
{
}

} // verus!
