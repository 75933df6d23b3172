//! Geometry primitives in physical screen pixels.

use vstd::prelude::*;

verus! {

/// Integer division rounding toward zero, as Rust's `/` on signed integers does.
pub open spec fn tdiv(a: int, d: int) -> int {
    if a >= 0 {
        a / d
    } else {
        -((-a) / d)
    }
}

pub open spec fn iabs(a: int) -> int {
    if a >= 0 {
        a
    } else {
        -a
    }
}

pub open spec fn fits_i32(v: int) -> bool {
    i32::MIN <= v <= i32::MAX
}

/// `v` saturated into the `i32` range.
pub open spec fn saturate_i32(v: int) -> int {
    if v > i32::MAX { i32::MAX as int } else if v < i32::MIN { i32::MIN as int } else { v }
}

/// An axis-aligned rectangle: top-left `(x, y)`, size `(w, h)`.
#[derive(Copy, Clone, Debug, PartialEq, Eq, Hash, Structural)]
pub struct Rect {
    pub x: i32,
    pub y: i32,
    pub w: i32,
    pub h: i32,
}

impl Rect {
    pub open spec fn center_x(self) -> int {
        self.x + tdiv(self.w as int, 2)
    }

    pub open spec fn center_y(self) -> int {
        self.y + tdiv(self.h as int, 2)
    }

    /// The center lies in the `i32` range (computing it does not overflow).
    pub open spec fn center_fits(self) -> bool {
        fits_i32(self.center_x()) && fits_i32(self.center_y())
    }

    pub open spec fn manhattan_spec(self, other: Rect) -> int {
        iabs(self.center_x() - other.center_x()) + iabs(self.center_y() - other.center_y())
    }

    /// Returns the integer center `(cx, cy)` of the rectangle.
    pub fn center(self) -> (c: (i32, i32))
        requires
            self.center_fits(),
        ensures
            c.0 == self.center_x(),
            c.1 == self.center_y(),
    {
        (self.x + self.w / 2, self.y + self.h / 2)
    }

    /// Manhattan distance between the centers of two rectangles.
    pub fn manhattan_center(self, other: Rect) -> (d: i32)
        requires
            self.center_fits(),
            other.center_fits(),
            fits_i32(self.center_x() - other.center_x()),
            fits_i32(self.center_y() - other.center_y()),
            iabs(self.center_x() - other.center_x()) <= i32::MAX,
            iabs(self.center_y() - other.center_y()) <= i32::MAX,
            self.manhattan_spec(other) <= i32::MAX,
        ensures
            d == self.manhattan_spec(other),
    {
        let (ax, ay) = self.center();
        let (bx, by) = other.center();
        let dx = ax - bx;
        let dy = ay - by;
        let adx = if dx < 0 { -dx } else { dx };
        let ady = if dy < 0 { -dy } else { dy };
        adx + ady
    }

    /// The two rectangles share a region of positive area.
    pub open spec fn intersects_spec(self, other: Rect) -> bool {
        &&& self.x < other.x + other.w
        &&& other.x < self.x + self.w
        &&& self.y < other.y + other.h
        &&& other.y < self.y + self.h
    }

    /// Whether the two rectangles overlap in a region of positive area.
    pub fn intersects(self, other: Rect) -> (b: bool)
        ensures
            b == self.intersects_spec(other),
    {
        (self.x as i64) < (other.x as i64) + (other.w as i64)
            && (other.x as i64) < (self.x as i64) + (self.w as i64)
            && (self.y as i64) < (other.y as i64) + (other.h as i64)
            && (other.y as i64) < (self.y as i64) + (self.h as i64)
    }
}

} // verus!
