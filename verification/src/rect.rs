use vstd::prelude::*;

verus! {

/// Half of `a`, rounded towards zero.
pub open spec fn half(a: int) -> int {
    if a >= 0 { a / 2 } else { -((-a) / 2) }
}

/// An axis-aligned rectangle of grid cells, by two opposite corners.
#[derive(Clone, Copy, Debug, PartialEq, Eq, Structural)]
pub struct Rect {
    pub x1: i32,
    pub y1: i32,
    pub x2: i32,
    pub y2: i32,
}

impl Rect {
    /// The rectangle shares at least one cell, border included, with `other`.
    pub open spec fn overlaps(self, other: Rect) -> bool {
        self.x1 <= other.x2 && self.x2 >= other.x1 && self.y1 <= other.y2 && self.y2 >= other.y1
    }

    /// The cell `(x, y)` is one that carving the room turns into floor.
    pub open spec fn interior_contains(self, x: int, y: int) -> bool {
        self.x1 < x <= self.x2 && self.y1 < y <= self.y2
    }

    /// Column of the middle cell.
    pub open spec fn center_x(self) -> int {
        half(self.x1 + self.x2)
    }

    /// Row of the middle cell.
    pub open spec fn center_y(self) -> int {
        half(self.y1 + self.y2)
    }

    /// The room has interior cells and all of them lie in the 80 by 50
    /// grid.
    pub open spec fn interior_in_grid(self) -> bool {
        -1 <= self.x1 && self.x1 < self.x2 && self.x2 < 80 && -1 <= self.y1 && self.y1 < self.y2
            && self.y2 < 50
    }

    /// The sums that the middle cell is computed from fit `i32`.
    pub open spec fn has_center(self) -> bool {
        i32::MIN <= self.x1 + self.x2 <= i32::MAX && i32::MIN <= self.y1 + self.y2 <= i32::MAX
    }

    /// The rectangle lies in the 80 by 50 grid and is at least two cells
    /// wide and high, so that its centre is one of its interior cells.
    pub open spec fn fits_grid(self) -> bool {
        0 <= self.x1 && self.x1 + 2 <= self.x2 && self.x2 < 80 && 0 <= self.y1 && self.y1 + 2
            <= self.y2 && self.y2 < 50
    }

    /// The rectangle with corner `(x, y)` that is `w` wide and `h` high.
    pub fn new(x: i32, y: i32, w: i32, h: i32) -> (r: Rect)
        requires
            i32::MIN <= x + w <= i32::MAX,
            i32::MIN <= y + h <= i32::MAX,
        ensures
            r == (Rect { x1: x, y1: y, x2: (x + w) as i32, y2: (y + h) as i32 }),
    {
        Rect { x1: x, y1: y, x2: x + w, y2: y + h }
    }

    /// Whether the two rectangles overlap.
    pub fn intersect(&self, other: &Rect) -> (b: bool)
        ensures
            b == self.overlaps(*other),
    {
        self.x1 <= other.x2 && self.x2 >= other.x1 && self.y1 <= other.y2 && self.y2 >= other.y1
    }

    /// The middle cell of the rectangle.
    pub fn center(&self) -> (c: (i32, i32))
        requires
            self.has_center(),
        ensures
            c.0 == self.center_x(),
            c.1 == self.center_y(),
    {
        ((self.x1 + self.x2) / 2, (self.y1 + self.y2) / 2)
    }
}

/// The centre of a rectangle that fits the grid is an interior cell of it.
pub proof fn lemma_center_in_interior(r: Rect)
    requires
        r.fits_grid(),
    ensures
        r.interior_contains(r.center_x(), r.center_y()),
        1 <= r.center_x() < 80,
        1 <= r.center_y() < 50,
{
}

} // verus!
