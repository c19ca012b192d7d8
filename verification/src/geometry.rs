//! Rectangles on the terminal cell grid.

use vstd::prelude::*;

verus! {

/// A rectangle of terminal cells, origin at the top left. A zero-area
/// rectangle is valid and means "nothing to draw".
#[derive(Clone, Copy, Debug, PartialEq, Eq, Structural)]
pub struct Rect {
    pub x: u16,
    pub y: u16,
    pub width: u16,
    pub height: u16,
}

impl Rect {
    /// The number of cells covered by the rectangle.
    pub open spec fn spec_area(self) -> int {
        self.width * self.height
    }

    /// One past the rightmost column.
    pub open spec fn spec_right(self) -> int {
        self.x + self.width
    }

    /// One past the bottom row.
    pub open spec fn spec_bottom(self) -> int {
        self.y + self.height
    }

    /// Does the cell at (x, y) lie inside the rectangle?
    pub open spec fn spec_contains(self, x: int, y: int) -> bool {
        &&& self.x <= x < self.spec_right()
        &&& self.y <= y < self.spec_bottom()
    }

    /// Does `self` lie entirely within `outer`?
    pub open spec fn spec_within(self, outer: Rect) -> bool {
        &&& outer.x <= self.x
        &&& self.spec_right() <= outer.spec_right()
        &&& outer.y <= self.y
        &&& self.spec_bottom() <= outer.spec_bottom()
    }

    pub fn new(x: u16, y: u16, width: u16, height: u16) -> (r: Rect)
        ensures
            r == (Rect { x, y, width, height }),
    {
        Rect { x, y, width, height }
    }
}

} // verus!
