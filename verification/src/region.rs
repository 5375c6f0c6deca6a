//! Rectangles of terminal cells.
use vstd::prelude::*;

verus! {

/// A rectangle of cells: its top-left corner and its size.
#[derive(Clone, Copy, Debug, PartialEq, Eq, Structural)]
pub struct Region {
    pub x: u16,
    pub y: u16,
    pub width: u16,
    pub height: u16,
}

impl Region {
    /// The column just right of the region, held at `u16::MAX`.
    pub open spec fn spec_right(self) -> int {
        if self.x + self.width > u16::MAX {
            u16::MAX as int
        } else {
            self.x + self.width
        }
    }

    /// The row just below the region, held at `u16::MAX`.
    pub open spec fn spec_bottom(self) -> int {
        if self.y + self.height > u16::MAX {
            u16::MAX as int
        } else {
            self.y + self.height
        }
    }

    /// The number of columns between the left edge and [`Self::spec_right`].
    pub open spec fn spec_span(self) -> int {
        self.spec_right() - self.x
    }

    /// Whether the cell at column `x`, row `y` lies in the region.
    pub open spec fn contains(self, x: int, y: int) -> bool {
        self.x <= x < self.spec_right() && self.y <= y < self.spec_bottom()
    }

    /// Whether the region ends at or before the last addressable column and row.
    pub open spec fn in_range(self) -> bool {
        self.x + self.width <= u16::MAX && self.y + self.height <= u16::MAX
    }

    /// A region at `(x, y)`, with `width` and `height` cut back so that it ends
    /// at or before the last addressable column and row.
    pub fn new(x: u16, y: u16, width: u16, height: u16) -> (region: Region)
        ensures
            region.x == x,
            region.y == y,
            region.width == if x + width > u16::MAX { u16::MAX - x } else { width as int },
            region.height == if y + height > u16::MAX { u16::MAX - y } else { height as int },
            region.in_range(),
    {
        let max_width: u16 = u16::MAX - x;
        let max_height: u16 = u16::MAX - y;
        Region {
            x,
            y,
            width: if width > max_width { max_width } else { width },
            height: if height > max_height { max_height } else { height },
        }
    }

    /// The leftmost column.
    pub fn left(&self) -> (column: u16)
        ensures
            column == self.x,
    {
        self.x
    }

    /// The column just right of the region, held at `u16::MAX`.
    pub fn right(&self) -> (column: u16)
        ensures
            column == self.spec_right(),
    {
        self.x.saturating_add(self.width)
    }

    /// The topmost row.
    pub fn top(&self) -> (row: u16)
        ensures
            row == self.y,
    {
        self.y
    }

    /// The row just below the region, held at `u16::MAX`.
    pub fn bottom(&self) -> (row: u16)
        ensures
            row == self.spec_bottom(),
    {
        self.y.saturating_add(self.height)
    }
}

} // verus!
