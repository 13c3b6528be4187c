//! Rectangles of terminal cells.

use vstd::prelude::*;

verus! {

/// The largest coordinate a cell can have.
pub const COORD_MAX: u16 = 65535;

/// An axis-aligned rectangle of cells: `x`, `y` is its top-left corner.
#[derive(Debug, Clone, Copy, PartialEq, Eq, Hash, Structural)]
pub struct Rect {
    pub x: u16,
    pub y: u16,
    pub width: u16,
    pub height: u16,
}

/// The two axes along which a layout can place its children.
#[derive(Debug, Clone, Copy, PartialEq, Eq, Hash, Structural)]
pub enum Direction {
    Horizontal,
    Vertical,
}

impl Rect {
    /// The right and bottom edges stay within the coordinate space.
    pub open spec fn wf(self) -> bool {
        self.x + self.width <= COORD_MAX && self.y + self.height <= COORD_MAX
    }

    /// The number of cells the rectangle covers.
    pub open spec fn cell_count(self) -> int {
        self.width * self.height
    }

    /// Whether the cell at `(px, py)` lies in the rectangle.
    pub open spec fn contains_point(self, px: int, py: int) -> bool {
        self.x <= px < self.x + self.width && self.y <= py < self.y + self.height
    }

    /// Whether `inner` lies entirely within this rectangle.
    pub open spec fn encloses(self, inner: Rect) -> bool {
        self.x <= inner.x && inner.x + inner.width <= self.x + self.width && self.y <= inner.y
            && inner.y + inner.height <= self.y + self.height
    }

    /// Whether the two rectangles share at least one cell.
    pub open spec fn overlaps(self, other: Rect) -> bool {
        self.x < other.x + other.width && other.x < self.x + self.width && self.y < other.y
            + other.height && other.y < self.y + self.height
    }

    /// A rectangle at `(x, y)`; a size that would reach past the coordinate
    /// space is cut back to its edge.
    pub fn new(x: u16, y: u16, width: u16, height: u16) -> (r: Rect)
        ensures
            r.wf(),
            r.x == x,
            r.y == y,
            r.width == if x + width <= COORD_MAX { width as int } else { COORD_MAX - x },
            r.height == if y + height <= COORD_MAX { height as int } else { COORD_MAX - y },
    {
        let w = if width <= COORD_MAX - x { width } else { COORD_MAX - x };
        let h = if height <= COORD_MAX - y { height } else { COORD_MAX - y };
        Rect { x, y, width: w, height: h }
    }

    /// The number of cells the rectangle covers.
    pub fn area(&self) -> (r: u32)
        ensures
            r == self.cell_count(),
    {
        proof {
            vstd::arithmetic::mul::lemma_mul_upper_bound(
                self.width as int,
                65535,
                self.height as int,
                65535,
            );
        }
        self.width as u32 * self.height as u32
    }

    pub fn left(&self) -> (r: u16)
        ensures
            r == self.x,
    {
        self.x
    }

    pub fn top(&self) -> (r: u16)
        ensures
            r == self.y,
    {
        self.y
    }

    pub fn right(&self) -> (r: u16)
        requires
            self.wf(),
        ensures
            r == self.x + self.width,
    {
        self.x + self.width
    }

    pub fn bottom(&self) -> (r: u16)
        requires
            self.wf(),
        ensures
            r == self.y + self.height,
    {
        self.y + self.height
    }

    /// Whether the cell at `(px, py)` lies in the rectangle.
    pub fn contains_point_exec(&self, px: u16, py: u16) -> (r: bool)
        ensures
            r == self.contains_point(px as int, py as int),
    {
        self.x <= px && (px as u32) < self.x as u32 + self.width as u32 && self.y <= py
            && (py as u32) < self.y as u32 + self.height as u32
    }

    /// Whether the rectangle covers no cell.
    pub fn is_empty(&self) -> (r: bool)
        ensures
            r == (self.width == 0 || self.height == 0),
    {
        self.width == 0 || self.height == 0
    }
}

} // verus!
