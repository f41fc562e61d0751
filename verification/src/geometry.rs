//! Terminal-cell geometry: positions, sizes and rectangular regions with a
//! containment test. Coordinates are zero-based cell indices, row first.

use vstd::prelude::*;

verus! {

/// A cell position on the terminal grid.
#[derive(Clone, Copy, Debug, PartialEq, Eq, Structural)]
pub struct Position {
    pub row: usize,
    pub col: usize,
}

/// A rectangle extent, in rows and columns.
#[derive(Clone, Copy, Debug, PartialEq, Eq, Structural)]
pub struct Size {
    pub rows: usize,
    pub cols: usize,
}

/// A rectangular region: a top-left position plus a size.
#[derive(Clone, Copy, Debug, PartialEq, Eq, Structural)]
pub struct Region {
    pub position: Position,
    pub size: Size,
}

impl Region {
    /// Whether `p` lies inside the region.
    pub open spec fn spec_contains(self, p: Position) -> bool {
        &&& self.position.row <= p.row < self.position.row + self.size.rows
        &&& self.position.col <= p.col < self.position.col + self.size.cols
    }

    /// Containment test for hit-testing.
    pub fn contains(&self, p: Position) -> (r: bool)
        ensures
            r == self.spec_contains(p),
    {
        p.row >= self.position.row && p.row - self.position.row < self.size.rows
            && p.col >= self.position.col && p.col - self.position.col < self.size.cols
    }

    /// The position of the region's top-right cell (its last column).
    pub fn top_right(&self) -> (p: Position)
        requires
            self.size.cols >= 1,
            self.position.col + self.size.cols <= usize::MAX,
        ensures
            p.row == self.position.row,
            p.col == self.position.col + self.size.cols - 1,
    {
        Position { row: self.position.row, col: self.position.col + self.size.cols - 1 }
    }
}

} // verus!
