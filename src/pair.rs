//! The (width, height) shape of a container.
use vstd::prelude::*;

verus! {

/// A shape: `x` is the width (number of columns), `y` the height (number of
/// rows). Also used for a point `(row, col)` through `from_point`.
#[derive(Clone, Copy, Debug, PartialEq, Eq, Structural)]
pub struct Pair {
    pub x: usize,
    pub y: usize,
}

impl Pair {
    pub open spec fn swapped(self) -> Pair {
        Pair { x: self.y, y: self.x }
    }

    pub fn new(x: usize, y: usize) -> (r: Pair)
        ensures
            r.x == x,
            r.y == y,
    {
        Pair { x, y }
    }

    /// Exchanges width and height.
    pub fn transpose(&mut self)
        ensures
            *final(self) == old(self).swapped(),
    {
        let t = self.x;
        self.x = self.y;
        self.y = t;
    }

    /// Whether the point `(row, col)` lies inside a shape of this size.
    pub fn in_rect(&self, row: usize, col: usize) -> (r: bool)
        ensures
            r == (row < self.y && col < self.x),
    {
        row < self.y && col < self.x
    }

    /// Whether the shape is a single column.
    pub fn is_vertical(&self) -> (r: bool)
        ensures
            r == (self.x == 1),
    {
        self.x == 1
    }
}

} // verus!
