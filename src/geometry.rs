use vstd::prelude::*;

verus! {

/// A position in a text buffer: `y` is a line index, `x` a character column.
#[derive(Debug, Clone, Copy, PartialEq, Eq, Structural)]
pub struct Pos {
    pub x: usize,
    pub y: usize,
}

impl Pos {
    pub fn new(x: usize, y: usize) -> (r: Pos)
        ensures
            r == (Pos { x, y }),
    {
        Pos { x, y }
    }

    pub fn origin() -> (r: Pos)
        ensures
            r.x == 0 && r.y == 0,
    {
        Pos { x: 0, y: 0 }
    }
}

/// A rectangle of terminal cells.
#[derive(Debug, Clone, Copy, PartialEq, Eq, Structural)]
pub struct Area {
    pub left: u16,
    pub top: u16,
    pub width: u16,
    pub height: u16,
}

impl Area {
    pub open spec fn spec_contains(self, x: int, y: int) -> bool {
        &&& self.left <= x < self.left + self.width
        &&& self.top <= y < self.top + self.height
    }

    pub fn new(left: u16, top: u16, width: u16, height: u16) -> (r: Area)
        ensures
            r == (Area { left, top, width, height }),
    {
        Area { left, top, width, height }
    }

    /// The zero-size area a widget has before it is laid out.
    pub fn uninitialized() -> (r: Area)
        ensures
            r == (Area { left: 0, top: 0, width: 0, height: 0 }),
    {
        Area { left: 0, top: 0, width: 0, height: 0 }
    }

    /// Whether the cell `(x, y)` lies inside the area.
    pub fn contains(&self, x: u16, y: u16) -> (r: bool)
        ensures
            r == self.spec_contains(x as int, y as int),
    {
        x >= self.left && (x - self.left) < self.width && y >= self.top && (y - self.top)
            < self.height
    }
}

} // verus!
