use vstd::prelude::*;

verus! {

/// A rectangle of the terminal, in cells.
#[derive(Debug, Clone, Copy, PartialEq, Eq, Structural, Default)]
pub struct Area {
    pub x: u16,
    pub y: u16,
    pub width: u16,
    pub height: u16,
}

/// `a + b`, capped at the largest `u16`.
pub open spec fn sat_add(a: u16, b: u16) -> u16 {
    if a + b > u16::MAX {
        u16::MAX
    } else {
        (a + b) as u16
    }
}

/// `a - b`, floored at 0.
pub open spec fn sat_sub(a: int, b: int) -> int {
    if a > b {
        a - b
    } else {
        0
    }
}

impl Area {
    /// The cell (`x`, `y`) lies in the area (whose right and bottom edges are
    /// capped at the largest coordinate).
    pub open spec fn holds(self, x: u16, y: u16) -> bool {
        &&& self.x <= x < sat_add(self.x, self.width)
        &&& self.y <= y < sat_add(self.y, self.height)
    }

    /// Whether the cell (`x`, `y`) lies in the area.
    pub fn contains(self, x: u16, y: u16) -> (r: bool)
        ensures
            r == self.holds(x, y),
    {
        let right: u16 = if self.width > u16::MAX - self.x {
            u16::MAX
        } else {
            self.x + self.width
        };
        let bottom: u16 = if self.height > u16::MAX - self.y {
            u16::MAX
        } else {
            self.y + self.height
        };
        x >= self.x && x < right && y >= self.y && y < bottom
    }

    /// The area inside a border of one cell: empty at the origin when the area is
    /// less than two cells wide or high.
    pub open spec fn inside_border(self) -> Area {
        if self.width < 2 || self.height < 2 {
            Area { x: 0, y: 0, width: 0, height: 0 }
        } else {
            Area {
                x: sat_add(self.x, 1),
                y: sat_add(self.y, 1),
                width: (self.width - 2) as u16,
                height: (self.height - 2) as u16,
            }
        }
    }

    /// The area inside a border of one cell.
    pub fn inner(self) -> (r: Area)
        ensures
            r == self.inside_border(),
    {
        if self.width < 2 || self.height < 2 {
            Area { x: 0, y: 0, width: 0, height: 0 }
        } else {
            Area {
                x: if self.x == u16::MAX {
                    u16::MAX
                } else {
                    self.x + 1
                },
                y: if self.y == u16::MAX {
                    u16::MAX
                } else {
                    self.y + 1
                },
                width: self.width - 2,
                height: self.height - 2,
            }
        }
    }
}

/// Where the three panels are on the screen.
#[derive(Debug, Clone, Copy, PartialEq, Eq, Structural, Default)]
pub struct PanelAreas {
    pub repos: Area,
    pub info: Area,
    pub readme: Area,
}

} // verus!
