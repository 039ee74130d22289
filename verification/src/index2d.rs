//! Cell coordinates and displacements in a two-dimensional index space.

use vstd::prelude::*;

verus! {

/// A non-negative address of a single cell: `row` first, `col` second.
#[derive(Clone, Copy, Debug, PartialEq, Eq, Structural, Hash)]
pub struct MemIndex2D {
    pub row: usize,
    pub col: usize,
}

/// A signed displacement between two cells.
#[derive(Clone, Copy, Debug, PartialEq, Eq, Structural)]
pub struct MemOffset2D {
    pub row: isize,
    pub col: isize,
}

/// An unsigned displacement: a vector that lies entirely in the first
/// quadrant, so it can always be added to a coordinate up to overflow.
#[derive(Clone, Copy, Debug, PartialEq, Eq, Structural)]
pub struct MemVect2D {
    pub row: usize,
    pub col: usize,
}

impl MemIndex2D {
    pub fn new(row: usize, col: usize) -> (r: Self)
        ensures
            r.row == row,
            r.col == col,
    {
        MemIndex2D { row, col }
    }

    pub fn origin() -> (r: Self)
        ensures
            r.row == 0,
            r.col == 0,
    {
        MemIndex2D { row: 0, col: 0 }
    }

    /// Shift this coordinate by a signed offset; `None` when either
    /// component would leave `0..=usize::MAX`.
    pub fn checked_add_offset(self, rhs: MemOffset2D) -> (r: Option<MemIndex2D>)
        ensures
            match r {
                Some(i) => {
                    &&& i.row == self.row + rhs.row
                    &&& i.col == self.col + rhs.col
                },
                None => self.row + rhs.row < 0 || self.row + rhs.row > usize::MAX
                    || self.col + rhs.col < 0 || self.col + rhs.col > usize::MAX,
            },
    {
        let row = match self.row.checked_add_signed(rhs.row) {
            Some(v) => v,
            None => {
                return None;
            },
        };
        let col = match self.col.checked_add_signed(rhs.col) {
            Some(v) => v,
            None => {
                return None;
            },
        };
        Some(MemIndex2D { row, col })
    }

    /// The coordinate a displacement names when it lies in the first
    /// quadrant; rejected when either component is negative.
    pub fn try_from_offset(value: MemOffset2D) -> (r: Result<Self, &'static str>)
        ensures
            match r {
                Ok(i) => {
                    &&& value.row >= 0
                    &&& value.col >= 0
                    &&& i.row == value.row
                    &&& i.col == value.col
                },
                Err(_) => value.row < 0 || value.col < 0,
            },
    {
        if value.row < 0 || value.col < 0 {
            return Err("a displacement with a negative component is no coordinate");
        }
        Ok(MemIndex2D { row: value.row as usize, col: value.col as usize })
    }

    /// The coordinate a pair of signed components names; rejected when
    /// either component is negative.
    pub fn try_from_signed(row: i32, col: i32) -> (r: Result<Self, &'static str>)
        ensures
            match r {
                Ok(i) => row >= 0 && col >= 0 && i.row == row && i.col == col,
                Err(_) => row < 0 || col < 0,
            },
    {
        if row < 0 || col < 0 {
            return Err("a negative component is no coordinate");
        }
        Ok(MemIndex2D { row: row as usize, col: col as usize })
    }

    /// The displacement that carries `rhs` to `self`, component-wise;
    /// `None` when a component difference does not fit the signed width.
    pub fn offset_from(self, rhs: MemIndex2D) -> (r: Option<MemOffset2D>)
        ensures
            match r {
                Some(o) => o.row == self.row - rhs.row && o.col == self.col - rhs.col,
                None => self.row - rhs.row > isize::MAX || self.row - rhs.row < isize::MIN
                    || self.col - rhs.col > isize::MAX || self.col - rhs.col < isize::MIN,
            },
    {
        let row = match Self::checked_component_diff(self.row, rhs.row) {
            Some(v) => v,
            None => {
                return None;
            },
        };
        let col = match Self::checked_component_diff(self.col, rhs.col) {
            Some(v) => v,
            None => {
                return None;
            },
        };
        Some(MemOffset2D { row, col })
    }

    /// One signed component difference of two unsigned positions.
    fn checked_component_diff(a: usize, b: usize) -> (r: Option<isize>)
        ensures
            match r {
                Some(d) => d == a - b,
                None => a - b > isize::MAX || a - b < isize::MIN,
            },
    {
        if a >= b {
            let d = a - b;
            if d <= isize::MAX as usize {
                Some(d as isize)
            } else {
                None
            }
        } else {
            let d = b - a;
            if d <= isize::MAX as usize {
                Some(-(d as isize))
            } else if d == (isize::MAX as usize) + 1 {
                Some(isize::MIN)
            } else {
                None
            }
        }
    }

    /// Shift this coordinate by a signed offset in the opposite direction.
    pub fn checked_sub_offset(self, rhs: MemOffset2D) -> (r: Option<MemIndex2D>)
        requires
            rhs.row > isize::MIN,
            rhs.col > isize::MIN,
        ensures
            match r {
                Some(i) => {
                    &&& i.row == self.row - rhs.row
                    &&& i.col == self.col - rhs.col
                },
                None => self.row - rhs.row < 0 || self.row - rhs.row > usize::MAX
                    || self.col - rhs.col < 0 || self.col - rhs.col > usize::MAX,
            },
    {
        self.checked_add_offset(MemOffset2D { row: -rhs.row, col: -rhs.col })
    }
}

impl MemOffset2D {
    pub fn new(row: isize, col: isize) -> (r: Self)
        ensures
            r.row == row,
            r.col == col,
    {
        MemOffset2D { row, col }
    }

    /// A displacement along the row axis only.
    pub fn row_offset(magnitude: isize) -> (r: Self)
        ensures
            r.row == magnitude,
            r.col == 0,
    {
        MemOffset2D { row: magnitude, col: 0 }
    }

    /// A displacement along the column axis only.
    pub fn col_offset(magnitude: isize) -> (r: Self)
        ensures
            r.row == 0,
            r.col == magnitude,
    {
        MemOffset2D { row: 0, col: magnitude }
    }

    /// The coordinate seen as a displacement from the origin; `None` when a
    /// component does not fit in `isize`.
    pub fn from_index2d(value: MemIndex2D) -> (r: Option<Self>)
        ensures
            match r {
                Some(o) => o.row == value.row && o.col == value.col,
                None => value.row > isize::MAX || value.col > isize::MAX,
            },
    {
        if value.row <= (isize::MAX as usize) && value.col <= (isize::MAX as usize) {
            Some(MemOffset2D { row: value.row as isize, col: value.col as isize })
        } else {
            None
        }
    }

    pub fn neg(self) -> (r: Self)
        requires
            self.row > isize::MIN,
            self.col > isize::MIN,
        ensures
            r.row == -self.row,
            r.col == -self.col,
    {
        MemOffset2D { row: -self.row, col: -self.col }
    }

    /// Component-wise checked difference of two displacements.
    pub fn checked_sub(self, rhs: Self) -> (r: Option<Self>)
        ensures
            match r {
                Some(o) => o.row == self.row - rhs.row && o.col == self.col - rhs.col,
                None => self.row - rhs.row < isize::MIN || self.row - rhs.row > isize::MAX
                    || self.col - rhs.col < isize::MIN || self.col - rhs.col > isize::MAX,
            },
    {
        let row = match self.row.checked_sub(rhs.row) {
            Some(v) => v,
            None => {
                return None;
            },
        };
        let col = match self.col.checked_sub(rhs.col) {
            Some(v) => v,
            None => {
                return None;
            },
        };
        Some(MemOffset2D { row, col })
    }
}

impl MemVect2D {
    pub fn new(row: usize, col: usize) -> (r: Self)
        ensures
            r.row == row,
            r.col == col,
    {
        MemVect2D { row, col }
    }

    pub fn row_vect(magnitude: usize) -> (r: Self)
        ensures
            r.row == magnitude,
            r.col == 0,
    {
        MemVect2D { row: magnitude, col: 0 }
    }

    pub fn col_vect(magnitude: usize) -> (r: Self)
        ensures
            r.row == 0,
            r.col == magnitude,
    {
        MemVect2D { row: 0, col: magnitude }
    }

    pub fn from_index2d(value: MemIndex2D) -> (r: Self)
        ensures
            r.row == value.row,
            r.col == value.col,
    {
        MemVect2D { row: value.row, col: value.col }
    }

    /// Component-wise difference; `None` when either component would be
    /// negative.
    pub fn checked_sub(self, rhs: Self) -> (r: Option<Self>)
        ensures
            match r {
                Some(v) => v.row == self.row - rhs.row && v.col == self.col - rhs.col,
                None => self.row < rhs.row || self.col < rhs.col,
            },
    {
        let row = match self.row.checked_sub(rhs.row) {
            Some(v) => v,
            None => {
                return None;
            },
        };
        let col = match self.col.checked_sub(rhs.col) {
            Some(v) => v,
            None => {
                return None;
            },
        };
        Some(MemVect2D { row, col })
    }
}

} // verus!
