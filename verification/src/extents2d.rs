//! Inclusive rectangles described by a minimum and a maximum corner.
//!
//! Coordinate containment here goes through the coordinate total order that
//! compares columns first and rows second; corner validation goes through
//! the row-first order. Both conventions are deliberate and are spelled out
//! in each contract.

use vstd::prelude::*;
use crate::index2d::{MemIndex2D, MemVect2D};

verus! {

/// Column-first total order on coordinates: `a` comes before `b` when its
/// column is smaller, with rows breaking ties.
pub open spec fn col_first_le(a: MemIndex2D, b: MemIndex2D) -> bool {
    a.col < b.col || (a.col == b.col && a.row <= b.row)
}

/// Strict form of [`col_first_le`].
pub open spec fn col_first_lt(a: MemIndex2D, b: MemIndex2D) -> bool {
    a.col < b.col || (a.col == b.col && a.row < b.row)
}

/// Row-first total order on coordinates.
pub open spec fn row_first_le(a: MemIndex2D, b: MemIndex2D) -> bool {
    a.row < b.row || (a.row == b.row && a.col <= b.col)
}

/// A rectangle held as two corner coordinates, `min_coord` and `max_coord`.
#[derive(Clone, Copy, Debug, PartialEq, Eq, Structural)]
pub struct MemExtents2D {
    pub min_coord: MemIndex2D,
    pub max_coord: MemIndex2D,
}

impl MemExtents2D {
    pub open spec fn spec_min_coord(self) -> MemIndex2D {
        self.min_coord
    }

    pub open spec fn spec_max_coord(self) -> MemIndex2D {
        self.max_coord
    }

    /// The corners are ordered on each axis separately.
    pub open spec fn wf(self) -> bool {
        self.min_coord.row <= self.max_coord.row && self.min_coord.col <= self.max_coord.col
    }

    pub open spec fn spec_width(self) -> int {
        self.max_coord.col - self.min_coord.col
    }

    pub open spec fn spec_height(self) -> int {
        self.max_coord.row - self.min_coord.row
    }

    pub open spec fn spec_area(self) -> int {
        self.spec_width() * self.spec_height()
    }

    pub fn get_min_coord(&self) -> (r: MemIndex2D)
        ensures
            r == self.min_coord,
    {
        self.min_coord
    }

    pub fn get_max_coord(&self) -> (r: MemIndex2D)
        ensures
            r == self.max_coord,
    {
        self.max_coord
    }

    /// Whether two corners are ordered under the row-first order.
    pub fn validate_coordinates(min_coord: MemIndex2D, max_coord: MemIndex2D) -> (r: bool)
        ensures
            r == row_first_le(min_coord, max_coord),
    {
        min_coord.row < max_coord.row || (min_coord.row == max_coord.row && min_coord.col
            <= max_coord.col)
    }

    /// The rectangle from the origin to the corner `(height, width)`.
    pub fn new_width_height(width: usize, height: usize) -> (r: Self)
        ensures
            r.min_coord == (MemIndex2D { row: 0, col: 0 }),
            r.max_coord == (MemIndex2D { row: height, col: width }),
            r.wf(),
    {
        MemExtents2D { min_coord: MemIndex2D::origin(), max_coord: MemIndex2D::new(height, width) }
    }

    /// A rectangle from explicit corners; rejected when the corners are not
    /// ordered under the row-first order.
    pub fn new_from_coords(min_coord: MemIndex2D, max_coord: MemIndex2D) -> (r: Result<
        Self,
        &'static str,
    >)
        ensures
            match r {
                Ok(e) => row_first_le(min_coord, max_coord) && e.min_coord == min_coord
                    && e.max_coord == max_coord,
                Err(_) => !row_first_le(min_coord, max_coord),
            },
    {
        if !Self::validate_coordinates(min_coord, max_coord) {
            return Err("min_coord must be less than max_coord");
        }
        Ok(MemExtents2D { min_coord, max_coord })
    }

    pub fn new_from_usize(min_row: usize, min_col: usize, max_row: usize, max_col: usize) -> (r:
        Result<Self, &'static str>)
        ensures
            match r {
                Ok(e) => {
                    &&& row_first_le(
                        MemIndex2D { row: min_row, col: min_col },
                        MemIndex2D { row: max_row, col: max_col },
                    )
                    &&& e.min_coord == (MemIndex2D { row: min_row, col: min_col })
                    &&& e.max_coord == (MemIndex2D { row: max_row, col: max_col })
                },
                Err(_) => !row_first_le(
                    MemIndex2D { row: min_row, col: min_col },
                    MemIndex2D { row: max_row, col: max_col },
                ),
            },
    {
        Self::new_from_coords(MemIndex2D::new(min_row, min_col), MemIndex2D::new(max_row, max_col))
    }

    /// The unit rectangle from the origin to `(1, 1)`.
    pub fn new_default() -> (r: Self)
        ensures
            r.min_coord == (MemIndex2D { row: 0, col: 0 }),
            r.max_coord == (MemIndex2D { row: 1, col: 1 }),
            r.wf(),
    {
        MemExtents2D { min_coord: MemIndex2D::origin(), max_coord: MemIndex2D::new(1, 1) }
    }

    pub fn height(&self) -> (r: usize)
        requires
            self.min_coord.row <= self.max_coord.row,
        ensures
            r == self.spec_height(),
    {
        self.max_coord.row - self.min_coord.row
    }

    pub fn width(&self) -> (r: usize)
        requires
            self.min_coord.col <= self.max_coord.col,
        ensures
            r == self.spec_width(),
    {
        self.max_coord.col - self.min_coord.col
    }

    pub fn area(&self) -> (r: usize)
        requires
            self.wf(),
            self.spec_area() <= usize::MAX,
        ensures
            r == self.spec_area(),
    {
        self.width() * self.height()
    }

    fn update_min(&mut self, min_query: MemIndex2D)
        ensures
            final (self).min_coord.row == if old(self).min_coord.row <= min_query.row {
                old(self).min_coord.row
            } else {
                min_query.row
            },
            final (self).min_coord.col == if old(self).min_coord.col <= min_query.col {
                old(self).min_coord.col
            } else {
                min_query.col
            },
            final (self).max_coord == old(self).max_coord,
    {
        let row = if self.min_coord.row <= min_query.row {
            self.min_coord.row
        } else {
            min_query.row
        };
        let col = if self.min_coord.col <= min_query.col {
            self.min_coord.col
        } else {
            min_query.col
        };
        self.min_coord = MemIndex2D::new(row, col);
    }

    /// Push the maximum corner out to cover `max_query`, axis by axis.
    pub fn update_max(&mut self, max_query: MemIndex2D)
        ensures
            final (self).max_coord.row == if old(self).max_coord.row >= max_query.row {
                old(self).max_coord.row
            } else {
                max_query.row
            },
            final (self).max_coord.col == if old(self).max_coord.col >= max_query.col {
                old(self).max_coord.col
            } else {
                max_query.col
            },
            final (self).min_coord == old(self).min_coord,
    {
        let row = if self.max_coord.row >= max_query.row {
            self.max_coord.row
        } else {
            max_query.row
        };
        let col = if self.max_coord.col >= max_query.col {
            self.max_coord.col
        } else {
            max_query.col
        };
        self.max_coord = MemIndex2D::new(row, col);
    }

    /// Grow the rectangle so that it covers `new_coord`: the minimum corner
    /// drops to it and the maximum corner rises to it, axis by axis.
    pub fn try_expand(&mut self, new_coord: MemIndex2D)
        ensures
            final (self).min_coord.row == if old(self).min_coord.row <= new_coord.row {
                old(self).min_coord.row
            } else {
                new_coord.row
            },
            final (self).min_coord.col == if old(self).min_coord.col <= new_coord.col {
                old(self).min_coord.col
            } else {
                new_coord.col
            },
            final (self).max_coord.row == if old(self).max_coord.row >= new_coord.row {
                old(self).max_coord.row
            } else {
                new_coord.row
            },
            final (self).max_coord.col == if old(self).max_coord.col >= new_coord.col {
                old(self).max_coord.col
            } else {
                new_coord.col
            },
    {
        self.update_min(new_coord);
        self.update_max(new_coord);
    }

    /// Like [`MemExtents2D::try_expand`], but a no-op unless `new_coord`
    /// already lies inside the rectangle under the column-first order.
    pub fn try_shrink(&mut self, new_coord: MemIndex2D)
        ensures
            !(col_first_le(old(self).min_coord, new_coord) && col_first_le(
                new_coord,
                old(self).max_coord,
            )) ==> *final (self) == *old(self),
            (col_first_le(old(self).min_coord, new_coord) && col_first_le(
                new_coord,
                old(self).max_coord,
            )) ==> {
                &&& final (self).min_coord.row == if old(self).min_coord.row <= new_coord.row {
                    old(self).min_coord.row
                } else {
                    new_coord.row
                }
                &&& final (self).min_coord.col == if old(self).min_coord.col <= new_coord.col {
                    old(self).min_coord.col
                } else {
                    new_coord.col
                }
                &&& final (self).max_coord.row == if old(self).max_coord.row >= new_coord.row {
                    old(self).max_coord.row
                } else {
                    new_coord.row
                }
                &&& final (self).max_coord.col == if old(self).max_coord.col >= new_coord.col {
                    old(self).max_coord.col
                } else {
                    new_coord.col
                }
            },
    {
        if !self.contains_inclusive(new_coord) {
            return ;
        }
        self.update_min(new_coord);
        self.update_max(new_coord);
    }

    /// Containment under the column-first order, with the maximum corner
    /// excluded.
    pub fn contains_exclusive(&self, index: MemIndex2D) -> (r: bool)
        ensures
            r == (col_first_le(self.min_coord, index) && col_first_lt(index, self.max_coord)),
    {
        let ge_min = self.min_coord.col < index.col || (self.min_coord.col == index.col
            && self.min_coord.row <= index.row);
        let lt_max = index.col < self.max_coord.col || (index.col == self.max_coord.col
            && index.row < self.max_coord.row);
        ge_min && lt_max
    }

    /// Containment under the column-first order, with the maximum corner
    /// included.
    pub fn contains_inclusive(&self, index: MemIndex2D) -> (r: bool)
        ensures
            r == (col_first_le(self.min_coord, index) && col_first_le(index, self.max_coord)),
    {
        let ge_min = self.min_coord.col < index.col || (self.min_coord.col == index.col
            && self.min_coord.row <= index.row);
        let le_max = index.col < self.max_coord.col || (index.col == self.max_coord.col
            && index.row <= self.max_coord.row);
        ge_min && le_max
    }

    /// Whether the rectangles are separated on some axis: when they are
    /// not, they intersect as inclusive rectangles.
    pub open spec fn spec_disjoint(a: MemExtents2D, b: MemExtents2D) -> bool {
        a.min_coord.col > b.max_coord.col || b.min_coord.col > a.max_coord.col
            || a.min_coord.row > b.max_coord.row || b.min_coord.row > a.max_coord.row
    }

    pub fn intersects(&self, other: MemExtents2D) -> (r: bool)
        ensures
            r == !Self::spec_disjoint(*self, other),
    {
        match self.intersect(other) {
            Some(_) => true,
            None => false,
        }
    }

    /// The common inclusive rectangle: corner-wise maxima of the minimum
    /// corners and minima of the maximum corners; `None` when the
    /// rectangles are separated on either axis.
    pub fn intersect(&self, other: MemExtents2D) -> (r: Option<Self>)
        ensures
            match r {
                Some(e) => {
                    &&& !Self::spec_disjoint(*self, other)
                    &&& e.min_coord.row == if self.min_coord.row >= other.min_coord.row {
                        self.min_coord.row
                    } else {
                        other.min_coord.row
                    }
                    &&& e.min_coord.col == if self.min_coord.col >= other.min_coord.col {
                        self.min_coord.col
                    } else {
                        other.min_coord.col
                    }
                    &&& e.max_coord.row == if self.max_coord.row <= other.max_coord.row {
                        self.max_coord.row
                    } else {
                        other.max_coord.row
                    }
                    &&& e.max_coord.col == if self.max_coord.col <= other.max_coord.col {
                        self.max_coord.col
                    } else {
                        other.max_coord.col
                    }
                },
                None => Self::spec_disjoint(*self, other),
            },
    {
        if self.min_coord.col > other.max_coord.col || other.min_coord.col > self.max_coord.col {
            return None;
        }
        if self.min_coord.row > other.max_coord.row || other.min_coord.row > self.max_coord.row {
            return None;
        }
        let min_col = if self.min_coord.col >= other.min_coord.col {
            self.min_coord.col
        } else {
            other.min_coord.col
        };
        let min_row = if self.min_coord.row >= other.min_coord.row {
            self.min_coord.row
        } else {
            other.min_coord.row
        };
        let max_col = if self.max_coord.col <= other.max_coord.col {
            self.max_coord.col
        } else {
            other.max_coord.col
        };
        let max_row = if self.max_coord.row <= other.max_coord.row {
            self.max_coord.row
        } else {
            other.max_coord.row
        };
        Some(
            MemExtents2D {
                min_coord: MemIndex2D::new(min_row, min_col),
                max_coord: MemIndex2D::new(max_row, max_col),
            },
        )
    }

    /// The linear index of a coordinate within the rectangle, row-major
    /// against the rectangle's own width; `None` when the coordinate lies
    /// outside it under the column-first order.
    pub fn range_coordinate_to_index(&self, coordinate: MemIndex2D) -> (r: Option<usize>)
        requires
            self.wf(),
            (col_first_le(self.min_coord, coordinate) && col_first_lt(coordinate, self.max_coord))
                ==> coordinate.row >= self.min_coord.row && coordinate.col >= self.min_coord.col && (
            coordinate.row - self.min_coord.row) * self.spec_width() + (coordinate.col
                - self.min_coord.col) <= usize::MAX,
        ensures
            match r {
                Some(i) => {
                    &&& col_first_le(self.min_coord, coordinate)
                    &&& col_first_lt(coordinate, self.max_coord)
                    &&& i == (coordinate.row - self.min_coord.row) * self.spec_width() + (
                    coordinate.col - self.min_coord.col)
                },
                None => !(col_first_le(self.min_coord, coordinate) && col_first_lt(
                    coordinate,
                    self.max_coord,
                )),
            },
    {
        if !self.contains_exclusive(coordinate) {
            return None;
        }
        Some((coordinate.row - self.min_coord.row) * self.width() + (coordinate.col
            - self.min_coord.col))
    }

    /// A coordinate rebased to the rectangle's minimum corner; `None` when
    /// it lies outside the rectangle under the column-first order or either
    /// rebased component would be negative.
    pub fn coordinate2d_to_index2d_in_extents(&self, index2d: MemIndex2D) -> (r: Option<
        MemIndex2D,
    >)
        ensures
            match r {
                Some(i) => {
                    &&& col_first_le(self.min_coord, index2d)
                    &&& col_first_le(index2d, self.max_coord)
                    &&& i.row == index2d.row - self.min_coord.row
                    &&& i.col == index2d.col - self.min_coord.col
                },
                None => !(col_first_le(self.min_coord, index2d) && col_first_le(
                    index2d,
                    self.max_coord,
                )) || index2d.row < self.min_coord.row || index2d.col < self.min_coord.col,
            },
    {
        if !self.contains_inclusive(index2d) {
            return None;
        }
        match MemVect2D::from_index2d(index2d).checked_sub(MemVect2D::from_index2d(
            self.min_coord,
        )) {
            Some(v) => Some(MemIndex2D::new(v.row, v.col)),
            None => None,
        }
    }
}

} // verus!
