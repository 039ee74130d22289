//! Fixed row/column extents and row-major linear index conversion.

use vstd::prelude::*;
use crate::index2d::MemIndex2D;
use crate::span::MemSpan;
use crate::span2d::MemSpan2D;

verus! {

/// The extents of a dense two-dimensional space: `row_count` rows by
/// `column_count` columns, with no offset.
#[derive(Clone, Copy, Debug, PartialEq, Eq, Structural, Hash)]
pub struct Size2D {
    pub row_count: usize,
    pub column_count: usize,
}

impl Size2D {
    /// The number of cells, `row_count * column_count`, fits the
    /// addressing width.
    pub open spec fn wf(self) -> bool {
        self.row_count * self.column_count <= usize::MAX
    }

    pub open spec fn spec_area(self) -> int {
        self.row_count * self.column_count
    }

    /// The linear index of a coordinate, row-major.
    pub open spec fn spec_index2d_to_index(self, index2d: MemIndex2D) -> int {
        index2d.row * self.column_count + index2d.col
    }

    /// The coordinate of a linear index, row-major.
    pub open spec fn spec_index_to_index2d(self, index: int) -> MemIndex2D {
        MemIndex2D {
            row: (index / self.column_count as int) as usize,
            col: (index % self.column_count as int) as usize,
        }
    }

    pub open spec fn spec_in_bounds(self, index2d: MemIndex2D) -> bool {
        index2d.row < self.row_count && index2d.col < self.column_count
    }

    pub fn new(row_count: usize, column_count: usize) -> (r: Self)
        ensures
            r.row_count == row_count,
            r.column_count == column_count,
    {
        Size2D { row_count, column_count }
    }

    pub fn row_count(&self) -> (r: usize)
        ensures
            r == self.row_count,
    {
        self.row_count
    }

    pub fn column_count(&self) -> (r: usize)
        ensures
            r == self.column_count,
    {
        self.column_count
    }

    pub fn area(&self) -> (r: usize)
        requires
            self.wf(),
        ensures
            r == self.spec_area(),
    {
        self.row_count * self.column_count
    }

    pub fn len(&self) -> (r: usize)
        requires
            self.wf(),
        ensures
            r == self.spec_area(),
    {
        self.area()
    }

    /// The greatest valid linear index; the space must hold at least one
    /// cell.
    pub fn max_index(&self) -> (r: usize)
        requires
            self.wf(),
            self.spec_area() > 0,
        ensures
            r == self.spec_area() - 1,
    {
        self.area() - 1
    }

    /// The greatest valid row, or `None` for a space with no rows.
    pub fn max_row(&self) -> (r: Option<usize>)
        ensures
            match r {
                Some(m) => self.row_count > 0 && m == self.row_count - 1,
                None => self.row_count == 0,
            },
    {
        self.row_count.checked_sub(1)
    }

    /// The greatest valid column, or `None` for a space with no columns.
    pub fn max_col(&self) -> (r: Option<usize>)
        ensures
            match r {
                Some(m) => self.column_count > 0 && m == self.column_count - 1,
                None => self.column_count == 0,
            },
    {
        self.column_count.checked_sub(1)
    }

    /// The greatest valid coordinate, or `None` when either axis is empty.
    pub fn max_index2d(&self) -> (r: Option<MemIndex2D>)
        ensures
            match r {
                Some(m) => {
                    &&& self.row_count > 0
                    &&& self.column_count > 0
                    &&& m.row == self.row_count - 1
                    &&& m.col == self.column_count - 1
                },
                None => self.row_count == 0 || self.column_count == 0,
            },
    {
        let max_row = match self.max_row() {
            Some(v) => v,
            None => {
                return None;
            },
        };
        let max_col = match self.max_col() {
            Some(v) => v,
            None => {
                return None;
            },
        };
        Some(MemIndex2D::new(max_row, max_col))
    }

    /// Row-major linear index of a coordinate; `None` when the coordinate
    /// lies outside the extents.
    pub fn index2d_to_index(&self, index2d: MemIndex2D) -> (r: Option<usize>)
        requires
            self.wf(),
        ensures
            match r {
                Some(i) => self.spec_in_bounds(index2d) && i == self.spec_index2d_to_index(
                    index2d,
                ),
                None => !self.spec_in_bounds(index2d),
            },
    {
        if index2d.row >= self.row_count() || index2d.col >= self.column_count() {
            return None;
        }
        proof {
            Self::lemma_row_major_index_in_area(*self, index2d);
        }
        Some(Size2D::index2d_to_index_unchecked(self.column_count, index2d))
    }

    /// Row-major linear index against an explicit stride, without a bounds
    /// check; the caller owes that the product does not overflow.
    pub fn index2d_to_index_unchecked(column_count: usize, index2d: MemIndex2D) -> (r: usize)
        requires
            index2d.row * column_count + index2d.col <= usize::MAX,
        ensures
            r == index2d.row * column_count + index2d.col,
    {
        index2d.row * column_count + index2d.col
    }

    pub fn row_column_to_index(&self, row: usize, column: usize) -> (r: Option<usize>)
        requires
            self.wf(),
        ensures
            match r {
                Some(i) => {
                    &&& row < self.row_count
                    &&& column < self.column_count
                    &&& i == row * self.column_count + column
                },
                None => row >= self.row_count || column >= self.column_count,
            },
    {
        self.index2d_to_index(MemIndex2D::new(row, column))
    }

    /// The coordinate of a linear index; `None` when the index lies at or
    /// beyond the area. The space must hold at least one cell.
    pub fn index_to_index2d(&self, index: usize) -> (r: Option<MemIndex2D>)
        requires
            self.wf(),
            self.spec_area() > 0,
        ensures
            match r {
                Some(c) => {
                    &&& index < self.spec_area()
                    &&& c == self.spec_index_to_index2d(index as int)
                    &&& self.spec_in_bounds(c)
                },
                None => index >= self.spec_area(),
            },
    {
        if index > self.max_index() {
            return None;
        }
        proof {
            Self::lemma_index_to_index2d_in_bounds(*self, index as int);
        }
        Some(MemIndex2D::new(index / self.column_count(), index % self.column_count()))
    }

    pub fn index2d_in_bounds(&self, index2d: &MemIndex2D) -> (r: bool)
        ensures
            r == self.spec_in_bounds(*index2d),
    {
        index2d.row < self.row_count() && index2d.col < self.column_count()
    }

    pub fn index2d_in_bounds_exclusive(&self, index2d: &MemIndex2D) -> (r: bool)
        ensures
            r == (index2d.row <= self.row_count && index2d.col <= self.column_count),
    {
        index2d.row <= self.row_count() && index2d.col <= self.column_count()
    }

    /// Whether the whole rectangle lies inside these extents.
    pub fn contains_span2d(&self, span2d: &MemSpan2D) -> (r: bool)
        requires
            span2d.row_span.wf(),
            span2d.col_span.wf(),
        ensures
            r == (span2d.row_span.spec_upper() <= self.row_count
                && span2d.col_span.spec_upper() <= self.column_count),
    {
        span2d.row_span.upper_bound() <= self.row_count() && span2d.col_span.upper_bound()
            <= self.column_count()
    }

    /// These extents as a rectangle anchored at the origin.
    pub fn to_span2d(&self) -> (r: MemSpan2D)
        ensures
            r.row_span == (MemSpan { min: 0, count: self.row_count }),
            r.col_span == (MemSpan { min: 0, count: self.column_count }),
    {
        MemSpan2D::new_row_columns(self.row_count, self.column_count)
    }

    /// A coordinate inside the extents has a linear index inside the area.
    pub proof fn lemma_row_major_index_in_area(size: Size2D, index2d: MemIndex2D)
        requires
            size.spec_in_bounds(index2d),
        ensures
            0 <= size.spec_index2d_to_index(index2d) < size.spec_area(),
    {
        assert(index2d.row * size.column_count + index2d.col < size.row_count
            * size.column_count) by (nonlinear_arith)
            requires
                index2d.row < size.row_count,
                index2d.col < size.column_count,
        ;
    }

    /// A linear index inside the area decomposes to a coordinate inside the
    /// extents.
    pub proof fn lemma_index_to_index2d_in_bounds(size: Size2D, index: int)
        requires
            0 <= index < size.spec_area(),
        ensures
            size.spec_in_bounds(size.spec_index_to_index2d(index)),
    {
        let c = size.column_count as int;
        assert(c > 0) by {
            if size.column_count == 0 {
                assert(size.row_count * size.column_count == 0) by (nonlinear_arith)
                    requires
                        size.column_count == 0,
                ;
            }
        }
        assert(0 <= index % c < c) by {
            vstd::arithmetic::div_mod::lemma_mod_bound(index, c);
        }
        assert(index / c < size.row_count) by (nonlinear_arith)
            requires
                0 <= index < size.row_count * c,
                c > 0,
        ;
        assert(index / c >= 0) by {
            vstd::arithmetic::div_mod::lemma_div_pos_is_pos(index, c);
        }
    }

    /// Round trip: converting a coordinate inside the extents to its linear
    /// index and back yields the same coordinate.
    pub proof fn lemma_index_round_trip(size: Size2D, index2d: MemIndex2D)
        requires
            size.spec_in_bounds(index2d),
        ensures
            size.spec_index_to_index2d(size.spec_index2d_to_index(index2d)) == index2d,
    {
        let c = size.column_count as int;
        let i = index2d.row * c + index2d.col;
        assert((index2d.row * c + index2d.col) / c == index2d.row && (index2d.row * c
            + index2d.col) % c == index2d.col) by (nonlinear_arith)
            requires
                0 <= index2d.col < c,
                index2d.row >= 0,
        ;
    }
}

} // verus!
