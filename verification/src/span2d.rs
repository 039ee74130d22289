//! Half-open rectangles: a row span paired with a column span.

use vstd::prelude::*;
use crate::index2d::MemIndex2D;
use crate::size2d::Size2D;
use crate::span::MemSpan;

verus! {

/// A rectangle of cell space: the cells whose row lies in `row_span` and
/// whose column lies in `col_span`.
#[derive(Clone, Copy, Debug, PartialEq, Eq, Structural)]
pub struct MemSpan2D {
    pub row_span: MemSpan,
    pub col_span: MemSpan,
}

/// An index expressed relative to a rectangle's own origin.
#[derive(Clone, Copy, Debug, PartialEq, Eq, Structural)]
pub struct MemSpanIndex2D(pub MemIndex2D);

impl MemSpanIndex2D {
    pub fn new(row: usize, col: usize) -> (r: Self)
        ensures
            r.0.row == row,
            r.0.col == col,
    {
        MemSpanIndex2D(MemIndex2D::new(row, col))
    }
}

impl MemSpan2D {
    /// Both axis spans stay within the addressing width.
    pub open spec fn wf(self) -> bool {
        self.row_span.wf() && self.col_span.wf()
    }

    /// The rectangle covers at least one cell.
    pub open spec fn spec_has_area(self) -> bool {
        self.row_span.count > 0 && self.col_span.count > 0
    }

    pub open spec fn spec_area(self) -> int {
        self.row_span.count * self.col_span.count
    }

    /// Axis-wise intersection: present only when both axis intersections
    /// are present.
    pub open spec fn spec_intersect(a: MemSpan2D, b: MemSpan2D) -> Option<MemSpan2D> {
        match (
            MemSpan::spec_intersect(a.row_span, b.row_span),
            MemSpan::spec_intersect(a.col_span, b.col_span),
        ) {
            (Some(r), Some(c)) => Some(MemSpan2D { row_span: r, col_span: c }),
            _ => None,
        }
    }

    /// Whether two rectangles share at least one cell.
    pub open spec fn spec_overlaps(a: MemSpan2D, b: MemSpan2D) -> bool {
        match Self::spec_intersect(a, b) {
            Some(s) => s.spec_has_area(),
            None => false,
        }
    }

    pub fn row_count(&self) -> (r: usize)
        ensures
            r == self.row_span.count,
    {
        self.row_span.len()
    }

    pub fn column_count(&self) -> (r: usize)
        ensures
            r == self.col_span.count,
    {
        self.col_span.len()
    }

    pub fn size(&self) -> (r: Size2D)
        ensures
            r.row_count == self.row_span.count,
            r.column_count == self.col_span.count,
    {
        Size2D::new(self.row_count(), self.column_count())
    }

    pub fn row_lower_bound(&self) -> (r: usize)
        ensures
            r == self.row_span.min,
    {
        self.row_span.min
    }

    pub fn row_upper_bound(&self) -> (r: usize)
        requires
            self.row_span.wf(),
        ensures
            r == self.row_span.spec_upper(),
    {
        self.row_span.upper_bound()
    }

    pub fn column_lower_bound(&self) -> (r: usize)
        ensures
            r == self.col_span.min,
    {
        self.col_span.min
    }

    pub fn column_upper_bound(&self) -> (r: usize)
        requires
            self.col_span.wf(),
        ensures
            r == self.col_span.spec_upper(),
    {
        self.col_span.upper_bound()
    }

    /// The rectangle covers at least one cell on each axis.
    pub fn valid(&self) -> (r: bool)
        ensures
            r == self.spec_has_area(),
    {
        self.row_span.count > 0 && self.col_span.count > 0
    }

    pub fn min_column(&self) -> (r: usize)
        ensures
            r == self.col_span.min,
    {
        self.col_span.min
    }

    pub fn max_column(&self) -> (r: Option<usize>)
        requires
            self.col_span.wf(),
        ensures
            match r {
                Some(m) => self.col_span.count > 0 && m == self.col_span.spec_max(),
                None => self.col_span.count == 0,
            },
    {
        self.col_span.max()
    }

    pub fn max_span_column(&self) -> (r: usize)
        ensures
            r == self.col_span.count,
    {
        self.col_span.len()
    }

    pub fn min_row(&self) -> (r: usize)
        ensures
            r == self.row_span.min,
    {
        self.row_span.min
    }

    /// Whether `row` lies in the half-open row interval of this rectangle.
    pub fn contains_row(&self, row: usize) -> (r: bool)
        ensures
            r == (self.row_span.min <= row && row < self.row_span.spec_upper()),
    {
        self.row_span.contains(row)
    }

    pub fn max_row(&self) -> (r: Option<usize>)
        requires
            self.row_span.wf(),
        ensures
            match r {
                Some(m) => self.row_span.count > 0 && m == self.row_span.spec_max(),
                None => self.row_span.count == 0,
            },
    {
        self.row_span.max()
    }

    /// Translate an index relative to this rectangle to the absolute cell
    /// space; `None` when either component overflows.
    pub fn relative_index2d_to_absolute_index2d(&self, index: MemSpanIndex2D) -> (r: Option<
        MemIndex2D,
    >)
        ensures
            match r {
                Some(a) => {
                    &&& a.row == index.0.row + self.row_span.min
                    &&& a.col == index.0.col + self.col_span.min
                },
                None => index.0.row + self.row_span.min > usize::MAX || index.0.col
                    + self.col_span.min > usize::MAX,
            },
    {
        let row = match index.0.row.checked_add(self.row_span.min) {
            Some(v) => v,
            None => {
                return None;
            },
        };
        let col = match index.0.col.checked_add(self.col_span.min) {
            Some(v) => v,
            None => {
                return None;
            },
        };
        Some(MemIndex2D::new(row, col))
    }

    /// The relative index of the first column of a row, guarded against the
    /// row span's greatest index.
    pub fn min_relative_index_for_row(&self, row: usize) -> (r: Option<MemSpanIndex2D>)
        requires
            self.row_span.wf(),
        ensures
            match r {
                Some(i) => {
                    &&& self.row_span.count > 0
                    &&& row <= self.row_span.spec_max()
                    &&& i.0.row == row
                    &&& i.0.col == 0
                },
                None => self.row_span.count == 0 || row > self.row_span.spec_max(),
            },
    {
        let max = match self.row_span.max_value() {
            Some(m) => m,
            None => {
                return None;
            },
        };
        if row > max {
            return None;
        }
        Some(MemSpanIndex2D::new(row, 0))
    }

    /// The absolute index of the first column of an absolute row inside the
    /// rectangle.
    pub fn min_absolute_index_for_row(&self, row: usize) -> (r: Option<MemIndex2D>)
        requires
            self.row_span.wf(),
        ensures
            match r {
                Some(i) => {
                    &&& self.row_span.count > 0
                    &&& self.row_span.min <= row <= self.row_span.spec_max()
                    &&& i.row == row
                    &&& i.col == self.col_span.min
                },
                None => self.row_span.count == 0 || row < self.row_span.min || row
                    > self.row_span.spec_max(),
            },
    {
        if row < self.min_row() {
            return None;
        }
        let max = match self.max_row() {
            Some(m) => m,
            None => {
                return None;
            },
        };
        if row > max {
            return None;
        }
        let min_col = self.min_column();
        Some(MemIndex2D::new(row, min_col))
    }

    /// The relative index of the last column for a row; absent when the
    /// rectangle has fewer than two columns.
    pub fn max_relative_index_for_row(&self, row: usize) -> (r: Option<MemSpanIndex2D>)
        ensures
            match r {
                Some(i) => {
                    &&& self.col_span.count > 1
                    &&& i.0.row == row
                    &&& i.0.col == self.col_span.count - 1
                },
                None => self.col_span.count <= 1,
            },
    {
        let max_col = match self.size().max_col() {
            Some(m) => m,
            None => {
                return None;
            },
        };
        if max_col == 0 {
            return None;
        }
        Some(MemSpanIndex2D::new(row, max_col))
    }

    /// The absolute index of the last column of an absolute row inside the
    /// rectangle.
    pub fn max_absolute_index_for_row(&self, row: usize) -> (r: Option<MemIndex2D>)
        requires
            self.row_span.wf(),
            self.col_span.wf(),
        ensures
            match r {
                Some(i) => {
                    &&& self.row_span.count > 0
                    &&& self.col_span.count > 0
                    &&& self.row_span.min <= row <= self.row_span.spec_max()
                    &&& i.row == row
                    &&& i.col == self.col_span.spec_max()
                },
                None => self.row_span.count == 0 || self.col_span.count == 0 || row
                    < self.row_span.min || row > self.row_span.spec_max(),
            },
    {
        if row < self.min_row() {
            return None;
        }
        let max = match self.max_row() {
            Some(m) => m,
            None => {
                return None;
            },
        };
        if row > max {
            return None;
        }
        let max_col = match self.max_column() {
            Some(m) => m,
            None => {
                return None;
            },
        };
        Some(MemIndex2D::new(row, max_col))
    }

    /// The relative origin of any rectangle.
    pub fn min_relative_index2d(&self) -> (r: MemSpanIndex2D)
        ensures
            r.0.row == 0,
            r.0.col == 0,
    {
        MemSpanIndex2D(MemIndex2D::origin())
    }

    /// The greatest relative index; absent when the rectangle is empty on
    /// either axis.
    pub fn max_relative_index2d(&self) -> (r: Option<MemSpanIndex2D>)
        ensures
            match r {
                Some(i) => {
                    &&& self.spec_has_area()
                    &&& i.0.row == self.row_span.count - 1
                    &&& i.0.col == self.col_span.count - 1
                },
                None => !self.spec_has_area(),
            },
    {
        match self.size().max_index2d() {
            Some(max_index2d) => Some(MemSpanIndex2D(max_index2d)),
            None => None,
        }
    }

    /// The minimum corner in absolute cell space.
    pub fn min_absolute_index2d(&self) -> (r: MemIndex2D)
        ensures
            r.row == self.row_span.min,
            r.col == self.col_span.min,
    {
        let min_row = self.min_row();
        let min_col = self.min_column();
        MemIndex2D::new(min_row, min_col)
    }

    /// The maximum (inclusive) corner in absolute cell space; absent when
    /// the rectangle is empty on either axis.
    pub fn max_absolute_index2d(&self) -> (r: Option<MemIndex2D>)
        requires
            self.wf(),
        ensures
            match r {
                Some(i) => {
                    &&& self.spec_has_area()
                    &&& i.row == self.row_span.spec_max()
                    &&& i.col == self.col_span.spec_max()
                },
                None => !self.spec_has_area(),
            },
    {
        let max_row = match self.max_row() {
            Some(m) => m,
            None => {
                return None;
            },
        };
        let max_col = match self.max_column() {
            Some(m) => m,
            None => {
                return None;
            },
        };
        Some(MemIndex2D::new(max_row, max_col))
    }

    /// Whether two corner coordinates are ordered, comparing rows first and
    /// columns to break ties.
    pub fn validate_coordinates(min_coord: MemIndex2D, max_coord: MemIndex2D) -> (r: bool)
        ensures
            r == (min_coord.row < max_coord.row || (min_coord.row == max_coord.row
                && min_coord.col <= max_coord.col)),
    {
        min_coord.row < max_coord.row || (min_coord.row == max_coord.row && min_coord.col
            <= max_coord.col)
    }

    /// The rectangle `[0, rows) x [0, columns)`.
    pub fn new_row_columns(rows: usize, columns: usize) -> (r: Self)
        ensures
            r.row_span == (MemSpan { min: 0, count: rows }),
            r.col_span == (MemSpan { min: 0, count: columns }),
            r.wf(),
    {
        MemSpan2D {
            row_span: MemSpan::new_range(0..rows),
            col_span: MemSpan::new_range(0..columns),
        }
    }

    /// The rectangle between a minimum corner and an exclusive upper-bound
    /// corner; an inverted axis gives an empty span on that axis.
    pub fn new_from_index2d(min_index2d: MemIndex2D, upper_bound_index2d: MemIndex2D) -> (r: Self)
        ensures
            r.row_span.min == min_index2d.row,
            r.row_span.count == if upper_bound_index2d.row >= min_index2d.row {
                upper_bound_index2d.row - min_index2d.row
            } else {
                0
            },
            r.col_span.min == min_index2d.col,
            r.col_span.count == if upper_bound_index2d.col >= min_index2d.col {
                upper_bound_index2d.col - min_index2d.col
            } else {
                0
            },
            r.wf(),
    {
        MemSpan2D {
            row_span: MemSpan::new_range(min_index2d.row..upper_bound_index2d.row),
            col_span: MemSpan::new_range(min_index2d.col..upper_bound_index2d.col),
        }
    }

    /// The number of cells covered.
    pub fn area(&self) -> (r: usize)
        requires
            self.spec_area() <= usize::MAX,
        ensures
            r == self.spec_area(),
    {
        self.row_count() * self.column_count()
    }

    /// The rectangle `[row_lower, row_upper) x [column_lower, column_upper)`.
    pub fn new_from_usize(
        row_lower_bound: usize,
        column_lower_bound: usize,
        row_upper_bound: usize,
        column_upper_bound: usize,
    ) -> (r: Self)
        ensures
            r.row_span.min == row_lower_bound,
            r.row_span.count == if row_upper_bound >= row_lower_bound {
                row_upper_bound - row_lower_bound
            } else {
                0
            },
            r.col_span.min == column_lower_bound,
            r.col_span.count == if column_upper_bound >= column_lower_bound {
                column_upper_bound - column_lower_bound
            } else {
                0
            },
            r.wf(),
    {
        MemSpan2D {
            row_span: MemSpan::new_range(row_lower_bound..row_upper_bound),
            col_span: MemSpan::new_range(column_lower_bound..column_upper_bound),
        }
    }

    /// Move the whole rectangle along the row axis.
    pub fn shift_rows(&self, shift: isize) -> (r: Option<Self>)
        requires
            shift > isize::MIN,
        ensures
            r == match self.row_span.spec_shift_checked(shift as int) {
                Some(s) => Some(MemSpan2D { row_span: s, col_span: self.col_span }),
                None => None::<MemSpan2D>,
            },
    {
        let row_span = match self.row_span.shift_checked(shift) {
            Some(s) => s,
            None => {
                return None;
            },
        };
        Some(MemSpan2D { row_span, col_span: self.col_span })
    }

    /// Move the whole rectangle along the column axis.
    pub fn shift_columns(&self, shift: isize) -> (r: Option<Self>)
        requires
            shift > isize::MIN,
        ensures
            r == match self.col_span.spec_shift_checked(shift as int) {
                Some(s) => Some(MemSpan2D { row_span: self.row_span, col_span: s }),
                None => None::<MemSpan2D>,
            },
    {
        let col_span = match self.col_span.shift_checked(shift) {
            Some(s) => s,
            None => {
                return None;
            },
        };
        Some(MemSpan2D { row_span: self.row_span, col_span })
    }

    /// Move the whole rectangle by a two-dimensional offset; fails when
    /// either axis shift fails.
    pub fn shift(&self, shift: crate::index2d::MemOffset2D) -> (r: Option<Self>)
        requires
            shift.row > isize::MIN,
            shift.col > isize::MIN,
        ensures
            r == match (
                self.row_span.spec_shift_checked(shift.row as int),
                self.col_span.spec_shift_checked(shift.col as int),
            ) {
                (Some(rs), Some(cs)) => Some(MemSpan2D { row_span: rs, col_span: cs }),
                _ => None::<MemSpan2D>,
            },
    {
        let row_span = match self.row_span.shift_checked(shift.row) {
            Some(s) => s,
            None => {
                return None;
            },
        };
        let col_span = match self.col_span.shift_checked(shift.col) {
            Some(s) => s,
            None => {
                return None;
            },
        };
        Some(MemSpan2D { row_span, col_span })
    }

    /// Move only the row upper bound.
    pub fn shift_max_rows(&self, shift: isize) -> (r: Option<Self>)
        requires
            shift > isize::MIN,
        ensures
            r == match self.row_span.spec_shift_max_checked(shift as int) {
                Some(s) => Some(MemSpan2D { row_span: s, col_span: self.col_span }),
                None => None::<MemSpan2D>,
            },
    {
        let row_span = match self.row_span.shift_max_checked(shift) {
            Some(s) => s,
            None => {
                return None;
            },
        };
        Some(MemSpan2D { row_span, col_span: self.col_span })
    }

    /// Move only the column upper bound.
    pub fn shift_max_columns(&self, shift: isize) -> (r: Option<Self>)
        requires
            shift > isize::MIN,
        ensures
            r == match self.col_span.spec_shift_max_checked(shift as int) {
                Some(s) => Some(MemSpan2D { row_span: self.row_span, col_span: s }),
                None => None::<MemSpan2D>,
            },
    {
        let col_span = match self.col_span.shift_max_checked(shift) {
            Some(s) => s,
            None => {
                return None;
            },
        };
        Some(MemSpan2D { row_span: self.row_span, col_span })
    }

    /// Move both upper bounds by a two-dimensional offset.
    pub fn shift_max(&self, shift: crate::index2d::MemOffset2D) -> (r: Option<Self>)
        requires
            shift.row > isize::MIN,
            shift.col > isize::MIN,
        ensures
            r == match (
                self.row_span.spec_shift_max_checked(shift.row as int),
                self.col_span.spec_shift_max_checked(shift.col as int),
            ) {
                (Some(rs), Some(cs)) => Some(MemSpan2D { row_span: rs, col_span: cs }),
                _ => None::<MemSpan2D>,
            },
    {
        let row_span = match self.row_span.shift_max_checked(shift.row) {
            Some(s) => s,
            None => {
                return None;
            },
        };
        let col_span = match self.col_span.shift_max_checked(shift.col) {
            Some(s) => s,
            None => {
                return None;
            },
        };
        Some(MemSpan2D { row_span, col_span })
    }

    /// Move only the row lower bound, keeping the upper bound in place.
    pub fn shift_min_rows(&self, shift: isize) -> (r: Option<Self>)
        requires
            shift > isize::MIN,
        ensures
            r == match self.row_span.spec_shift_min_checked(shift as int) {
                Some(s) => Some(MemSpan2D { row_span: s, col_span: self.col_span }),
                None => None::<MemSpan2D>,
            },
    {
        let row_span = match self.row_span.shift_min_checked(shift) {
            Some(s) => s,
            None => {
                return None;
            },
        };
        Some(MemSpan2D { row_span, col_span: self.col_span })
    }

    /// Move only the column lower bound, keeping the upper bound in place.
    pub fn shift_min_columns(&self, shift: isize) -> (r: Option<Self>)
        requires
            shift > isize::MIN,
        ensures
            r == match self.col_span.spec_shift_min_checked(shift as int) {
                Some(s) => Some(MemSpan2D { row_span: self.row_span, col_span: s }),
                None => None::<MemSpan2D>,
            },
    {
        let col_span = match self.col_span.shift_min_checked(shift) {
            Some(s) => s,
            None => {
                return None;
            },
        };
        Some(MemSpan2D { row_span: self.row_span, col_span })
    }

    /// Move both lower bounds by a two-dimensional offset.
    pub fn shift_min(&self, shift: crate::index2d::MemOffset2D) -> (r: Option<Self>)
        requires
            shift.row > isize::MIN,
            shift.col > isize::MIN,
        ensures
            r == match (
                self.row_span.spec_shift_min_checked(shift.row as int),
                self.col_span.spec_shift_min_checked(shift.col as int),
            ) {
                (Some(rs), Some(cs)) => Some(MemSpan2D { row_span: rs, col_span: cs }),
                _ => None::<MemSpan2D>,
            },
    {
        let row_span = match self.row_span.shift_min_checked(shift.row) {
            Some(s) => s,
            None => {
                return None;
            },
        };
        let col_span = match self.col_span.shift_min_checked(shift.col) {
            Some(s) => s,
            None => {
                return None;
            },
        };
        Some(MemSpan2D { row_span, col_span })
    }

    /// Whether an index lies in the rectangle: half-open membership on
    /// both axes.
    pub fn contains(&self, index2d: &MemSpanIndex2D) -> (r: bool)
        ensures
            r == (self.row_span.min <= index2d.0.row < self.row_span.spec_upper()
                && self.col_span.min <= index2d.0.col < self.col_span.spec_upper()),
    {
        self.row_span.contains(index2d.0.row) && self.col_span.contains(index2d.0.col)
    }

    /// Axis-wise intersection, per [`MemSpan2D::spec_intersect`].
    pub fn intersect(&self, other: &MemSpan2D) -> (r: Option<MemSpan2D>)
        requires
            self.wf(),
            other.wf(),
        ensures
            r == Self::spec_intersect(*self, *other),
    {
        let row_span = match self.row_span.intersect(&other.row_span) {
            Some(s) => s,
            None => {
                return None;
            },
        };
        let col_span = match self.col_span.intersect(&other.col_span) {
            Some(s) => s,
            None => {
                return None;
            },
        };
        Some(MemSpan2D { row_span, col_span })
    }

    /// True exactly when the rectangles share at least one cell: an
    /// intersection that is empty on either axis is no overlap.
    pub fn overlaps(&self, other: &MemSpan2D) -> (r: bool)
        requires
            self.wf(),
            other.wf(),
        ensures
            r == Self::spec_overlaps(*self, *other),
    {
        match self.intersect(other) {
            Some(s) => s.valid(),
            None => false,
        }
    }

    /// Whether a batch of rectangles is unfit for simultaneous exclusive
    /// views: some rectangle has no area, or some pair shares a cell.
    pub open spec fn spans_overlap_or_invalid_spec(spans: Seq<MemSpan2D>) -> bool {
        (exists|i: int| 0 <= i < spans.len() && !(#[trigger] spans[i]).spec_has_area()) || (exists|
            i: int,
            j: int,
        |
            0 <= i < j < spans.len() && Self::spec_overlaps(spans[i], spans[j]))
    }

    /// Whether a batch of rectangles is unfit for simultaneous exclusive
    /// views: some rectangle has no area, or some pair shares a cell. The
    /// check is exhaustive over all pairs.
    pub fn spans_overlap_or_invalid(spans: &Vec<MemSpan2D>) -> (r: bool)
        requires
            forall|i: int| 0 <= i < spans@.len() ==> (#[trigger] spans@[i]).wf(),
        ensures
            r == Self::spans_overlap_or_invalid_spec(spans@),
    {
        let n = spans.len();
        let mut i: usize = 0;
        while i < n
            invariant
                0 <= i <= n,
                n == spans@.len(),
                forall|k: int| 0 <= k < spans@.len() ==> (#[trigger] spans@[k]).wf(),
                forall|k: int| 0 <= k < i ==> (#[trigger] spans@[k]).spec_has_area(),
                forall|k: int, l: int|
                    0 <= k < l < spans@.len() && l < i ==> !Self::spec_overlaps(
                        spans@[k],
                        spans@[l],
                    ),
            decreases n - i,
        {
            if !spans[i].valid() {
                return true;
            }
            let mut j: usize = 0;
            while j < i
                invariant
                    0 <= j <= i < n,
                    n == spans@.len(),
                    forall|k: int| 0 <= k < spans@.len() ==> (#[trigger] spans@[k]).wf(),
                    forall|k: int| 0 <= k < j ==> !Self::spec_overlaps(spans@[k], spans@[i as int]),
                decreases i - j,
            {
                if spans[j].overlaps(&spans[i]) {
                    return true;
                }
                j = j + 1;
            }
            i = i + 1;
        }
        false
    }

    /// Rectangle intersection looks at both arguments the same way.
    pub proof fn lemma_intersect_commutes(a: MemSpan2D, b: MemSpan2D)
        ensures
            Self::spec_intersect(a, b) == Self::spec_intersect(b, a),
    {
        MemSpan::lemma_intersect_commutes(a.row_span, b.row_span);
        MemSpan::lemma_intersect_commutes(a.col_span, b.col_span);
    }

    /// Intersecting a rectangle that covers at least one cell with itself
    /// gives the rectangle back.
    pub proof fn lemma_intersect_idempotent(a: MemSpan2D)
        requires
            a.wf(),
            a.spec_has_area(),
        ensures
            Self::spec_intersect(a, a) == Some(a),
    {
        MemSpan::lemma_intersect_idempotent(a.row_span);
        MemSpan::lemma_intersect_idempotent(a.col_span);
    }

    /// Rectangle intersection is associative as long as both intermediate
    /// intersections cover at least one cell on each axis.
    pub proof fn lemma_intersect_assoc(a: MemSpan2D, b: MemSpan2D, c: MemSpan2D)
        requires
            a.wf(),
            b.wf(),
            c.wf(),
            match Self::spec_intersect(a, b) {
                Some(s) => s.spec_has_area(),
                None => false,
            },
            match Self::spec_intersect(b, c) {
                Some(s) => s.spec_has_area(),
                None => false,
            },
        ensures
            ({
                let ab = Self::spec_intersect(a, b).unwrap();
                let bc = Self::spec_intersect(b, c).unwrap();
                Self::spec_intersect(ab, c) == Self::spec_intersect(a, bc)
            }),
    {
        MemSpan::lemma_intersect_assoc(a.row_span, b.row_span, c.row_span);
        MemSpan::lemma_intersect_assoc(a.col_span, b.col_span, c.col_span);
    }
}

} // verus!
