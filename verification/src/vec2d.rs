//! A dense row-major two-dimensional buffer with bounds-checked access and
//! rectangular views.
//!
//! Read-only views borrow the backing storage shared; the mutable view and
//! the non-overlapping chunk set hold the one exclusive borrow of the
//! backing storage, so no second path to the data can exist while they
//! live. For the chunk set, the pairwise disjointness check performed up
//! front is what makes simultaneous writes to different chunks sound; see
//! [`lemma_disjoint_spans_give_disjoint_cells`].

use vstd::prelude::*;
use crate::index2d::MemIndex2D;
use crate::size2d::Size2D;
use crate::span::MemSpan;
use crate::span2d::MemSpan2D;

verus! {

/// A rectangular buffer: `size` extents over a flat row-major element
/// store whose length always equals the area.
pub struct Vec2D<T> {
    size: Size2D,
    items: Vec<T>,
}

impl<T> View for Vec2D<T> {
    type V = Seq<T>;

    /// The flattened row-major contents.
    closed spec fn view(&self) -> Seq<T> {
        self.items@
    }
}

impl<T: Clone> Clone for Vec2D<T> {
    /// A buffer of the same extents whose elements are clones of the
    /// originals, in place.
    fn clone(&self) -> (res: Self)
        ensures
            res.spec_size() == self.spec_size(),
            res@.len() == self@.len(),
            forall|i: int| 0 <= i < self@.len() ==> cloned(self@[i], #[trigger] res@[i]),
    {
        Vec2D { size: self.size, items: self.items.clone() }
    }
}

impl<T> Vec2D<T> {
    pub closed spec fn spec_size(self) -> Size2D {
        self.size
    }

    /// The store's length equals the (representable) area.
    pub open spec fn wf(self) -> bool {
        self.spec_size().wf() && self@.len() == self.spec_size().spec_area()
    }

    pub open spec fn spec_rows(self) -> int {
        self.spec_size().row_count as int
    }

    pub open spec fn spec_cols(self) -> int {
        self.spec_size().column_count as int
    }

    /// The element at a cell, row-major.
    pub open spec fn spec_cell(self, row: int, col: int) -> T {
        self@[row * self.spec_cols() + col]
    }

    pub fn row_count(&self) -> (r: usize)
        ensures
            r == self.spec_size().row_count,
    {
        self.size.row_count
    }

    pub fn column_count(&self) -> (r: usize)
        ensures
            r == self.spec_size().column_count,
    {
        self.size.column_count
    }

    pub fn size(&self) -> (r: Size2D)
        ensures
            r == self.spec_size(),
    {
        self.size
    }

    /// A buffer of the given extents with every element a clone of
    /// `ref_item`.
    pub fn new_size_reference(size: Size2D, ref_item: &T) -> (r: Self) where T: Clone
        requires
            size.wf(),
        ensures
            r.spec_size() == size,
            r.wf(),
            forall|i: int| 0 <= i < r@.len() ==> cloned(*ref_item, #[trigger] r@[i]),
    {
        proof {
            assert(size.column_count * size.row_count == size.row_count * size.column_count)
                by (nonlinear_arith);
        }
        let n = size.column_count * size.row_count;
        let mut items: Vec<T> = Vec::new();
        let mut i: usize = 0;
        while i < n
            invariant
                0 <= i <= n,
                items@.len() == i,
                forall|k: int| 0 <= k < i ==> cloned(*ref_item, #[trigger] items@[k]),
            decreases n - i,
        {
            items.push(ref_item.clone());
            i = i + 1;
        }
        Vec2D { items, size }
    }

    /// Wrap a flat store as rows of `width` elements; `None` when the
    /// length is not a multiple of the width.
    pub fn from_vec(items: Vec<T>, width: usize) -> (r: Option<Self>)
        requires
            width > 0,
        ensures
            match r {
                Some(v) => {
                    &&& items@.len() as int % width as int == 0
                    &&& v.spec_size() == (Size2D {
                        row_count: (items@.len() as int / width as int) as usize,
                        column_count: width,
                    })
                    &&& v@ == items@
                    &&& v.wf()
                },
                None => items@.len() as int % width as int != 0,
            },
    {
        if items.len() % width != 0 {
            return None;
        }
        let height = items.len() / width;
        proof {
            vstd::arithmetic::div_mod::lemma_fundamental_div_mod(
                items@.len() as int,
                width as int,
            );
            assert(height * width as int == items@.len()) by (nonlinear_arith)
                requires
                    width > 0,
                    items@.len() as int % width as int == 0,
                    height == items@.len() as int / width as int,
            ;
        }
        Some(Vec2D { size: Size2D::new(height, width), items })
    }

    /// Wrap a flat store with explicit extents; `None` when the length
    /// does not equal the area.
    pub fn new_items_rows_columns(items: Vec<T>, rows: usize, columns: usize) -> (r: Option<Self>)
        requires
            rows * columns <= usize::MAX,
        ensures
            match r {
                Some(v) => {
                    &&& items@.len() == rows * columns
                    &&& v.spec_size() == (Size2D { row_count: rows, column_count: columns })
                    &&& v@ == items@
                    &&& v.wf()
                },
                None => items@.len() != rows * columns,
            },
    {
        Self::new_items_size(items, Size2D::new(rows, columns))
    }

    /// Wrap a flat store with explicit extents; `None` when the length
    /// does not equal the area.
    pub fn new_items_size(items: Vec<T>, size: Size2D) -> (r: Option<Self>)
        requires
            size.wf(),
        ensures
            match r {
                Some(v) => {
                    &&& items@.len() == size.spec_area()
                    &&& v.spec_size() == size
                    &&& v@ == items@
                    &&& v.wf()
                },
                None => items@.len() != size.spec_area(),
            },
    {
        proof {
            assert(size.column_count * size.row_count == size.row_count * size.column_count)
                by (nonlinear_arith);
        }
        if items.len() != size.column_count * size.row_count {
            return None;
        }
        Some(Vec2D { items, size })
    }

    /// Shared access to one element; `None` outside the extents.
    pub fn get_index2d(&self, coordinates: MemIndex2D) -> (r: Option<&T>)
        requires
            self.wf(),
        ensures
            match r {
                Some(v) => self.spec_size().spec_in_bounds(coordinates) && *v == self.spec_cell(
                    coordinates.row as int,
                    coordinates.col as int,
                ),
                None => !self.spec_size().spec_in_bounds(coordinates),
            },
    {
        match self.size.index2d_to_index(coordinates) {
            Some(i) => {
                proof {
                    Size2D::lemma_row_major_index_in_area(self.size, coordinates);
                }
                Some(vstd::std_specs::vec::vec_index(&self.items, i))
            },
            None => None,
        }
    }

    /// Shared access to one element by row and column; `None` outside the
    /// extents.
    pub fn get(&self, row: usize, col: usize) -> (r: Option<&T>)
        requires
            self.wf(),
        ensures
            match r {
                Some(v) => {
                    &&& row < self.spec_rows()
                    &&& col < self.spec_cols()
                    &&& *v == self.spec_cell(row as int, col as int)
                },
                None => row >= self.spec_rows() || col >= self.spec_cols(),
            },
    {
        self.get_index2d(MemIndex2D::new(row, col))
    }

    /// Exclusive access to one element; `None` outside the extents.
    pub fn get_mut_index2d(&mut self, coordinates: MemIndex2D) -> (r: Option<&mut T>)
        requires
            old(self).wf(),
        ensures
            match r {
                Some(m) => {
                    &&& old(self).spec_size().spec_in_bounds(coordinates)
                    &&& *m == old(self).spec_cell(coordinates.row as int, coordinates.col as int)
                    &&& final (self)@ == old(self)@.update(
                        coordinates.row as int * old(self).spec_cols() + coordinates.col,
                        *final (m),
                    )
                    &&& final (self).spec_size() == old(self).spec_size()
                },
                None => !old(self).spec_size().spec_in_bounds(coordinates) && *final (self)
                    == *old(self),
            },
    {
        match self.size.index2d_to_index(coordinates) {
            Some(i) => {
                proof {
                    Size2D::lemma_row_major_index_in_area(self.size, coordinates);
                }
                Some(vstd::std_specs::vec::vec_index_mut(&mut self.items, i))
            },
            None => None,
        }
    }

    /// Overwrite one element; `false` (and no change) outside the extents.
    pub fn set(&mut self, row: usize, col: usize, value: T) -> (r: bool)
        requires
            old(self).wf(),
        ensures
            r == (row < old(self).spec_rows() && col < old(self).spec_cols()),
            r ==> final (self)@ == old(self)@.update(
                row as int * old(self).spec_cols() + col,
                value,
            ),
            !r ==> final (self)@ == old(self)@,
            final (self).spec_size() == old(self).spec_size(),
            final (self).wf(),
    {
        match self.size.index2d_to_index(MemIndex2D::new(row, col)) {
            Some(i) => {
                proof {
                    Size2D::lemma_row_major_index_in_area(
                        self.size,
                        MemIndex2D { row, col },
                    );
                }
                self.items.set(i, value);
                true
            },
            None => false,
        }
    }

    /// A full row as one contiguous shared slice; `None` outside the
    /// extents.
    pub fn get_row(&self, row: usize) -> (r: Option<&[T]>)
        requires
            self.wf(),
        ensures
            match r {
                Some(s) => row < self.spec_rows() && s@ == self@.subrange(
                    row * self.spec_cols(),
                    (row + 1) * self.spec_cols(),
                ),
                None => row >= self.spec_rows(),
            },
    {
        if row >= self.row_count() {
            return None;
        }
        proof {
            Self::lemma_row_bounds(self.size, row as int);
        }
        let start = row * self.column_count();
        let end = start + self.column_count();
        Some(vstd::slice::slice_subrange(self.items.as_slice(), start, end))
    }

    /// A full row as one contiguous exclusive slice; `None` outside the
    /// extents. The buffer afterwards carries whatever the caller wrote
    /// through the slice, with everything outside the row unchanged.
    pub fn get_row_mut(&mut self, row: usize) -> (r: Option<&mut [T]>)
        requires
            old(self).wf(),
        ensures
            match r {
                Some(s) => {
                    &&& row < old(self).spec_rows()
                    &&& s@ == old(self)@.subrange(
                        row * old(self).spec_cols(),
                        (row + 1) * old(self).spec_cols(),
                    )
                    &&& final (self)@ == old(self)@.subrange(0, row * old(self).spec_cols())
                        + final (s)@ + old(self)@.subrange(
                        (row + 1) * old(self).spec_cols(),
                        old(self)@.len() as int,
                    )
                    &&& final (self).spec_size() == old(self).spec_size()
                },
                None => row >= old(self).spec_rows() && *final (self) == *old(self),
            },
    {
        if row >= self.row_count() {
            return None;
        }
        proof {
            Self::lemma_row_bounds(self.size, row as int);
        }
        let start = row * self.column_count();
        let cols = self.column_count();
        let s = self.items.as_mut_slice();
        let (_pre, rest) = s.split_at_mut(start);
        let (row_slice, _post) = rest.split_at_mut(cols);
        Some(row_slice)
    }

    /// Part of a row as one contiguous shared slice: the columns that
    /// `span` covers; `None` when the span is empty or pokes outside the
    /// extents.
    pub fn get_row_slice(&self, row: usize, span: MemSpan) -> (r: Option<&[T]>)
        requires
            self.wf(),
            span.wf(),
        ensures
            match r {
                Some(s) => {
                    &&& span.count > 0
                    &&& row < self.spec_rows()
                    &&& span.spec_upper() <= self.spec_cols()
                    &&& s@ == self@.subrange(
                        row * self.spec_cols() + span.min,
                        row * self.spec_cols() + span.spec_upper(),
                    )
                },
                None => span.count == 0 || row >= self.spec_rows() || span.spec_upper()
                    > self.spec_cols(),
            },
    {
        let min_col = span.min;
        let max_col = match span.max() {
            Some(m) => m,
            None => {
                return None;
            },
        };
        if row >= self.row_count() || max_col >= self.column_count() {
            return None;
        }
        proof {
            Self::lemma_row_bounds(self.size, row as int);
        }
        let start = row * self.column_count() + min_col;
        let end = row * self.column_count() + max_col + 1;
        Some(vstd::slice::slice_subrange(self.items.as_slice(), start, end))
    }

    /// Part of a row as one contiguous exclusive slice; `None` when the
    /// span is empty or pokes outside the extents.
    pub fn get_row_slice_mut(&mut self, row: usize, span: MemSpan) -> (r: Option<&mut [T]>)
        requires
            old(self).wf(),
            span.wf(),
        ensures
            match r {
                Some(s) => {
                    &&& span.count > 0
                    &&& row < old(self).spec_rows()
                    &&& span.spec_upper() <= old(self).spec_cols()
                    &&& s@ == old(self)@.subrange(
                        row * old(self).spec_cols() + span.min,
                        row * old(self).spec_cols() + span.spec_upper(),
                    )
                    &&& final (self)@ == old(self)@.subrange(
                        0,
                        row * old(self).spec_cols() + span.min,
                    ) + final (s)@ + old(self)@.subrange(
                        row * old(self).spec_cols() + span.spec_upper(),
                        old(self)@.len() as int,
                    )
                    &&& final (self).spec_size() == old(self).spec_size()
                },
                None => (span.count == 0 || row >= old(self).spec_rows() || span.spec_upper()
                    > old(self).spec_cols()) && *final (self) == *old(self),
            },
    {
        if span.len() == 0 {
            return None;
        }
        if row >= self.row_count() {
            return None;
        }
        let max_col = match span.max() {
            Some(m) => m,
            None => {
                return None;
            },
        };
        if max_col >= self.column_count() {
            return None;
        }
        proof {
            Self::lemma_row_bounds(self.size, row as int);
        }
        let start = row * self.column_count() + span.min;
        let count = span.count;
        let s = self.items.as_mut_slice();
        let (_pre, rest) = s.split_at_mut(start);
        let (seg, _post) = rest.split_at_mut(count);
        Some(seg)
    }

    /// A row inside the extents spans linear indexes inside the store.
    proof fn lemma_row_bounds(size: Size2D, row: int)
        requires
            size.wf(),
            0 <= row < size.row_count,
        ensures
            0 <= row * size.column_count,
            (row + 1) * size.column_count <= size.spec_area(),
            row * size.column_count + size.column_count == (row + 1) * size.column_count,
    {
        assert(0 <= row * size.column_count && (row + 1) * size.column_count <= size.row_count
            * size.column_count) by (nonlinear_arith)
            requires
                0 <= row < size.row_count,
        ;
        assert(row * size.column_count + size.column_count == (row + 1) * size.column_count)
            by (nonlinear_arith);
    }

    /// A read-only rectangular view of a region; `None` when the region is
    /// empty on either axis or not fully contained in the extents.
    pub fn get_slice(&self, span2d: MemSpan2D) -> (r: Option<Vec2DSlice<'_, T>>)
        requires
            self.wf(),
            span2d.wf(),
        ensures
            match r {
                Some(s) => {
                    &&& span2d.spec_has_area()
                    &&& span2d.row_span.spec_upper() <= self.spec_rows()
                    &&& span2d.col_span.spec_upper() <= self.spec_cols()
                    &&& s.vec_column_count == self.spec_size().column_count
                    &&& s.span2d == span2d
                    &&& s.data@ == self@
                    &&& s.wf()
                },
                None => !span2d.spec_has_area() || span2d.row_span.spec_upper() > self.spec_rows()
                    || span2d.col_span.spec_upper() > self.spec_cols(),
            },
    {
        if !span2d.valid() || !self.size.contains_span2d(&span2d) {
            return None;
        }
        proof {
            Self::lemma_span_in_store(self.size, span2d);
        }
        Some(Vec2DSlice::new(self.size.column_count, span2d, self.items.as_slice()))
    }

    /// A contained rectangle's rows stay within the store.
    proof fn lemma_span_in_store(size: Size2D, span2d: MemSpan2D)
        requires
            size.wf(),
            span2d.wf(),
            span2d.row_span.spec_upper() <= size.row_count,
            span2d.col_span.spec_upper() <= size.column_count,
        ensures
            span2d.row_span.spec_upper() * size.column_count <= size.spec_area(),
    {
        assert(span2d.row_span.spec_upper() * size.column_count <= size.row_count
            * size.column_count) by (nonlinear_arith)
            requires
                0 <= span2d.row_span.spec_upper() <= size.row_count,
        ;
    }

    /// Read-only views of several regions at once; `None` when some region
    /// has no area, some pair of regions overlaps, or some region is not
    /// fully contained in the extents. Read-only views may coexist freely;
    /// the disjointness check still applies so that the same region set is
    /// accepted here exactly when its exclusive counterpart is.
    #[verifier::rlimit(60)]
    #[verifier::spinoff_prover]
    pub fn get_non_overlapping_chunks(&self, spans: Vec<MemSpan2D>) -> (r: Option<
        Vec<Vec2DSlice<'_, T>>,
    >)
        requires
            self.wf(),
            forall|i: int| 0 <= i < spans@.len() ==> (#[trigger] spans@[i]).wf(),
        ensures
            match r {
                Some(chunks) => {
                    &&& !MemSpan2D::spans_overlap_or_invalid_spec(spans@)
                    &&& chunks@.len() == spans@.len()
                    &&& forall|i: int|
                        0 <= i < spans@.len() ==> {
                            &&& (#[trigger] chunks@[i]).span2d == spans@[i]
                            &&& chunks@[i].vec_column_count == self.spec_size().column_count
                            &&& chunks@[i].data@ == self@
                            &&& chunks@[i].wf()
                            &&& spans@[i].row_span.spec_upper() <= self.spec_rows()
                            &&& spans@[i].col_span.spec_upper() <= self.spec_cols()
                        }
                },
                None => MemSpan2D::spans_overlap_or_invalid_spec(spans@) || (exists|i: int|
                    0 <= i < spans@.len() && ((#[trigger] spans@[i]).row_span.spec_upper()
                        > self.spec_rows() || spans@[i].col_span.spec_upper()
                        > self.spec_cols())),
            },
    {
        if MemSpan2D::spans_overlap_or_invalid(&spans) {
            return None;
        }
        let mut chunks: Vec<Vec2DSlice<'_, T>> = Vec::new();
        let n = spans.len();
        let mut i: usize = 0;
        while i < n
            invariant
                0 <= i <= n,
                n == spans@.len(),
                self.wf(),
                forall|k: int| 0 <= k < spans@.len() ==> (#[trigger] spans@[k]).wf(),
                !MemSpan2D::spans_overlap_or_invalid_spec(spans@),
                chunks@.len() == i,
                forall|k: int|
                    0 <= k < i ==> {
                        &&& (#[trigger] chunks@[k]).span2d == spans@[k]
                        &&& chunks@[k].vec_column_count == self.spec_size().column_count
                        &&& chunks@[k].data@ == self@
                        &&& chunks@[k].wf()
                        &&& spans@[k].row_span.spec_upper() <= self.spec_rows()
                        &&& spans@[k].col_span.spec_upper() <= self.spec_cols()
                    },
            decreases n - i,
        {
            match self.get_slice(spans[i]) {
                Some(slice) => {
                    chunks.push(slice);
                    proof {
                        assert(chunks@[i as int].span2d == spans@[i as int]);
                        assert(chunks@[i as int].vec_column_count == self.spec_size(
                        ).column_count);
                        assert(chunks@[i as int].data@ == self@);
                        assert(chunks@[i as int].wf());
                        assert(forall|k: int|
                            0 <= k < i ==> chunks@[k] == chunks@.subrange(0, i as int)[k]);
                    }
                },
                None => {
                    return None;
                },
            }
            i = i + 1;
        }
        Some(chunks)
    }

    /// Copy a whole buffer into this one at `start_index`. A start corner
    /// beyond the extents makes the call a no-op; a start corner on or
    /// inside the extents must leave room for the incoming buffer.
    #[verifier::loop_isolation(false)]
    pub fn push_range(&mut self, start_index: MemIndex2D, range: Vec2D<T>) where T: Copy
        requires
            old(self).wf(),
            range.wf(),
            (start_index.row <= old(self).spec_rows() && start_index.col <= old(
                self,
            ).spec_cols()) ==> (start_index.row + range.spec_rows() <= old(self).spec_rows()
                && start_index.col + range.spec_cols() <= old(self).spec_cols()),
        ensures
            final (self).spec_size() == old(self).spec_size(),
            final (self).wf(),
            (start_index.row > old(self).spec_rows() || start_index.col > old(self).spec_cols())
                ==> final (self)@ == old(self)@,
            (start_index.row <= old(self).spec_rows() && start_index.col <= old(
                self,
            ).spec_cols()) ==> final (self)@ == spec_pasted(
                old(self)@,
                old(self).spec_cols(),
                start_index.row as int,
                start_index.col as int,
                range@,
                range.spec_rows(),
                range.spec_cols(),
            ),
    {
        if start_index.row > self.row_count() || start_index.col > self.column_count() {
            return ;
        }
        let srows = range.row_count();
        let scols = range.column_count();
        let ghost dst = self@;
        let ghost stride = self.spec_cols();
        let ghost sr = start_index.row as int;
        let ghost sc = start_index.col as int;
        let mut i: usize = 0;
        proof {
            assert(self@ =~= spec_pasted_upto(
                dst,
                stride,
                sr,
                sc,
                range@,
                srows as int,
                scols as int,
                0,
                0,
            ));
        }
        while i < srows
            invariant
                0 <= i <= srows,
                self.spec_size() == old(self).spec_size(),
                self@ == spec_pasted_upto(
                    dst,
                    stride,
                    sr,
                    sc,
                    range@,
                    srows as int,
                    scols as int,
                    i as int,
                    0,
                ),
            decreases srows - i,
        {
            let mut j: usize = 0;
            while j < scols
                invariant
                    0 <= j <= scols,
                    0 <= i < srows,
                    self.spec_size() == old(self).spec_size(),
                    self@ == spec_pasted_upto(
                        dst,
                        stride,
                        sr,
                        sc,
                        range@,
                        srows as int,
                        scols as int,
                        i as int,
                        j as int,
                    ),
                decreases scols - j,
            {
                proof {
                    Self::lemma_row_bounds(old(self).spec_size(), sr + i);
                    Size2D::lemma_row_major_index_in_area(
                        range.spec_size(),
                        MemIndex2D { row: i, col: j },
                    );
                }
                let value = *vstd::std_specs::vec::vec_index(&range.items, i * scols + j);
                let offset = (start_index.row + i) * self.column_count() + (start_index.col + j);
                self.items.set(offset, value);
                proof {
                    let target = spec_pasted_upto(
                        dst,
                        stride,
                        sr,
                        sc,
                        range@,
                        srows as int,
                        scols as int,
                        i as int,
                        j + 1,
                    );
                    crate::grid::lemma_scan_encode(sr + i, sc + j, stride);
                    assert forall|idx: int| 0 <= idx < dst.len() implies self@[idx]
                        == target[idx] by {
                        vstd::arithmetic::div_mod::lemma_fundamental_div_mod(idx, stride);
                        vstd::arithmetic::div_mod::lemma_mod_bound(idx, stride);
                        if idx != offset as int && idx / stride == sr + i && idx % stride == sc
                            + j {
                            assert(idx == stride * (idx / stride) + idx % stride);
                            assert(stride * (idx / stride) == (idx / stride) * stride)
                                by (nonlinear_arith);
                            assert(false);
                        }
                    }
                    assert(self@ =~= target);
                }
                j = j + 1;
            }
            proof {
                assert(spec_pasted_upto(
                    dst,
                    stride,
                    sr,
                    sc,
                    range@,
                    srows as int,
                    scols as int,
                    i as int,
                    scols as int,
                ) =~= spec_pasted_upto(
                    dst,
                    stride,
                    sr,
                    sc,
                    range@,
                    srows as int,
                    scols as int,
                    i + 1,
                    0,
                ));
            }
            i = i + 1;
        }
        proof {
            assert(spec_pasted_upto(
                dst,
                stride,
                sr,
                sc,
                range@,
                srows as int,
                scols as int,
                srows as int,
                0,
            ) =~= spec_pasted(dst, stride, sr, sc, range@, srows as int, scols as int));
        }
    }

    /// An exclusive rectangular view of a region; `None` when the region
    /// is empty on either axis or not fully contained in the extents. The
    /// view takes the one mutable borrow of the backing store; the buffer
    /// afterwards carries whatever the caller wrote through the view.
    pub fn get_slice_mut(&mut self, span2d: MemSpan2D) -> (r: Option<Vec2DMutSlice<'_, T>>)
        requires
            old(self).wf(),
            span2d.wf(),
        ensures
            match r {
                Some(ms) => {
                    &&& span2d.spec_has_area()
                    &&& span2d.row_span.spec_upper() <= old(self).spec_rows()
                    &&& span2d.col_span.spec_upper() <= old(self).spec_cols()
                    &&& ms.vec_column_count == old(self).spec_size().column_count
                    &&& ms.span2d == span2d
                    &&& (*ms.data)@ == old(self)@
                    &&& ms.wf()
                    &&& final (self).spec_size() == old(self).spec_size()
                    &&& final (self)@ == mut_ref_future(ms.data)@
                },
                None => (!span2d.spec_has_area() || span2d.row_span.spec_upper() > old(
                    self,
                ).spec_rows() || span2d.col_span.spec_upper() > old(self).spec_cols()) && *final (
                self) == *old(self),
            },
    {
        if !span2d.valid() || !self.size.contains_span2d(&span2d) {
            return None;
        }
        proof {
            Self::lemma_span_in_store(self.size, span2d);
        }
        Some(Vec2DMutSlice::new(self.size.column_count, span2d, &mut self.items))
    }

    /// Exclusive views of several regions at once, as one chunk set over
    /// the single mutable borrow of the backing store; `None` when some
    /// region has no area, some pair of regions overlaps, or some region
    /// is not fully contained in the extents. The disjointness check is
    /// what licenses writing to different chunks of the set independently:
    /// see [`lemma_disjoint_spans_give_disjoint_cells`].
    pub fn get_non_overlapping_chunks_mut(&mut self, spans: Vec<MemSpan2D>) -> (r: Option<
        Vec2DMutChunks<'_, T>,
    >)
        requires
            old(self).wf(),
            forall|i: int| 0 <= i < spans@.len() ==> (#[trigger] spans@[i]).wf(),
        ensures
            match r {
                Some(ch) => {
                    &&& !MemSpan2D::spans_overlap_or_invalid_spec(spans@)
                    &&& ch.spans@ == spans@
                    &&& ch.vec_column_count == old(self).spec_size().column_count
                    &&& ch.size == old(self).spec_size()
                    &&& (*ch.data)@ == old(self)@
                    &&& ch.wf()
                    &&& final (self).spec_size() == old(self).spec_size()
                    &&& final (self)@ == mut_ref_future(ch.data)@
                },
                None => (MemSpan2D::spans_overlap_or_invalid_spec(spans@) || (exists|i: int|
                    0 <= i < spans@.len() && ((#[trigger] spans@[i]).row_span.spec_upper() > old(
                        self,
                    ).spec_rows() || spans@[i].col_span.spec_upper() > old(self).spec_cols())))
                    && *final (self) == *old(self),
            },
    {
        if MemSpan2D::spans_overlap_or_invalid(&spans) {
            return None;
        }
        let n = spans.len();
        let mut i: usize = 0;
        while i < n
            invariant
                0 <= i <= n,
                n == spans@.len(),
                old(self).wf(),
                *self == *old(self),
                forall|k: int| 0 <= k < spans@.len() ==> (#[trigger] spans@[k]).wf(),
                forall|k: int|
                    0 <= k < i ==> (#[trigger] spans@[k]).row_span.spec_upper() <= old(
                        self,
                    ).spec_rows() && spans@[k].col_span.spec_upper() <= old(self).spec_cols(),
            decreases n - i,
        {
            if !self.size.contains_span2d(&spans[i]) {
                return None;
            }
            i = i + 1;
        }
        Some(
            Vec2DMutChunks {
                vec_column_count: self.size.column_count,
                size: self.size,
                spans,
                data: &mut self.items,
            },
        )
    }
}

/// A set of exclusive rectangular windows over one buffer: the single
/// mutable borrow of the backing store together with the batch of regions
/// that passed the pairwise disjointness check. Writes address one chunk
/// at a time; the check guarantees that a write through one chunk is never
/// seen through another.
pub struct Vec2DMutChunks<'a, T> {
    pub vec_column_count: usize,
    pub size: Size2D,
    pub spans: Vec<MemSpan2D>,
    pub data: &'a mut Vec<T>,
}

impl<'a, T> Vec2DMutChunks<'a, T> {
    /// The backing store matches the declared extents, and the regions
    /// passed the disjointness and containment checks.
    pub open spec fn wf(self) -> bool {
        &&& self.size.wf()
        &&& self.vec_column_count == self.size.column_count
        &&& (*self.data)@.len() == self.size.spec_area()
        &&& !MemSpan2D::spans_overlap_or_invalid_spec(self.spans@)
        &&& forall|i: int|
            0 <= i < self.spans@.len() ==> (#[trigger] self.spans@[i]).wf()
                && self.spans@[i].row_span.spec_upper() <= self.size.row_count
                && self.spans@[i].col_span.spec_upper() <= self.size.column_count
    }

    /// The backing store's current contents.
    pub open spec fn spec_store(self) -> Seq<T> {
        (*self.data)@
    }

    /// The linear index of a chunk-relative cell in the backing store.
    pub open spec fn spec_offset(self, chunk: int, row: int, col: int) -> int {
        (self.spans@[chunk].row_span.min + row) * self.vec_column_count
            + self.spans@[chunk].col_span.min + col
    }

    /// The element at a chunk-relative cell.
    pub open spec fn spec_cell(self, chunk: int, row: int, col: int) -> T {
        (*self.data)@[self.spec_offset(chunk, row, col)]
    }

    pub fn chunk_count(&self) -> (r: usize)
        ensures
            r == self.spans@.len(),
    {
        self.spans.len()
    }

    /// A chunk-relative cell's linear index lies within the store.
    proof fn lemma_cell_bounds(self, chunk: int, row: int)
        requires
            self.wf(),
            0 <= chunk < self.spans@.len(),
            0 <= row < self.spans@[chunk].row_span.count,
        ensures
            0 <= self.spans@[chunk].row_span.min + row < self.spans@[chunk].row_span.spec_upper(),
            0 <= (self.spans@[chunk].row_span.min + row) * self.vec_column_count,
            (self.spans@[chunk].row_span.min + row) * self.vec_column_count
                + self.vec_column_count <= self.spec_store().len(),
    {
        let stride = self.vec_column_count as int;
        let ar = self.spans@[chunk].row_span.min + row;
        let up = self.spans@[chunk].row_span.spec_upper();
        assert(0 <= ar * stride && ar * stride + stride <= up * stride) by (nonlinear_arith)
            requires
                0 <= ar,
                ar < up,
                stride >= 0,
        ;
        assert(up * stride <= self.size.row_count * stride) by (nonlinear_arith)
            requires
                0 <= up <= self.size.row_count,
                stride >= 0,
        ;
    }

    /// The element at a cell of one chunk; `None` when the chunk or the
    /// cell does not exist.
    pub fn get(&self, chunk: usize, row: usize, col: usize) -> (r: Option<&T>)
        requires
            self.wf(),
        ensures
            match r {
                Some(v) => {
                    &&& chunk < self.spans@.len()
                    &&& row < self.spans@[chunk as int].row_span.count
                    &&& col < self.spans@[chunk as int].col_span.count
                    &&& *v == self.spec_cell(chunk as int, row as int, col as int)
                },
                None => chunk >= self.spans@.len() || row >= self.spans@[
                    chunk as int
                ].row_span.count || col >= self.spans@[chunk as int].col_span.count,
            },
    {
        if chunk >= self.spans.len() {
            return None;
        }
        let span = self.spans[chunk];
        if row >= span.row_span.len() || col >= span.col_span.len() {
            return None;
        }
        let store_len = self.data.len();
        proof {
            assert(store_len == (*self.data)@.len());
            self.lemma_cell_bounds(chunk as int, row as int);
        }
        let offset = (span.row_span.min + row) * self.vec_column_count + span.col_span.min + col;
        Some(vstd::std_specs::vec::vec_index(self.data, offset))
    }

    /// Overwrite the element at a cell of one chunk; `false` (and no
    /// change) when the chunk or the cell does not exist. Only the
    /// addressed position of the store changes, so — by the disjointness
    /// check — every cell of every other chunk keeps its value.
    pub fn set(&mut self, chunk: usize, row: usize, col: usize, value: T) -> (r: bool)
        requires
            old(self).wf(),
        ensures
            r == (chunk < old(self).spans@.len() && row < old(self).spans@[
                chunk as int
            ].row_span.count && col < old(self).spans@[chunk as int].col_span.count),
            r ==> (*final (self).data)@ == (*old(self).data)@.update(
                old(self).spec_offset(chunk as int, row as int, col as int),
                value,
            ),
            !r ==> (*final (self).data)@ == (*old(self).data)@,
            final (self).spans == old(self).spans,
            final (self).size == old(self).size,
            final (self).vec_column_count == old(self).vec_column_count,
            mut_ref_future(final (self).data) == mut_ref_future(old(self).data),
            final (self).wf(),
            r ==> forall|k: int, rr: int, cc: int|
                0 <= k < old(self).spans@.len() && k != chunk && 0 <= rr < old(self).spans@[
                    k
                ].row_span.count && 0 <= cc < old(self).spans@[k].col_span.count ==> final (
                self).spec_cell(k, rr, cc) == old(self).spec_cell(k, rr, cc),
    {
        if chunk >= self.spans.len() {
            return false;
        }
        let span = self.spans[chunk];
        if row >= span.row_span.len() || col >= span.col_span.len() {
            return false;
        }
        let store_len = self.data.len();
        proof {
            assert(store_len == (*self.data)@.len());
            self.lemma_cell_bounds(chunk as int, row as int);
        }
        let offset = (span.row_span.min + row) * self.vec_column_count + span.col_span.min + col;
        self.data.set(offset, value);
        proof {
            let stride = self.vec_column_count as int;
            assert forall|k: int, rr: int, cc: int|
                0 <= k < old(self).spans@.len() && k != chunk && 0 <= rr < old(self).spans@[
                    k
                ].row_span.count && 0 <= cc < old(self).spans@[k].col_span.count implies self
                .spec_cell(k, rr, cc) == old(self).spec_cell(k, rr, cc) by {
                self.lemma_cell_bounds(k, rr);
                lemma_disjoint_spans_give_disjoint_cells(
                    stride,
                    old(self).spans@,
                    k,
                    chunk as int,
                    old(self).spans@[k].row_span.min + rr,
                    old(self).spans@[k].col_span.min + cc,
                    span.row_span.min + row,
                    span.col_span.min + col,
                );
            }
        }
        true
    }

    /// One chunk's contents flattened row-major.
    pub open spec fn chunk_contents(self, chunk: int) -> Seq<T> {
        Seq::new(
            (self.spans@[chunk].row_span.count * self.spans@[chunk].col_span.count) as nat,
            |k: int|
                self.spec_cell(
                    chunk,
                    k / self.spans@[chunk].col_span.count as int,
                    k % self.spans@[chunk].col_span.count as int,
                ),
        )
    }

    /// One chunk's contents as an owned vector, row-major; `None` when the
    /// chunk does not exist.
    pub fn chunk_to_vec(&self, chunk: usize) -> (r: Option<Vec<T>>) where T: Copy
        requires
            self.wf(),
        ensures
            match r {
                Some(s) => chunk < self.spans@.len() && s@ == self.chunk_contents(chunk as int),
                None => chunk >= self.spans@.len(),
            },
    {
        if chunk >= self.spans.len() {
            return None;
        }
        let span = self.spans[chunk];
        let rows = span.row_span.len();
        let cols = span.col_span.len();
        proof {
            assert(rows * cols <= self.size.row_count * self.size.column_count)
                by (nonlinear_arith)
                requires
                    0 <= rows <= self.size.row_count,
                    0 <= cols <= self.size.column_count,
            ;
        }
        let mut out: Vec<T> = Vec::new();
        let mut i: usize = 0;
        while i < rows
            invariant
                0 <= i <= rows,
                chunk < self.spans@.len(),
                span == self.spans@[chunk as int],
                rows == span.row_span.count,
                cols == span.col_span.count,
                rows * cols <= usize::MAX,
                self.wf(),
                out@.len() == i * cols,
                out@ == self.chunk_contents(chunk as int).take(i * cols as int),
            decreases rows - i,
        {
            let mut j: usize = 0;
            while j < cols
                invariant
                    0 <= j <= cols,
                    0 <= i < rows,
                    chunk < self.spans@.len(),
                    span == self.spans@[chunk as int],
                    rows == span.row_span.count,
                    cols == span.col_span.count,
                    rows * cols <= usize::MAX,
                    self.wf(),
                    out@.len() == i * cols + j,
                    out@ == self.chunk_contents(chunk as int).take(i * cols as int + j),
                decreases cols - j,
            {
                let store_len = self.data.len();
                proof {
                    assert(store_len == (*self.data)@.len());
                    self.lemma_cell_bounds(chunk as int, i as int);
                    crate::grid::lemma_scan_encode(i as int, j as int, cols as int);
                    assert(i * cols as int + j < rows * cols as int) by (nonlinear_arith)
                        requires
                            0 <= i < rows,
                            0 <= j < cols,
                    ;
                }
                let offset = (span.row_span.min + i) * self.vec_column_count + span.col_span.min
                    + j;
                out.push(*vstd::std_specs::vec::vec_index(self.data, offset));
                proof {
                    assert(out@ =~= self.chunk_contents(chunk as int).take(
                        i * cols as int + j + 1,
                    ));
                }
                j = j + 1;
            }
            proof {
                assert(i * cols as int + cols == (i + 1) * cols as int) by (nonlinear_arith);
            }
            i = i + 1;
        }
        proof {
            assert(out@ =~= self.chunk_contents(chunk as int));
        }
        Some(out)
    }
}

/// Distinct row-major cells have distinct linear indexes.
pub proof fn lemma_row_major_unique(stride: int, r1: int, c1: int, r2: int, c2: int)
    requires
        stride > 0,
        0 <= c1 < stride,
        0 <= c2 < stride,
        r1 >= 0,
        r2 >= 0,
        r1 * stride + c1 == r2 * stride + c2,
    ensures
        r1 == r2,
        c1 == c2,
{
    assert(r1 == r2 && c1 == c2) by (nonlinear_arith)
        requires
            stride > 0,
            0 <= c1 < stride,
            0 <= c2 < stride,
            r1 >= 0,
            r2 >= 0,
            r1 * stride + c1 == r2 * stride + c2,
    ;
}

/// The disjointness check licenses simultaneous exclusive windows: in a
/// batch of regions that passed it, cells of two different regions always
/// occupy two different positions of the backing store, so a write through
/// one region can never be seen through another.
pub proof fn lemma_disjoint_spans_give_disjoint_cells(
    stride: int,
    spans: Seq<MemSpan2D>,
    i: int,
    j: int,
    r1: int,
    c1: int,
    r2: int,
    c2: int,
)
    requires
        !MemSpan2D::spans_overlap_or_invalid_spec(spans),
        0 <= i < spans.len(),
        0 <= j < spans.len(),
        i != j,
        spans[i].wf(),
        spans[j].wf(),
        spans[i].col_span.spec_upper() <= stride,
        spans[j].col_span.spec_upper() <= stride,
        spans[i].row_span.min <= r1 < spans[i].row_span.spec_upper(),
        spans[i].col_span.min <= c1 < spans[i].col_span.spec_upper(),
        spans[j].row_span.min <= r2 < spans[j].row_span.spec_upper(),
        spans[j].col_span.min <= c2 < spans[j].col_span.spec_upper(),
    ensures
        r1 * stride + c1 != r2 * stride + c2,
{
    if r1 * stride + c1 == r2 * stride + c2 {
        lemma_row_major_unique(stride, r1, c1, r2, c2);
        // The shared cell makes both axis intersections non-empty, so the
        // regions overlap, contradicting the check.
        let a = if i < j {
            i
        } else {
            j
        };
        let b = if i < j {
            j
        } else {
            i
        };
        MemSpan::lemma_intersect_commutes(spans[i].row_span, spans[j].row_span);
        MemSpan::lemma_intersect_commutes(spans[i].col_span, spans[j].col_span);
        assert(MemSpan2D::spec_overlaps(spans[a], spans[b]));
        assert(false);
    }
}

/// An exclusive rectangular window: it holds the one mutable borrow of the
/// whole backing store, restricted by a region and the parent's row
/// stride, so no other path to the data exists while it lives.
pub struct Vec2DMutSlice<'a, T> {
    pub vec_column_count: usize,
    pub span2d: MemSpan2D,
    pub data: &'a mut Vec<T>,
}

impl<'a, T> Vec2DMutSlice<'a, T> {
    /// The region lies within the stride and the store.
    pub open spec fn wf(self) -> bool {
        &&& self.span2d.wf()
        &&& self.span2d.col_span.spec_upper() <= self.vec_column_count
        &&& self.span2d.row_span.spec_upper() * self.vec_column_count <= (*self.data)@.len()
    }

    /// The element at a region-relative cell.
    pub open spec fn spec_cell(self, row: int, col: int) -> T {
        (*self.data)@[(self.span2d.row_span.min + row) * self.vec_column_count
            + self.span2d.col_span.min + col]
    }

    /// The backing store's current contents.
    pub open spec fn spec_store(self) -> Seq<T> {
        (*self.data)@
    }

    /// The linear index of a region-relative cell in the backing store.
    pub open spec fn spec_offset(self, row: int, col: int) -> int {
        (self.span2d.row_span.min + row) * self.vec_column_count + self.span2d.col_span.min + col
    }

    /// The region's contents flattened row-major.
    pub open spec fn contents(self) -> Seq<T> {
        Seq::new(
            (self.span2d.row_span.count * self.span2d.col_span.count) as nat,
            |k: int|
                self.spec_cell(
                    k / self.span2d.col_span.count as int,
                    k % self.span2d.col_span.count as int,
                ),
        )
    }

    pub fn new(vec_column_count: usize, span2d: MemSpan2D, data: &'a mut Vec<T>) -> (r: Self)
        ensures
            r.vec_column_count == vec_column_count,
            r.span2d == span2d,
            (*r.data)@ == (*old(data))@,
            *final (data) == mut_ref_future(r.data),
    {
        Vec2DMutSlice { vec_column_count, span2d, data }
    }

    pub fn row_count(&self) -> (r: usize)
        ensures
            r == self.span2d.row_span.count,
    {
        self.span2d.row_count()
    }

    pub fn column_count(&self) -> (r: usize)
        ensures
            r == self.span2d.col_span.count,
    {
        self.span2d.column_count()
    }

    /// See [`Vec2DSlice::lemma_cell_bounds`]: the row's offsets fit the
    /// store.
    proof fn lemma_cell_bounds(self, row: int)
        requires
            self.wf(),
            0 <= row < self.span2d.row_span.count,
        ensures
            0 <= self.span2d.row_span.min + row < self.span2d.row_span.spec_upper(),
            0 <= (self.span2d.row_span.min + row) * self.vec_column_count,
            (self.span2d.row_span.min + row) * self.vec_column_count + self.vec_column_count
                <= self.spec_store().len(),
    {
        let stride = self.vec_column_count as int;
        let ar = self.span2d.row_span.min + row;
        let up = self.span2d.row_span.spec_upper();
        assert(0 <= ar * stride && ar * stride + stride <= up * stride) by (nonlinear_arith)
            requires
                0 <= ar,
                ar < up,
                stride >= 0,
        ;
    }

    /// The element at a region-relative cell; `None` outside the region.
    pub fn get(&self, row: usize, col: usize) -> (r: Option<&T>)
        requires
            self.wf(),
        ensures
            match r {
                Some(v) => {
                    &&& row < self.span2d.row_span.count
                    &&& col < self.span2d.col_span.count
                    &&& *v == self.spec_cell(row as int, col as int)
                },
                None => row >= self.span2d.row_span.count || col >= self.span2d.col_span.count,
            },
    {
        if row >= self.row_count() || col >= self.column_count() {
            return None;
        }
        let store_len = self.data.len();
        proof {
            assert(store_len == (*self.data)@.len());
            self.lemma_cell_bounds(row as int);
        }
        let offset = (self.span2d.row_span.min + row) * self.vec_column_count
            + self.span2d.col_span.min + col;
        Some(vstd::std_specs::vec::vec_index(self.data, offset))
    }

    /// Exclusive access to the element at a region-relative cell; `None`
    /// outside the region. The store afterwards carries whatever the
    /// caller wrote through the reference, with every other position
    /// unchanged.
    pub fn get_mut(&mut self, row: usize, col: usize) -> (r: Option<&mut T>)
        requires
            old(self).wf(),
        ensures
            match r {
                Some(m) => {
                    &&& row < old(self).span2d.row_span.count
                    &&& col < old(self).span2d.col_span.count
                    &&& *m == (*old(self).data)@[old(self).spec_offset(row as int, col as int)]
                    &&& (*final (self).data)@ == (*old(self).data)@.update(
                        old(self).spec_offset(row as int, col as int),
                        *final (m),
                    )
                    &&& final (self).span2d == old(self).span2d
                    &&& final (self).vec_column_count == old(self).vec_column_count
                    &&& mut_ref_future(final (self).data) == mut_ref_future(old(self).data)
                },
                None => (row >= old(self).span2d.row_span.count || col >= old(
                    self,
                ).span2d.col_span.count) && *final (self) == *old(self),
            },
    {
        if row >= self.row_count() || col >= self.column_count() {
            return None;
        }
        let store_len = self.data.len();
        proof {
            assert(store_len == (*self.data)@.len());
            self.lemma_cell_bounds(row as int);
        }
        let offset = (self.span2d.row_span.min + row) * self.vec_column_count
            + self.span2d.col_span.min + col;
        Some(vstd::std_specs::vec::vec_index_mut(self.data, offset))
    }

    /// Overwrite the element at a region-relative cell; `false` (and no
    /// change) outside the region. Everything outside the addressed
    /// position of the store keeps its value.
    pub fn set(&mut self, row: usize, col: usize, value: T) -> (r: bool)
        requires
            old(self).wf(),
        ensures
            r == (row < old(self).span2d.row_span.count && col < old(self).span2d.col_span.count),
            r ==> (*final (self).data)@ == (*old(self).data)@.update(
                old(self).spec_offset(row as int, col as int),
                value,
            ),
            !r ==> (*final (self).data)@ == (*old(self).data)@,
            final (self).span2d == old(self).span2d,
            final (self).vec_column_count == old(self).vec_column_count,
            mut_ref_future(final (self).data) == mut_ref_future(old(self).data),
            final (self).wf(),
    {
        if row >= self.row_count() || col >= self.column_count() {
            return false;
        }
        let store_len = self.data.len();
        proof {
            assert(store_len == (*self.data)@.len());
            self.lemma_cell_bounds(row as int);
        }
        let offset = (self.span2d.row_span.min + row) * self.vec_column_count
            + self.span2d.col_span.min + col;
        let v: &mut Vec<T> = self.data;
        v.set(offset, value);
        true
    }

    /// One region row as an owned vector; `None` outside the region's
    /// rows.
    pub fn get_row(&self, row: usize) -> (r: Option<Vec<T>>) where T: Copy
        requires
            self.wf(),
        ensures
            match r {
                Some(s) => {
                    &&& row < self.span2d.row_span.count
                    &&& s@.len() == self.span2d.col_span.count
                    &&& forall|c: int|
                        0 <= c < self.span2d.col_span.count ==> s@[c] == self.spec_cell(
                            row as int,
                            c,
                        )
                },
                None => row >= self.span2d.row_span.count,
            },
    {
        if row >= self.row_count() {
            return None;
        }
        let cols = self.column_count();
        let mut out: Vec<T> = Vec::new();
        let mut j: usize = 0;
        while j < cols
            invariant
                0 <= j <= cols,
                row < self.span2d.row_span.count,
                cols == self.span2d.col_span.count,
                self.wf(),
                out@.len() == j,
                forall|c: int| 0 <= c < j ==> out@[c] == self.spec_cell(row as int, c),
            decreases cols - j,
        {
            let store_len = self.data.len();
            proof {
                assert(store_len == (*self.data)@.len());
                self.lemma_cell_bounds(row as int);
            }
            let offset = (self.span2d.row_span.min + row) * self.vec_column_count
                + self.span2d.col_span.min + j;
            out.push(*vstd::std_specs::vec::vec_index(self.data, offset));
            j = j + 1;
        }
        Some(out)
    }

    /// The region's contents as an owned vector, row-major.
    pub fn to_vec(&self) -> (r: Vec<T>) where T: Copy
        requires
            self.wf(),
            self.span2d.spec_area() <= usize::MAX,
        ensures
            r@ == self.contents(),
    {
        let rows = self.row_count();
        let cols = self.column_count();
        let mut out: Vec<T> = Vec::new();
        let mut i: usize = 0;
        while i < rows
            invariant
                0 <= i <= rows,
                rows == self.span2d.row_span.count,
                cols == self.span2d.col_span.count,
                self.wf(),
                self.span2d.spec_area() <= usize::MAX,
                out@.len() == i * cols,
                out@ == self.contents().take(i * cols as int),
            decreases rows - i,
        {
            let mut j: usize = 0;
            while j < cols
                invariant
                    0 <= j <= cols,
                    0 <= i < rows,
                    rows == self.span2d.row_span.count,
                    cols == self.span2d.col_span.count,
                    self.wf(),
                    self.span2d.spec_area() <= usize::MAX,
                    out@.len() == i * cols + j,
                    out@ == self.contents().take(i * cols as int + j),
                decreases cols - j,
            {
                let store_len = self.data.len();
                proof {
                    assert(store_len == (*self.data)@.len());
                    self.lemma_cell_bounds(i as int);
                    crate::grid::lemma_scan_encode(i as int, j as int, cols as int);
                    assert(i * cols as int + j < rows * cols as int) by (nonlinear_arith)
                        requires
                            0 <= i < rows,
                            0 <= j < cols,
                    ;
                }
                let offset = (self.span2d.row_span.min + i) * self.vec_column_count
                    + self.span2d.col_span.min + j;
                out.push(*vstd::std_specs::vec::vec_index(self.data, offset));
                proof {
                    assert(out@ =~= self.contents().take(i * cols as int + j + 1));
                }
                j = j + 1;
            }
            proof {
                assert(i * cols as int + cols == (i + 1) * cols as int) by (nonlinear_arith);
            }
            i = i + 1;
        }
        proof {
            assert(out@ =~= self.contents());
        }
        out
    }

    /// The region's contents as an owned buffer shaped like the region.
    pub fn to_vec2d(&self) -> (r: Vec2D<T>) where T: Copy
        requires
            self.wf(),
            self.span2d.spec_area() <= usize::MAX,
        ensures
            r.spec_size() == (Size2D {
                row_count: self.span2d.row_span.count,
                column_count: self.span2d.col_span.count,
            }),
            r.wf(),
            r@ == self.contents(),
    {
        let values = self.to_vec();
        match Vec2D::new_items_rows_columns(values, self.row_count(), self.column_count()) {
            Some(v) => v,
            None => {
                proof {
                    assert(false);
                }
                Vec2D { size: Size2D { row_count: 0, column_count: 0 }, items: Vec::new() }
            },
        }
    }

    /// Replace every element of the region with the result of applying
    /// `f` to it, row-major, leaving everything outside the region
    /// unchanged.
    #[verifier::loop_isolation(false)]
    pub fn for_each_mut<F: Fn(T) -> T>(&mut self, f: F) where T: Copy
        requires
            old(self).wf(),
            forall|t: T| #[trigger] call_requires(f, (t,)),
        ensures
            final (self).span2d == old(self).span2d,
            final (self).vec_column_count == old(self).vec_column_count,
            mut_ref_future(final (self).data) == mut_ref_future(old(self).data),
            final (self).wf(),
            (*final (self).data)@.len() == (*old(self).data)@.len(),
            forall|idx: int|
                0 <= idx < (*old(self).data)@.len() ==> if spec_filled_member(
                    old(self).vec_column_count as int,
                    old(self).span2d,
                    old(self).span2d.row_span.count as int,
                    0,
                    idx,
                ) {
                    call_ensures(f, ((*old(self).data)@[idx],), (*final (self).data)@[idx])
                } else {
                    (*final (self).data)@[idx] == (*old(self).data)@[idx]
                },
    {
        let ghost orig = (*self.data)@;
        let ghost stride = self.vec_column_count as int;
        let ghost span = self.span2d;
        let len = self.data.len();
        let mut out: Vec<T> = Vec::new();
        let mut idx: usize = 0;
        while idx < len
            invariant
                0 <= idx <= len,
                len == orig.len(),
                self.wf(),
                self.span2d == old(self).span2d,
                self.vec_column_count == old(self).vec_column_count,
                (*self.data)@ == orig,
                forall|t: T| #[trigger] call_requires(f, (t,)),
                out@.len() == idx,
                forall|j: int|
                    0 <= j < idx ==> if spec_filled_member(
                        stride,
                        span,
                        span.row_span.count as int,
                        0,
                        j,
                    ) {
                        call_ensures(f, (orig[j],), #[trigger] out@[j])
                    } else {
                        out@[j] == orig[j]
                    },
            decreases len - idx,
        {
            let stride_exec = self.vec_column_count;
            let value = *vstd::std_specs::vec::vec_index(self.data, idx);
            let in_region: bool = if stride_exec == 0 {
                false
            } else {
                let row = idx / stride_exec;
                let col = idx % stride_exec;
                proof {
                    vstd::arithmetic::div_mod::lemma_mod_bound(idx as int, stride);
                    vstd::arithmetic::div_mod::lemma_div_pos_is_pos(idx as int, stride);
                }
                self.span2d.row_span.min <= row && row < self.span2d.row_span.min
                    + self.span2d.row_span.count && self.span2d.col_span.min <= col && col
                    < self.span2d.col_span.min + self.span2d.col_span.count
            };
            proof {
                assert(in_region == spec_filled_member(
                    stride,
                    span,
                    span.row_span.count as int,
                    0,
                    idx as int,
                ));
                assert(call_requires(f, (value,)));
            }
            if in_region {
                out.push(f(value));
            } else {
                out.push(value);
            }
            idx = idx + 1;
        }
        *self.data = out;
    }

    /// Overwrite every element of the region with `value`, leaving
    /// everything outside the region unchanged; see [`spec_filled`].
    #[verifier::loop_isolation(false)]
    pub fn fill(&mut self, value: T) where T: Copy
        requires
            old(self).wf(),
        ensures
            final (self).span2d == old(self).span2d,
            final (self).vec_column_count == old(self).vec_column_count,
            mut_ref_future(final (self).data) == mut_ref_future(old(self).data),
            final (self).wf(),
            (*final (self).data)@ == spec_filled(
                (*old(self).data)@,
                old(self).vec_column_count as int,
                old(self).span2d,
                value,
            ),
    {
        let rows = self.row_count();
        let cols = self.column_count();
        let ghost orig = (*self.data)@;
        let ghost stride = self.vec_column_count as int;
        let ghost span = self.span2d;
        let mut i: usize = 0;
        proof {
            assert((*self.data)@ =~= spec_filled_upto(orig, stride, span, value, 0, 0));
        }
        while i < rows
            invariant
                0 <= i <= rows,
                self.span2d == old(self).span2d,
                self.vec_column_count == old(self).vec_column_count,
                mut_ref_future(self.data) == mut_ref_future(old(self).data),
                (*self.data)@ == spec_filled_upto(orig, stride, span, value, i as int, 0),
            decreases rows - i,
        {
            let mut j: usize = 0;
            while j < cols
                invariant
                    0 <= j <= cols,
                    0 <= i < rows,
                    self.span2d == old(self).span2d,
                    self.vec_column_count == old(self).vec_column_count,
                    mut_ref_future(self.data) == mut_ref_future(old(self).data),
                    (*self.data)@ == spec_filled_upto(orig, stride, span, value, i as int, j as int),
                decreases cols - j,
            {
                let store_len = self.data.len();
                proof {
                    assert(store_len == (*self.data)@.len());
                    self.lemma_cell_bounds(i as int);
                }
                let offset = (self.span2d.row_span.min + i) * self.vec_column_count
                    + self.span2d.col_span.min + j;
                self.data.set(offset, value);
                proof {
                    let target = spec_filled_upto(orig, stride, span, value, i as int, j + 1);
                    crate::grid::lemma_scan_encode(
                        span.row_span.min + i,
                        span.col_span.min + j,
                        stride,
                    );
                    assert forall|idx: int| 0 <= idx < orig.len() implies (*self.data)@[idx]
                        == target[idx] by {
                        vstd::arithmetic::div_mod::lemma_fundamental_div_mod(idx, stride);
                        vstd::arithmetic::div_mod::lemma_mod_bound(idx, stride);
                        if idx != offset as int && idx / stride == span.row_span.min + i && idx
                            % stride == span.col_span.min + j {
                            assert(idx == stride * (idx / stride) + idx % stride);
                            assert(stride * (idx / stride) == (idx / stride) * stride)
                                by (nonlinear_arith);
                            assert(idx == (span.row_span.min + i) * stride + (span.col_span.min
                                + j));
                            assert(offset as int == (span.row_span.min + i) * stride + (
                            span.col_span.min + j));
                            assert(false);
                        }
                    }
                    assert((*self.data)@ =~= target);
                }
                j = j + 1;
            }
            proof {
                assert(spec_filled_upto(orig, stride, span, value, i as int, cols as int)
                    =~= spec_filled_upto(orig, stride, span, value, i + 1, 0));
            }
            i = i + 1;
        }
        proof {
            assert(spec_filled_upto(orig, stride, span, value, rows as int, 0) =~= spec_filled(
                orig,
                stride,
                span,
                value,
            ));
        }
    }
}

/// Whether a store position lies inside the rectangular region described
/// by a stride and a span, with the region's first `i` rows and, in row
/// `i`, the first `j` columns counted as covered.
pub open spec fn spec_filled_member(stride: int, span: MemSpan2D, i: int, j: int, idx: int) -> bool {
    let row = idx / stride;
    let col = idx % stride;
    &&& stride > 0
    &&& span.col_span.min <= col < span.col_span.spec_upper()
    &&& span.row_span.min <= row < span.row_span.spec_upper()
    &&& (row < span.row_span.min + i || (row == span.row_span.min + i && col < span.col_span.min
        + j))
}

/// The store after the first `i` rows of the region, plus `j` columns of
/// row `i`, have been overwritten with `value`.
pub open spec fn spec_filled_upto<T2>(
    orig: Seq<T2>,
    stride: int,
    span: MemSpan2D,
    value: T2,
    i: int,
    j: int,
) -> Seq<T2> {
    Seq::new(
        orig.len(),
        |idx: int|
            if spec_filled_member(stride, span, i, j, idx) {
                value
            } else {
                orig[idx]
            },
    )
}

/// The store after the whole region has been overwritten with `value`.
pub open spec fn spec_filled<T2>(orig: Seq<T2>, stride: int, span: MemSpan2D, value: T2) -> Seq<T2> {
    spec_filled_upto(orig, stride, span, value, span.row_span.count as int, 0)
}

/// The destination store after the first `i` rows of a source rectangle,
/// plus `j` columns of row `i`, have been copied in at `(start_row,
/// start_col)`.
pub open spec fn spec_pasted_upto<T2>(
    dst: Seq<T2>,
    stride: int,
    start_row: int,
    start_col: int,
    src: Seq<T2>,
    srows: int,
    scols: int,
    i: int,
    j: int,
) -> Seq<T2> {
    Seq::new(
        dst.len(),
        |idx: int|
            {
                let row = idx / stride;
                let col = idx % stride;
                if stride > 0 && start_row <= row < start_row + srows && start_col <= col
                    < start_col + scols && (row < start_row + i || (row == start_row + i && col
                    < start_col + j)) {
                    src[(row - start_row) * scols + (col - start_col)]
                } else {
                    dst[idx]
                }
            },
    )
}

/// The destination store after a whole source rectangle has been copied in
/// at `(start_row, start_col)`.
pub open spec fn spec_pasted<T2>(
    dst: Seq<T2>,
    stride: int,
    start_row: int,
    start_col: int,
    src: Seq<T2>,
    srows: int,
    scols: int,
) -> Seq<T2> {
    spec_pasted_upto(dst, stride, start_row, start_col, src, srows, scols, srows, 0)
}

/// A read-only rectangular window: a shared borrow of the whole backing
/// store, restricted by a region and the parent's row stride.
pub struct Vec2DSlice<'a, T> {
    pub vec_column_count: usize,
    pub span2d: MemSpan2D,
    pub data: &'a [T],
}

impl<'a, T> Vec2DSlice<'a, T> {
    /// The region lies within the stride and the store.
    pub open spec fn wf(self) -> bool {
        &&& self.span2d.wf()
        &&& self.span2d.col_span.spec_upper() <= self.vec_column_count
        &&& self.span2d.row_span.spec_upper() * self.vec_column_count <= self.data@.len()
    }

    /// The element at a region-relative cell.
    pub open spec fn spec_cell(self, row: int, col: int) -> T {
        self.data@[(self.span2d.row_span.min + row) * self.vec_column_count
            + self.span2d.col_span.min + col]
    }

    /// The region's contents flattened row-major.
    pub open spec fn contents(self) -> Seq<T> {
        Seq::new(
            (self.span2d.row_span.count * self.span2d.col_span.count) as nat,
            |k: int|
                self.spec_cell(
                    k / self.span2d.col_span.count as int,
                    k % self.span2d.col_span.count as int,
                ),
        )
    }

    pub fn new(vec_column_count: usize, span2d: MemSpan2D, data: &'a [T]) -> (r: Self)
        ensures
            r.vec_column_count == vec_column_count,
            r.span2d == span2d,
            r.data == data,
    {
        Vec2DSlice { vec_column_count, span2d, data }
    }

    pub fn row_count(&self) -> (r: usize)
        ensures
            r == self.span2d.row_span.count,
    {
        self.span2d.row_count()
    }

    pub fn column_count(&self) -> (r: usize)
        ensures
            r == self.span2d.col_span.count,
    {
        self.span2d.column_count()
    }

    /// The linear indexes of a region row lie within the store: the row's
    /// start offset and the whole stride after it fit.
    proof fn lemma_cell_bounds(self, row: int)
        requires
            self.wf(),
            0 <= row < self.span2d.row_span.count,
        ensures
            0 <= self.span2d.row_span.min + row < self.span2d.row_span.spec_upper(),
            0 <= (self.span2d.row_span.min + row) * self.vec_column_count,
            (self.span2d.row_span.min + row) * self.vec_column_count + self.vec_column_count
                <= self.data@.len(),
    {
        let stride = self.vec_column_count as int;
        let ar = self.span2d.row_span.min + row;
        let up = self.span2d.row_span.spec_upper();
        assert(0 <= ar * stride && ar * stride + stride <= up * stride) by (nonlinear_arith)
            requires
                0 <= ar,
                ar < up,
                stride >= 0,
        ;
    }

    /// The element at a region-relative coordinate; `None` outside the
    /// region.
    pub fn get(&self, index2d: MemIndex2D) -> (r: Option<&T>)
        requires
            self.wf(),
        ensures
            match r {
                Some(v) => {
                    &&& index2d.row < self.span2d.row_span.count
                    &&& index2d.col < self.span2d.col_span.count
                    &&& *v == self.spec_cell(index2d.row as int, index2d.col as int)
                },
                None => index2d.row >= self.span2d.row_span.count || index2d.col
                    >= self.span2d.col_span.count,
            },
    {
        if index2d.row >= self.row_count() || index2d.col >= self.column_count() {
            return None;
        }
        let store_len = self.data.len();
        proof {
            assert(store_len == self.data@.len());
            self.lemma_cell_bounds(index2d.row as int);
        }
        let offset = (self.span2d.row_span.min + index2d.row) * self.vec_column_count
            + self.span2d.col_span.min + index2d.col;
        Some(vstd::slice::slice_index_get(self.data, offset))
    }

    /// The element at a region-relative row and column; `None` outside the
    /// region.
    pub fn get_span_index(&self, row: usize, col: usize) -> (r: Option<&T>)
        requires
            self.wf(),
        ensures
            match r {
                Some(v) => {
                    &&& row < self.span2d.row_span.count
                    &&& col < self.span2d.col_span.count
                    &&& *v == self.spec_cell(row as int, col as int)
                },
                None => row >= self.span2d.row_span.count || col >= self.span2d.col_span.count,
            },
    {
        self.get(MemIndex2D::new(row, col))
    }

    /// One region row as a contiguous shared slice; `None` outside the
    /// region's rows.
    pub fn get_span_row(&self, row: usize) -> (r: Option<&'a [T]>)
        requires
            self.wf(),
        ensures
            match r {
                Some(s) => {
                    &&& row < self.span2d.row_span.count
                    &&& s@.len() == self.span2d.col_span.count
                    &&& forall|c: int|
                        0 <= c < self.span2d.col_span.count ==> s@[c] == self.spec_cell(
                            row as int,
                            c,
                        )
                },
                None => row >= self.span2d.row_span.count,
            },
    {
        if row >= self.row_count() {
            return None;
        }
        let cols = self.column_count();
        let store_len = self.data.len();
        proof {
            assert(store_len == self.data@.len());
            self.lemma_cell_bounds(row as int);
        }
        let start = (self.span2d.row_span.min + row) * self.vec_column_count
            + self.span2d.col_span.min;
        let s = vstd::slice::slice_subrange(self.data, start, start + cols);
        proof {
            assert forall|c: int| 0 <= c < self.span2d.col_span.count implies s@[c]
                == self.spec_cell(row as int, c) by {
                assert(s@[c] == self.data@[start + c]);
            }
        }
        Some(s)
    }

    /// All region rows, in order, each as a contiguous shared slice.
    pub fn rows(&self) -> (r: Vec<&'a [T]>)
        requires
            self.wf(),
        ensures
            r@.len() == self.span2d.row_span.count,
            forall|i: int, c: int|
                0 <= i < self.span2d.row_span.count && 0 <= c < self.span2d.col_span.count
                    ==> (#[trigger] r@[i]@[c]) == self.spec_cell(i, c),
            forall|i: int|
                0 <= i < self.span2d.row_span.count ==> (#[trigger] r@[i])@.len()
                    == self.span2d.col_span.count,
    {
        let n = self.row_count();
        let mut out: Vec<&'a [T]> = Vec::new();
        let mut i: usize = 0;
        while i < n
            invariant
                0 <= i <= n,
                n == self.span2d.row_span.count,
                self.wf(),
                out@.len() == i,
                forall|k: int, c: int|
                    0 <= k < i && 0 <= c < self.span2d.col_span.count ==> (#[trigger] out@[k]@[c])
                        == self.spec_cell(k, c),
                forall|k: int|
                    0 <= k < i ==> (#[trigger] out@[k])@.len() == self.span2d.col_span.count,
            decreases n - i,
        {
            let row = match self.get_span_row(i) {
                Some(s) => s,
                None => {
                    proof {
                        assert(false);
                    }
                    return out;
                },
            };
            out.push(row);
            i = i + 1;
        }
        out
    }

    /// The region's contents as an owned vector, row-major.
    pub fn to_vec(&self) -> (r: Vec<T>) where T: Copy
        requires
            self.wf(),
            self.span2d.spec_area() <= usize::MAX,
        ensures
            r@ == self.contents(),
    {
        let rows = self.row_count();
        let cols = self.column_count();
        let mut out: Vec<T> = Vec::new();
        let mut i: usize = 0;
        while i < rows
            invariant
                0 <= i <= rows,
                rows == self.span2d.row_span.count,
                cols == self.span2d.col_span.count,
                self.wf(),
                self.span2d.spec_area() <= usize::MAX,
                out@.len() == i * cols,
                out@ == self.contents().take(i * cols as int),
            decreases rows - i,
        {
            let mut j: usize = 0;
            while j < cols
                invariant
                    0 <= j <= cols,
                    0 <= i < rows,
                    rows == self.span2d.row_span.count,
                    cols == self.span2d.col_span.count,
                    self.wf(),
                    self.span2d.spec_area() <= usize::MAX,
                    out@.len() == i * cols + j,
                    out@ == self.contents().take(i * cols as int + j),
                decreases cols - j,
            {
                let store_len = self.data.len();
                proof {
                    assert(store_len == self.data@.len());
                    self.lemma_cell_bounds(i as int);
                    crate::grid::lemma_scan_encode(i as int, j as int, cols as int);
                    assert(i * cols as int + j < rows * cols as int) by (nonlinear_arith)
                        requires
                            0 <= i < rows,
                            0 <= j < cols,
                    ;
                }
                let offset = (self.span2d.row_span.min + i) * self.vec_column_count
                    + self.span2d.col_span.min + j;
                let v = *vstd::slice::slice_index_get(self.data, offset);
                out.push(v);
                proof {
                    assert(out@ =~= self.contents().take(i * cols as int + j + 1));
                }
                j = j + 1;
            }
            proof {
                assert(i * cols as int + cols == (i + 1) * cols as int) by (nonlinear_arith);
            }
            i = i + 1;
        }
        proof {
            assert(out@ =~= self.contents());
        }
        out
    }

    /// The region's contents as an owned buffer shaped like the region.
    pub fn to_vec2d(&self) -> (r: Vec2D<T>) where T: Copy
        requires
            self.wf(),
            self.span2d.spec_area() <= usize::MAX,
        ensures
            r.spec_size() == (Size2D {
                row_count: self.span2d.row_span.count,
                column_count: self.span2d.col_span.count,
            }),
            r.wf(),
            r@ == self.contents(),
    {
        let values = self.to_vec();
        match Vec2D::new_items_rows_columns(values, self.row_count(), self.column_count()) {
            Some(v) => v,
            None => {
                proof {
                    assert(false);
                }
                Vec2D { size: Size2D { row_count: 0, column_count: 0 }, items: Vec::new() }
            },
        }
    }

    /// Whether some element of the region equals `x`.
    pub fn contains(&self, x: &T) -> (r: bool) where T: PartialEq + vstd::std_specs::cmp::PartialEqSpec
        requires
            self.wf(),
        ensures
            T::obeys_eq_spec() ==> r == exists|i: int, c: int|
                0 <= i < self.span2d.row_span.count && 0 <= c < self.span2d.col_span.count && (
                #[trigger] self.spec_cell(i, c)).eq_spec(x),
    {
        let rows = self.row_count();
        let cols = self.column_count();
        let mut i: usize = 0;
        while i < rows
            invariant
                0 <= i <= rows,
                rows == self.span2d.row_span.count,
                cols == self.span2d.col_span.count,
                self.wf(),
                T::obeys_eq_spec() ==> forall|k: int, c: int|
                    0 <= k < i && 0 <= c < self.span2d.col_span.count ==> !(
                    #[trigger] self.spec_cell(k, c)).eq_spec(x),
            decreases rows - i,
        {
            let mut j: usize = 0;
            while j < cols
                invariant
                    0 <= j <= cols,
                    0 <= i < rows,
                    rows == self.span2d.row_span.count,
                    cols == self.span2d.col_span.count,
                    self.wf(),
                    T::obeys_eq_spec() ==> forall|k: int, c: int|
                        0 <= k < i && 0 <= c < self.span2d.col_span.count ==> !(
                        #[trigger] self.spec_cell(k, c)).eq_spec(x),
                    T::obeys_eq_spec() ==> forall|c: int|
                        0 <= c < j ==> !(#[trigger] self.spec_cell(i as int, c)).eq_spec(x),
                decreases cols - j,
            {
                let store_len = self.data.len();
                proof {
                    assert(store_len == self.data@.len());
                    self.lemma_cell_bounds(i as int);
                }
                let offset = (self.span2d.row_span.min + i) * self.vec_column_count
                    + self.span2d.col_span.min + j;
                let v = vstd::slice::slice_index_get(self.data, offset);
                if *v == *x {
                    proof {
                        assert(T::obeys_eq_spec() ==> (self.spec_cell(i as int, j as int)).eq_spec(
                            x,
                        ));
                    }
                    return true;
                }
                j = j + 1;
            }
            i = i + 1;
        }
        false
    }
}

} // verus!
