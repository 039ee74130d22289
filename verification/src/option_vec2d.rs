//! A dense two-dimensional store of optional values, from which cells and
//! rectangular regions can be taken out, leaving holes behind.

use vstd::prelude::*;
use crate::extents2d::MemExtents2D;
use crate::index2d::MemIndex2D;
use crate::span::MemSpan;
use crate::span2d::MemSpan2D;
use crate::vec2d::Vec2D;
use crate::vec2d::spec_filled;

verus! {

/// A row-major grid of `Option` cells: `Some` where a value is still
/// present, `None` where it was taken.
pub struct OptionVec2D<T> {
    width: usize,
    height: usize,
    items: Vec<Option<T>>,
}

impl<T> View for OptionVec2D<T> {
    type V = Seq<Option<T>>;

    /// The flattened row-major cells.
    closed spec fn view(&self) -> Seq<Option<T>> {
        self.items@
    }
}

impl<T> OptionVec2D<T> {
    pub closed spec fn spec_width(self) -> int {
        self.width as int
    }

    pub closed spec fn spec_height(self) -> int {
        self.height as int
    }

    /// The store's length equals the (representable) area.
    pub open spec fn wf(self) -> bool {
        self.spec_width() * self.spec_height() <= usize::MAX && self@.len() == self.spec_width()
            * self.spec_height()
    }

    /// The cell at a coordinate, row-major.
    pub open spec fn spec_cell(self, row: int, col: int) -> Option<T> {
        self@[row * self.spec_width() + col]
    }

    fn width(&self) -> (r: usize)
        ensures
            r == self.spec_width(),
    {
        self.width
    }

    fn height(&self) -> (r: usize)
        ensures
            r == self.spec_height(),
    {
        self.height
    }

    fn len(&self) -> (r: usize)
        ensures
            r == self@.len(),
    {
        self.items.len()
    }

    /// Wrap a flat store of values, every cell present. The extents are
    /// taken on faith, as given.
    pub fn new(items: Vec<T>, width: usize, height: usize) -> (r: Self)
        ensures
            r.spec_width() == width,
            r.spec_height() == height,
            r@.len() == items@.len(),
            forall|k: int| 0 <= k < items@.len() ==> r@[k] == Some(items@[k]),
    {
        let ghost orig = items@;
        let mut rest = items;
        let mut stack: Vec<T> = Vec::new();
        while rest.len() > 0
            invariant
                rest@ == orig.take(rest@.len() as int),
                stack@.len() + rest@.len() == orig.len(),
                forall|k: int|
                    0 <= k < stack@.len() ==> #[trigger] stack@[k] == orig[orig.len() - 1 - k],
            decreases rest@.len(),
        {
            match rest.pop() {
                Some(x) => {
                    stack.push(x);
                },
                None => {
                    proof {
                        assert(false);
                    }
                },
            }
        }
        let mut cells: Vec<Option<T>> = Vec::new();
        while stack.len() > 0
            invariant
                stack@.len() + cells@.len() == orig.len(),
                forall|k: int|
                    0 <= k < stack@.len() ==> #[trigger] stack@[k] == orig[orig.len() - 1 - k],
                forall|k: int| 0 <= k < cells@.len() ==> #[trigger] cells@[k] == Some(orig[k]),
            decreases stack@.len(),
        {
            match stack.pop() {
                Some(x) => {
                    cells.push(Some(x));
                },
                None => {
                    proof {
                        assert(false);
                    }
                },
            }
        }
        OptionVec2D { width, height, items: cells }
    }

    /// An all-empty store shaped like the given rectangle.
    pub fn new_empty(extents: MemExtents2D) -> (r: OptionVec2D<T>)
        requires
            extents.wf(),
            extents.spec_area() <= usize::MAX,
        ensures
            r.spec_width() == extents.spec_width(),
            r.spec_height() == extents.spec_height(),
            r@.len() == extents.spec_area(),
            r.wf(),
            forall|k: int| 0 <= k < r@.len() ==> r@[k] is None,
    {
        let n = extents.area();
        let width = extents.width();
        let height = extents.height();
        proof {
            assert(extents.spec_width() * extents.spec_height() == extents.spec_height()
                * extents.spec_width()) by (nonlinear_arith);
        }
        let mut cells: Vec<Option<T>> = Vec::new();
        let mut i: usize = 0;
        while i < n
            invariant
                0 <= i <= n,
                cells@.len() == i,
                forall|k: int| 0 <= k < i ==> cells@[k] is None,
            decreases n - i,
        {
            cells.push(None);
            i = i + 1;
        }
        OptionVec2D { width, height, items: cells }
    }

    pub fn index2d_in_bounds(&self, index: MemIndex2D) -> (r: bool)
        ensures
            r == (index.row < self.spec_height() && index.col < self.spec_width()),
    {
        index.row < self.height() && index.col < self.width()
    }

    /// The coordinate of a linear index; `None` at or beyond the store's
    /// length.
    pub fn index_to_index2d(&self, index: usize) -> (r: Option<MemIndex2D>)
        requires
            self.wf(),
        ensures
            match r {
                Some(c) => {
                    &&& index < self@.len()
                    &&& c.row == index as int / self.spec_width()
                    &&& c.col == index as int % self.spec_width()
                },
                None => index >= self@.len(),
            },
    {
        if index >= self.len() {
            return None;
        }
        proof {
            assert(self.spec_width() > 0) by {
                if self.spec_width() == 0 {
                    assert(self.spec_width() * self.spec_height() == 0) by (nonlinear_arith)
                        requires
                            self.spec_width() == 0,
                    ;
                }
            }
        }
        let row = index / self.width();
        let col = index % self.width();
        Some(MemIndex2D::new(row, col))
    }

    /// The linear index of a coordinate; `None` outside the extents.
    pub fn index2d_to_index(&self, coordinates: MemIndex2D) -> (r: Option<usize>)
        requires
            self.wf(),
        ensures
            match r {
                Some(i) => {
                    &&& coordinates.row < self.spec_height()
                    &&& coordinates.col < self.spec_width()
                    &&& i == coordinates.row * self.spec_width() + coordinates.col
                    &&& i < self@.len()
                },
                None => coordinates.row >= self.spec_height() || coordinates.col
                    >= self.spec_width(),
            },
    {
        if coordinates.row >= self.height() || coordinates.col >= self.width() {
            return None;
        }
        proof {
            assert(coordinates.row * self.spec_width() + coordinates.col < self.spec_height()
                * self.spec_width() && self.spec_height() * self.spec_width() == self.spec_width()
                * self.spec_height()) by (nonlinear_arith)
                requires
                    coordinates.row < self.spec_height(),
                    coordinates.col < self.spec_width(),
                    coordinates.row >= 0,
                    coordinates.col >= 0,
            ;
        }
        Some(coordinates.row * self.width() + coordinates.col)
    }

    /// Take the value out of one cell, leaving a hole; an error names what
    /// went wrong when the coordinate is out of bounds or the cell was
    /// already empty, and the store is then unchanged.
    pub fn take_at(&mut self, index2d: MemIndex2D) -> (r: Result<T, &'static str>)
        requires
            old(self).wf(),
        ensures
            final (self).spec_width() == old(self).spec_width(),
            final (self).spec_height() == old(self).spec_height(),
            final (self).wf(),
            match r {
                Ok(v) => {
                    &&& index2d.row < old(self).spec_height()
                    &&& index2d.col < old(self).spec_width()
                    &&& old(self).spec_cell(index2d.row as int, index2d.col as int) == Some(v)
                    &&& final (self)@ == old(self)@.update(
                        index2d.row * old(self).spec_width() + index2d.col,
                        None::<T>,
                    )
                },
                Err(_) => {
                    &&& final (self)@ == old(self)@
                    &&& (index2d.row >= old(self).spec_height() || index2d.col >= old(
                        self,
                    ).spec_width() || old(self).spec_cell(index2d.row as int, index2d.col as int)
                        is None)
                },
            },
    {
        let index = match self.index2d_to_index(index2d) {
            Some(i) => i,
            None => {
                return Err("cannot take value: index out of bounds");
            },
        };
        let slot = vstd::std_specs::vec::vec_index_mut(&mut self.items, index);
        match slot.take() {
            Some(cell) => Ok(cell),
            None => {
                proof {
                    assert(self@ =~= old(self)@);
                }
                Err("failed to take cell: value was already gone")
            },
        }
    }
    /// Take a whole rectangular region out as a dense buffer, leaving
    /// holes behind; an error names what went wrong when the region is
    /// malformed, pokes outside the extents, or touches an already-empty
    /// cell. The operation is deliberately all-or-nothing: every cell is
    /// validated before any cell is moved, so a rejected request leaves
    /// the store unchanged rather than partially emptied, as the contract
    /// states.
    #[verifier::loop_isolation(false)]
    #[verifier::rlimit(60)]
    pub fn take_range(&mut self, range: MemExtents2D) -> (r: Result<Vec2D<T>, &'static str>)
        requires
            old(self).wf(),
        ensures
            final (self).spec_width() == old(self).spec_width(),
            final (self).spec_height() == old(self).spec_height(),
            final (self).wf(),
            match r {
                Ok(v) => {
                    &&& range.min_coord.row < range.max_coord.row
                    &&& range.min_coord.col < range.max_coord.col
                    &&& range.max_coord.row <= old(self).spec_height()
                    &&& range.max_coord.col <= old(self).spec_width()
                    &&& v.wf()
                    &&& v.spec_rows() == range.spec_height()
                    &&& v.spec_cols() == range.spec_width()
                    &&& forall|dr: int, dc: int|
                        0 <= dr < range.spec_height() && 0 <= dc < range.spec_width() ==> Some(
                            #[trigger] v.spec_cell(dr, dc),
                        ) == old(self).spec_cell(
                            range.min_coord.row + dr,
                            range.min_coord.col + dc,
                        )
                    &&& final (self)@ == spec_filled(
                        old(self)@,
                        old(self).spec_width(),
                        range_span(range),
                        None::<T>,
                    )
                },
                Err(_) => {
                    &&& final (self)@ == old(self)@
                    &&& (range.min_coord.row >= range.max_coord.row || range.min_coord.col
                        >= range.max_coord.col || range.max_coord.row > old(self).spec_height()
                        || range.max_coord.col > old(self).spec_width() || exists|
                        dr: int,
                        dc: int,
                    |
                        0 <= dr < range.spec_height() && 0 <= dc < range.spec_width() && (
                        #[trigger] old(self).spec_cell(
                            range.min_coord.row + dr,
                            range.min_coord.col + dc,
                        )) is None)
                },
            },
    {
        let min = range.get_min_coord();
        let max = range.get_max_coord();
        if min.row >= max.row {
            return Err("failed to take range: rows are empty or inverted");
        }
        if min.col >= max.col {
            return Err("failed to take range: columns are empty or inverted");
        }
        if max.row > self.height() || max.col > self.width() {
            return Err("failed to take range: region pokes outside the store");
        }
        let h = max.row - min.row;
        let w = max.col - min.col;
        let ghost orig = self@;
        let ghost stride = self.spec_width();
        let ghost span = range_span(range);
        // First pass, read only: every cell of the region must still be
        // present.
        let mut dr: usize = 0;
        while dr < h
            invariant
                0 <= dr <= h,
                forall|kr: int, kc: int|
                    0 <= kr < dr && 0 <= kc < w ==> #[trigger] orig[(min.row + kr) * stride
                        + min.col + kc] is Some,
            decreases h - dr,
        {
            let mut dc: usize = 0;
            while dc < w
                invariant
                    0 <= dc <= w,
                    0 <= dr < h,
                    forall|kr: int, kc: int|
                        0 <= kr < dr && 0 <= kc < w ==> #[trigger] orig[(min.row + kr) * stride
                            + min.col + kc] is Some,
                    forall|kc: int|
                        0 <= kc < dc ==> #[trigger] orig[(min.row + dr) * stride + min.col + kc]
                            is Some,
                decreases w - dc,
            {
                let idx = match self.index2d_to_index(MemIndex2D::new(min.row + dr, min.col + dc)) {
                    Some(i) => i,
                    None => {
                        proof {
                            assert(false);
                        }
                        return Err("failed to take range: region pokes outside the store");
                    },
                };
                if vstd::std_specs::vec::vec_index(&self.items, idx).is_none() {
                    proof {
                        assert(old(self).spec_cell(
                            range.min_coord.row + dr as int,
                            range.min_coord.col + dc as int,
                        ) is None);
                    }
                    return Err("failed to take range: a cell was already gone");
                }
                dc = dc + 1;
            }
            dr = dr + 1;
        }
        // Second pass: move the values out row-major and leave holes.
        let mut out: Vec<T> = Vec::new();
        proof {
            assert(h * w <= stride * self.spec_height()) by (nonlinear_arith)
                requires
                    0 <= h,
                    0 <= w <= stride,
                    h <= self.spec_height(),
            ;
            assert(self@ =~= crate::vec2d::spec_filled_upto(orig, stride, span, None::<T>, 0, 0));
            assert(out@ =~= spec_region_values(orig, stride, span).take(0));
        }
        let mut dr: usize = 0;
        while dr < h
            invariant
                0 <= dr <= h,
                self.spec_width() == stride,
                self.spec_height() == old(self).spec_height(),
                self@.len() == orig.len(),
                self@ == crate::vec2d::spec_filled_upto(orig, stride, span, None::<T>, dr as int, 0),
                out@.len() == dr * w,
                out@ == spec_region_values(orig, stride, span).take(dr * w as int),
            decreases h - dr,
        {
            let mut dc: usize = 0;
            while dc < w
                invariant
                    0 <= dc <= w,
                    0 <= dr < h,
                    self.spec_width() == stride,
                    self.spec_height() == old(self).spec_height(),
                    self@.len() == orig.len(),
                    self@ == crate::vec2d::spec_filled_upto(
                        orig,
                        stride,
                        span,
                        None::<T>,
                        dr as int,
                        dc as int,
                    ),
                    out@.len() == dr * w + dc,
                    out@ == spec_region_values(orig, stride, span).take(dr * w as int + dc),
                decreases w - dc,
            {
                let idx = match self.index2d_to_index(MemIndex2D::new(min.row + dr, min.col + dc)) {
                    Some(i) => i,
                    None => {
                        proof {
                            assert(false);
                        }
                        return Err("failed to take range: region pokes outside the store");
                    },
                };
                proof {
                    crate::grid::lemma_scan_encode(min.row + dr, min.col + dc, stride);
                    crate::grid::lemma_scan_encode(dr as int, dc as int, w as int);
                    assert(dr * w as int + dc < h * w as int) by (nonlinear_arith)
                        requires
                            0 <= dr < h,
                            0 <= dc < w,
                    ;
                }
                proof {
                    assert(orig[(min.row + dr as int) * stride + min.col + dc as int] is Some);
                    assert(!crate::vec2d::spec_filled_member(
                        stride,
                        span,
                        dr as int,
                        dc as int,
                        idx as int,
                    ));
                    assert(self@[idx as int] is Some);
                }
                let slot = vstd::std_specs::vec::vec_index_mut(&mut self.items, idx);
                match slot.take() {
                    Some(x) => {
                        out.push(x);
                    },
                    None => {
                        proof {
                            assert(false);
                        }
                        return Err("failed to take range: a cell was already gone");
                    },
                }
                proof {
                    let target = crate::vec2d::spec_filled_upto(
                        orig,
                        stride,
                        span,
                        None::<T>,
                        dr as int,
                        dc + 1,
                    );
                    assert forall|jdx: int| 0 <= jdx < orig.len() implies self@[jdx]
                        == target[jdx] by {
                        vstd::arithmetic::div_mod::lemma_fundamental_div_mod(jdx, stride);
                        vstd::arithmetic::div_mod::lemma_mod_bound(jdx, stride);
                        if jdx != idx as int && jdx / stride == span.row_span.min + dr && jdx
                            % stride == span.col_span.min + dc {
                            assert(jdx == stride * (jdx / stride) + jdx % stride);
                            assert(stride * (jdx / stride) == (jdx / stride) * stride)
                                by (nonlinear_arith);
                            assert(false);
                        }
                    }
                    assert(self@ =~= target);
                    assert(out@ =~= spec_region_values(orig, stride, span).take(
                        dr * w as int + dc + 1,
                    ));
                }
                dc = dc + 1;
            }
            proof {
                assert(crate::vec2d::spec_filled_upto(orig, stride, span, None::<T>, dr as int, w as int)
                    =~= crate::vec2d::spec_filled_upto(orig, stride, span, None::<T>, dr + 1, 0));
                assert(dr * w as int + w == (dr + 1) * w as int) by (nonlinear_arith);
            }
            dr = dr + 1;
        }
        proof {
            assert(out@ =~= spec_region_values(orig, stride, span));
            assert(crate::vec2d::spec_filled_upto(orig, stride, span, None::<T>, h as int, 0)
                =~= spec_filled(orig, stride, span, None::<T>));
        }
        match Vec2D::new_items_rows_columns(out, h, w) {
            Some(v) => {
                proof {
                    assert forall|kr: int, kc: int|
                        0 <= kr < h && 0 <= kc < w implies Some(#[trigger] v.spec_cell(kr, kc))
                        == orig[(min.row + kr) * stride + min.col + kc] by {
                        crate::grid::lemma_scan_encode(kr, kc, w as int);
                        assert(kr * w as int + kc < h * w as int) by (nonlinear_arith)
                            requires
                                0 <= kr < h,
                                0 <= kc < w,
                        ;
                    }
                }
                Ok(v)
            },
            None => {
                proof {
                    assert(false);
                }
                Err("failed to take range: region pokes outside the store")
            },
        }
    }

    /// Clone a rectangular region's cells, holes included, into a new
    /// store shaped like the region; an error names what went wrong when
    /// the region is malformed or pokes outside the extents.
    #[verifier::loop_isolation(false)]
    pub fn clone_cell_range(&self, range: MemExtents2D) -> (r: Result<
        OptionVec2D<T>,
        &'static str,
    >) where T: Clone
        requires
            self.wf(),
        ensures
            match r {
                Ok(o) => {
                    &&& range.min_coord.row < range.max_coord.row
                    &&& range.min_coord.col < range.max_coord.col
                    &&& range.max_coord.row <= self.spec_height()
                    &&& range.max_coord.col <= self.spec_width()
                    &&& o.spec_width() == range.spec_width()
                    &&& o.spec_height() == range.spec_height()
                    &&& o.wf()
                    &&& forall|dr: int, dc: int|
                        0 <= dr < range.spec_height() && 0 <= dc < range.spec_width()
                            ==> spec_cell_cloned(
                            self.spec_cell(range.min_coord.row + dr, range.min_coord.col + dc),
                            #[trigger] o.spec_cell(dr, dc),
                        )
                },
                Err(_) => range.min_coord.row >= range.max_coord.row || range.min_coord.col
                    >= range.max_coord.col || range.max_coord.row > self.spec_height()
                    || range.max_coord.col > self.spec_width(),
            },
    {
        let min = range.get_min_coord();
        let max = range.get_max_coord();
        if min.row >= max.row {
            return Err("cannot clone range: rows are empty or inverted");
        }
        if min.col >= max.col {
            return Err("cannot clone range: columns are empty or inverted");
        }
        if max.row > self.height() || max.col > self.width() {
            return Err("cannot clone range: region pokes outside the store");
        }
        let h = max.row - min.row;
        let w = max.col - min.col;
        let ghost stride = self.spec_width();
        proof {
            assert(h * w <= stride * self.spec_height()) by (nonlinear_arith)
                requires
                    0 <= h,
                    0 <= w <= stride,
                    h <= self.spec_height(),
            ;
        }
        let mut cells: Vec<Option<T>> = Vec::new();
        let mut dr: usize = 0;
        while dr < h
            invariant
                0 <= dr <= h,
                cells@.len() == dr * w,
                forall|kr: int, kc: int|
                    0 <= kr < dr && 0 <= kc < w ==> spec_cell_cloned(
                        self.spec_cell(min.row + kr, min.col + kc),
                        #[trigger] cells@[kr * w as int + kc],
                    ),
            decreases h - dr,
        {
            let mut dc: usize = 0;
            while dc < w
                invariant
                    0 <= dc <= w,
                    0 <= dr < h,
                    cells@.len() == dr * w + dc,
                    forall|kr: int, kc: int|
                        0 <= kr < dr && 0 <= kc < w ==> spec_cell_cloned(
                            self.spec_cell(min.row + kr, min.col + kc),
                            #[trigger] cells@[kr * w as int + kc],
                        ),
                    forall|kc: int|
                        0 <= kc < dc ==> spec_cell_cloned(
                            self.spec_cell(min.row + dr, min.col + kc),
                            #[trigger] cells@[dr * w as int + kc],
                        ),
                decreases w - dc,
            {
                let idx = match self.index2d_to_index(MemIndex2D::new(min.row + dr, min.col + dc)) {
                    Some(i) => i,
                    None => {
                        proof {
                            assert(false);
                        }
                        return Err("cannot clone range: region pokes outside the store");
                    },
                };
                cells.push(vstd::std_specs::vec::vec_index(&self.items, idx).clone());
                proof {
                    assert forall|kr: int, kc: int|
                        0 <= kr < dr && 0 <= kc < w implies spec_cell_cloned(
                        self.spec_cell(min.row + kr, min.col + kc),
                        #[trigger] cells@[kr * w as int + kc],
                    ) by {
                        assert(kr * w as int + kc < dr * w as int + dc) by (nonlinear_arith)
                            requires
                                0 <= kr < dr,
                                0 <= kc < w,
                                0 <= dc,
                        ;
                    }
                }
                dc = dc + 1;
            }
            proof {
                assert(dr * w as int + w == (dr + 1) * w as int) by (nonlinear_arith);
            }
            dr = dr + 1;
        }
        let out = OptionVec2D { width: w, height: h, items: cells };
        proof {
            assert(w * h == h * w) by (nonlinear_arith);
            assert forall|kr: int, kc: int|
                0 <= kr < h && 0 <= kc < w implies spec_cell_cloned(
                self.spec_cell(min.row + kr, min.col + kc),
                #[trigger] out.spec_cell(kr, kc),
            ) by {
            }
        }
        Ok(out)
    }
}

/// Whether `dst` could be the clone of source cell `src`: a hole clones
/// to a hole, a present value to a present clone of it.
pub open spec fn spec_cell_cloned<T2: Clone>(src: Option<T2>, dst: Option<T2>) -> bool {
    match (src, dst) {
        (Option::None, Option::None) => true,
        (Option::Some(x), Option::Some(y)) => cloned(x, y),
        _ => false,
    }
}

/// The rectangle `[min_coord, max_coord)` of an extents value, as a pair
/// of half-open spans.
pub open spec fn range_span(range: MemExtents2D) -> MemSpan2D {
    MemSpan2D {
        row_span: MemSpan {
            min: range.min_coord.row,
            count: (range.max_coord.row - range.min_coord.row) as usize,
        },
        col_span: MemSpan {
            min: range.min_coord.col,
            count: (range.max_coord.col - range.min_coord.col) as usize,
        },
    }
}

/// The values still present in a rectangular region, row-major; cells
/// already empty contribute an unspecified value.
pub open spec fn spec_region_values<T2>(
    orig: Seq<Option<T2>>,
    stride: int,
    span: MemSpan2D,
) -> Seq<T2> {
    Seq::new(
        (span.row_span.count * span.col_span.count) as nat,
        |k: int|
            orig[(span.row_span.min + k / span.col_span.count as int) * stride + span.col_span.min
                + k % span.col_span.count as int].unwrap(),
    )
}

} // verus!
