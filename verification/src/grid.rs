//! Partitioning of a cell space into rectangular tiles.
//!
//! Two strategies share one contract: a uniform grid cuts each axis into
//! tiles of a fixed extent (with a final partial tile where the extent does
//! not divide the axis), and a non-uniform grid cuts each axis at an
//! explicit sorted list of interior boundaries. Both are modelled by the
//! same axis description — the sorted sequence of tile origin positions —
//! so their region intersection algorithms can be proved to agree.

use vstd::prelude::*;
use crate::index2d::MemIndex2D;
use crate::size2d::Size2D;
use crate::span::MemSpan;
use crate::span2d::MemSpan2D;

verus! {

/// A coordinate in tile space: it names a tile, not a cell.
#[derive(Clone, Copy, Debug, PartialEq, Eq, Structural)]
pub struct GridIndex(pub MemIndex2D);

impl GridIndex {
    pub fn new(row: usize, col: usize) -> (r: Self)
        ensures
            r.0.row == row,
            r.0.col == col,
    {
        GridIndex(MemIndex2D::new(row, col))
    }

    pub fn row(&self) -> (r: usize)
        ensures
            r == self.0.row,
    {
        self.0.row
    }

    pub fn col(&self) -> (r: usize)
        ensures
            r == self.0.col,
    {
        self.0.col
    }

    pub fn index2d(&self) -> (r: MemIndex2D)
        ensures
            r == self.0,
    {
        self.0
    }
}

/// One tile touched by a query, with the overlap expressed in the tile's
/// local coordinate space.
#[derive(Clone, Copy, Debug, PartialEq, Eq, Structural)]
pub struct GridIntersection {
    pub grid_index: GridIndex,
    pub intersection: MemSpan2D,
}

/// The bounding rectangle, in tile-index space, of all tiles touched by a
/// query.
#[derive(Clone, Copy, Debug, PartialEq, Eq, Structural)]
pub struct GridRange2D(pub MemSpan2D);

// An axis partition is modelled by the sorted sequence of its tiles' origin
// positions together with the axis total. Tile `t` covers
// `[origins[t], axis_upper(origins, total, t))`.
/// A well-formed axis description: at least one tile, the first origin at
/// zero, origins strictly increasing, and the last origin inside the axis.
pub open spec fn axis_wf(origins: Seq<int>, total: int) -> bool {
    &&& origins.len() >= 1
    &&& origins[0] == 0
    &&& forall|i: int| 0 <= i < origins.len() - 1 ==> #[trigger] origins[i] < origins[i + 1]
    &&& origins[origins.len() - 1] < total
}

/// The exclusive upper bound of tile `t`: the next tile's origin, or the
/// axis total for the last tile.
pub open spec fn axis_upper(origins: Seq<int>, total: int, t: int) -> int {
    if t + 1 < origins.len() {
        origins[t + 1]
    } else {
        total
    }
}

/// The tile owning position `x`: the greatest tile whose origin lies at or
/// below `x`. A position equal to a boundary belongs to the tile starting
/// there.
pub open spec fn axis_tile_of(origins: Seq<int>, x: int) -> int
    decreases origins.len(),
{
    if origins.len() <= 1 {
        0
    } else if x >= origins[origins.len() - 1] {
        origins.len() - 1
    } else {
        axis_tile_of(origins.drop_last(), x)
    }
}

/// The overlap of tile `[o, u)` with query `[qmin, qup)`, rebased to the
/// tile's origin.
pub open spec fn axis_clip_local(o: int, u: int, qmin: int, qup: int) -> MemSpan {
    let lo = if qmin >= o {
        qmin
    } else {
        o
    };
    let hi = if u <= qup {
        u
    } else {
        qup
    };
    MemSpan { min: (lo - o) as usize, count: (hi - lo) as usize }
}

/// The uniform origin sequence `0, extent, 2 * extent, ...` of `n` tiles.
pub open spec fn uniform_origins(n: int, extent: int) -> Seq<int> {
    Seq::new(n as nat, |t: int| t * extent)
}

/// The origin sequence of a boundary-defined axis: zero, then each
/// boundary.
pub open spec fn boundary_origins(offsets: Seq<usize>) -> Seq<int> {
    seq![0int] + offsets.map_values(|v: usize| v as int)
}

// Ordering facts about a well-formed axis.
/// Origins are sorted: an earlier tile starts strictly below a later one.
pub proof fn lemma_axis_sorted(origins: Seq<int>, i: int, j: int)
    requires
        forall|k: int| 0 <= k < origins.len() - 1 ==> #[trigger] origins[k] < origins[k + 1],
        0 <= i <= j < origins.len(),
    ensures
        origins[i] <= origins[j],
        i < j ==> origins[i] < origins[j],
    decreases j - i,
{
    if i < j {
        lemma_axis_sorted(origins, i, j - 1);
    }
}

/// The owning tile index lies inside the axis.
pub proof fn lemma_axis_tile_of_in_range(origins: Seq<int>, x: int)
    ensures
        0 <= axis_tile_of(origins, x) < origins.len() || origins.len() == 0,
    decreases origins.len(),
{
    if origins.len() > 1 && x < origins[origins.len() - 1] {
        lemma_axis_tile_of_in_range(origins.drop_last(), x);
    }
}

/// The owning tile really covers `x`: its origin lies at or below `x`, and
/// `x` lies strictly below its upper bound.
pub proof fn lemma_axis_tile_of_covers(origins: Seq<int>, total: int, x: int)
    requires
        axis_wf(origins, total),
        0 <= x < total,
    ensures
        0 <= axis_tile_of(origins, x) < origins.len(),
        origins[axis_tile_of(origins, x)] <= x,
        x < axis_upper(origins, total, axis_tile_of(origins, x)),
    decreases origins.len(),
{
    lemma_axis_tile_of_in_range(origins, x);
    if origins.len() <= 1 {
    } else if x >= origins[origins.len() - 1] {
    } else {
        let prefix = origins.drop_last();
        assert(axis_wf(prefix, origins[origins.len() - 1])) by {
            assert(prefix.len() == origins.len() - 1);
            assert(prefix[0] == origins[0]);
            assert(forall|i: int|
                0 <= i < prefix.len() - 1 ==> #[trigger] prefix[i] < prefix[i + 1]) by {
                assert(forall|i: int|
                    0 <= i < prefix.len() - 1 ==> #[trigger] prefix[i] == origins[i] && prefix[i
                        + 1] == origins[i + 1]);
            }
        }
        lemma_axis_tile_of_covers(prefix, origins[origins.len() - 1], x);
        let t = axis_tile_of(prefix, x);
        assert(axis_tile_of(origins, x) == t);
        assert(origins[t] == prefix[t]);
        assert(axis_upper(prefix, origins[origins.len() - 1], t) == axis_upper(
            origins,
            total,
            t,
        )) by {
            if t + 1 < prefix.len() {
                assert(prefix[t + 1] == origins[t + 1]);
            }
        }
    }
}

/// Owning tiles follow the order of positions.
pub proof fn lemma_axis_tile_of_monotone(origins: Seq<int>, x: int, y: int)
    requires
        x <= y,
    ensures
        axis_tile_of(origins, x) <= axis_tile_of(origins, y),
    decreases origins.len(),
{
    if origins.len() <= 1 {
    } else if x >= origins[origins.len() - 1] {
    } else if y >= origins[origins.len() - 1] {
        lemma_axis_tile_of_in_range(origins.drop_last(), x);
    } else {
        lemma_axis_tile_of_monotone(origins.drop_last(), x, y);
    }
}

/// On a uniform axis, the owning tile is found by integer division.
pub proof fn lemma_uniform_tile_of(n: int, extent: int, x: int)
    requires
        n >= 1,
        extent > 0,
        0 <= x < n * extent,
    ensures
        axis_tile_of(uniform_origins(n, extent), x) == x / extent,
    decreases n,
{
    let origins = uniform_origins(n, extent);
    if n == 1 {
        assert(x / extent == 0) by (nonlinear_arith)
            requires
                0 <= x < 1 * extent,
                extent > 0,
        ;
    } else {
        assert(origins[n - 1] == (n - 1) * extent);
        if x >= (n - 1) * extent {
            assert(axis_tile_of(origins, x) == n - 1);
            assert(x / extent == n - 1) by (nonlinear_arith)
                requires
                    extent > 0,
                    (n - 1) * extent <= x < n * extent,
            ;
        } else {
            assert(origins.drop_last() =~= uniform_origins(n - 1, extent));
            lemma_uniform_tile_of(n - 1, extent, x);
        }
    }
}

/// On a boundary-defined axis, the owning tile is the number of boundaries
/// at or below the position.
pub proof fn lemma_boundary_tile_of(offsets: Seq<usize>, x: int, r: int)
    requires
        0 <= r <= offsets.len(),
        forall|i: int| 0 <= i < r ==> #[trigger] offsets[i] <= x,
        forall|i: int| r <= i < offsets.len() ==> #[trigger] offsets[i] > x,
    ensures
        axis_tile_of(boundary_origins(offsets), x) == r,
    decreases offsets.len(),
{
    let origins = boundary_origins(offsets);
    assert(origins.len() == offsets.len() + 1);
    if offsets.len() == 0 {
    } else {
        assert(origins[origins.len() - 1] == offsets[offsets.len() - 1]);
        if x >= offsets[offsets.len() - 1] {
            assert(r == offsets.len()) by {
                if r < offsets.len() {
                    assert(offsets[offsets.len() - 1] > x);
                }
            }
        } else {
            assert(r < offsets.len());
            assert(origins.drop_last() =~= boundary_origins(offsets.drop_last()));
            lemma_boundary_tile_of(offsets.drop_last(), x, r);
        }
    }
}

// The shared model of the region intersection algorithm, over two axis
// descriptions. Both grid variants are proved against it.
/// Whether a query rectangle can be decomposed at all: it covers at least
/// one cell and its maximum corner lies inside the space.
pub open spec fn scan_defined(
    row_origins: Seq<int>,
    col_origins: Seq<int>,
    row_total: int,
    col_total: int,
    q: MemSpan2D,
) -> bool {
    &&& q.row_span.count > 0
    &&& q.col_span.count > 0
    &&& q.row_span.spec_max() < row_total
    &&& q.col_span.spec_max() < col_total
}

/// The bounding rectangle of the scan, in tile-index space.
pub open spec fn scan_range(
    row_origins: Seq<int>,
    col_origins: Seq<int>,
    row_total: int,
    col_total: int,
    q: MemSpan2D,
) -> MemSpan2D {
    let rt0 = axis_tile_of(row_origins, q.row_span.min as int);
    let rt1 = axis_tile_of(row_origins, q.row_span.spec_max());
    let ct0 = axis_tile_of(col_origins, q.col_span.min as int);
    let ct1 = axis_tile_of(col_origins, q.col_span.spec_max());
    MemSpan2D {
        row_span: MemSpan { min: rt0 as usize, count: (rt1 + 1 - rt0) as usize },
        col_span: MemSpan { min: ct0 as usize, count: (ct1 + 1 - ct0) as usize },
    }
}

/// The ordered decomposition of a query into per-tile local overlaps:
/// tile-row major over the scan rectangle, each tile contributing the
/// query's overlap rebased to that tile's origin.
pub open spec fn scan_items(
    row_origins: Seq<int>,
    col_origins: Seq<int>,
    row_total: int,
    col_total: int,
    q: MemSpan2D,
) -> Seq<GridIntersection> {
    let rt0 = axis_tile_of(row_origins, q.row_span.min as int);
    let rt1 = axis_tile_of(row_origins, q.row_span.spec_max());
    let ct0 = axis_tile_of(col_origins, q.col_span.min as int);
    let ct1 = axis_tile_of(col_origins, q.col_span.spec_max());
    let w = ct1 + 1 - ct0;
    Seq::new(
        ((rt1 + 1 - rt0) * w) as nat,
        |k: int|
            {
                let tr = rt0 + k / w;
                let tc = ct0 + k % w;
                GridIntersection {
                    grid_index: GridIndex(MemIndex2D { row: tr as usize, col: tc as usize }),
                    intersection: MemSpan2D {
                        row_span: axis_clip_local(
                            row_origins[tr],
                            axis_upper(row_origins, row_total, tr),
                            q.row_span.min as int,
                            q.row_span.spec_upper(),
                        ),
                        col_span: axis_clip_local(
                            col_origins[tc],
                            axis_upper(col_origins, col_total, tc),
                            q.col_span.min as int,
                            q.col_span.spec_upper(),
                        ),
                    },
                }
            },
    )
}

/// A uniform partition: tiles of `row_offset` by `column_offset` cells over
/// a `size` cell space. Where a tile extent does not divide the matching
/// axis, the axis ends with one partial tile of reduced size.
#[derive(Clone, Copy, Debug)]
pub struct MemGrid2D {
    pub size: Size2D,
    pub row_offset: usize,
    pub column_offset: usize,
}

impl MemGrid2D {
    /// Tile extents are positive on both axes.
    pub open spec fn wf(self) -> bool {
        self.row_offset > 0 && self.column_offset > 0
    }

    /// Tiles per row axis: the ceiling of rows over the row tile extent.
    pub open spec fn spec_grid_rows(self) -> int {
        if self.size.row_count == 0 {
            0
        } else {
            (self.size.row_count - 1) / (self.row_offset as int) + 1
        }
    }

    /// Tiles per column axis.
    pub open spec fn spec_grid_cols(self) -> int {
        if self.size.column_count == 0 {
            0
        } else {
            (self.size.column_count - 1) / (self.column_offset as int) + 1
        }
    }

    pub open spec fn spec_row_origins(self) -> Seq<int> {
        uniform_origins(self.spec_grid_rows(), self.row_offset as int)
    }

    pub open spec fn spec_col_origins(self) -> Seq<int> {
        uniform_origins(self.spec_grid_cols(), self.column_offset as int)
    }

    pub fn new(size: Size2D, row_offset: usize, column_offset: usize) -> (r: Self)
        ensures
            r.size == size,
            r.row_offset == row_offset,
            r.column_offset == column_offset,
    {
        MemGrid2D { size, row_offset, column_offset }
    }

    pub fn row_count(&self) -> (r: usize)
        ensures
            r == self.size.row_count,
    {
        self.size.row_count
    }

    pub fn column_count(&self) -> (r: usize)
        ensures
            r == self.size.column_count,
    {
        self.size.column_count
    }

    pub fn size(&self) -> (r: Size2D)
        ensures
            r == self.size,
    {
        self.size
    }

    pub fn max_row(&self) -> (r: Option<usize>)
        ensures
            match r {
                Some(m) => self.size.row_count > 0 && m == self.size.row_count - 1,
                None => self.size.row_count == 0,
            },
    {
        self.size.max_row()
    }

    pub fn max_col(&self) -> (r: Option<usize>)
        ensures
            match r {
                Some(m) => self.size.column_count > 0 && m == self.size.column_count - 1,
                None => self.size.column_count == 0,
            },
    {
        self.size.max_col()
    }

    pub fn grid_row_count(&self) -> (r: usize)
        requires
            self.wf(),
        ensures
            r == self.spec_grid_rows(),
    {
        if self.size.row_count == 0 {
            0
        } else {
            (self.size.row_count - 1) / self.row_offset + 1
        }
    }

    pub fn grid_column_count(&self) -> (r: usize)
        requires
            self.wf(),
        ensures
            r == self.spec_grid_cols(),
    {
        if self.size.column_count == 0 {
            0
        } else {
            (self.size.column_count - 1) / self.column_offset + 1
        }
    }

    /// The tile-grid extents: tiles per row axis by tiles per column axis.
    pub fn grid_size(&self) -> (r: Size2D)
        requires
            self.wf(),
        ensures
            r.row_count == self.spec_grid_rows(),
            r.column_count == self.spec_grid_cols(),
    {
        Size2D::new(self.grid_row_count(), self.grid_column_count())
    }

    pub fn grid_index_in_bounds(&self, grid_index: &GridIndex) -> (r: bool)
        requires
            self.wf(),
        ensures
            r == (grid_index.0.row < self.spec_grid_rows() && grid_index.0.col
                < self.spec_grid_cols()),
    {
        let gs = self.grid_size();
        gs.index2d_in_bounds(&grid_index.index2d())
    }

    /// The tile row owning a cell row: integer division by the row tile
    /// extent; `None` outside the cell space.
    pub fn row_index_to_grid_row_index(&self, row_index: usize) -> (r: Option<usize>)
        requires
            self.wf(),
        ensures
            match r {
                Some(t) => row_index < self.size.row_count && t == row_index as int
                    / self.row_offset as int,
                None => row_index >= self.size.row_count,
            },
    {
        if row_index >= self.row_count() {
            return None;
        }
        Some(row_index / self.row_offset)
    }

    pub fn column_index_to_grid_column_index(&self, column_index: usize) -> (r: Option<usize>)
        requires
            self.wf(),
        ensures
            match r {
                Some(t) => column_index < self.size.column_count && t == column_index as int
                    / self.column_offset as int,
                None => column_index >= self.size.column_count,
            },
    {
        if column_index >= self.column_count() {
            return None;
        }
        Some(column_index / self.column_offset)
    }

    /// The first cell row of a tile row; `None` outside the tile grid.
    pub fn grid_row_index_to_row_index(&self, grid_row_index: usize) -> (r: Option<usize>)
        requires
            self.wf(),
        ensures
            match r {
                Some(o) => grid_row_index < self.spec_grid_rows() && o == grid_row_index as int
                    * self.row_offset as int,
                None => grid_row_index >= self.spec_grid_rows(),
            },
    {
        if grid_row_index >= self.grid_row_count() {
            return None;
        }
        proof {
            Self::lemma_origin_below_total(
                self.size.row_count as int,
                self.row_offset as int,
                grid_row_index as int,
            );
        }
        Some(grid_row_index * self.row_offset)
    }

    pub fn grid_column_index_to_column_index(&self, grid_column_index: usize) -> (r: Option<
        usize,
    >)
        requires
            self.wf(),
        ensures
            match r {
                Some(o) => grid_column_index < self.spec_grid_cols() && o == grid_column_index
                    as int * self.column_offset as int,
                None => grid_column_index >= self.spec_grid_cols(),
            },
    {
        if grid_column_index >= self.grid_column_count() {
            return None;
        }
        proof {
            Self::lemma_origin_below_total(
                self.size.column_count as int,
                self.column_offset as int,
                grid_column_index as int,
            );
        }
        Some(grid_column_index * self.column_offset)
    }

    /// A tile origin lies strictly inside the axis.
    proof fn lemma_origin_below_total(total: int, extent: int, t: int)
        requires
            extent > 0,
            total > 0,
            0 <= t <= (total - 1) / extent,
        ensures
            t * extent <= ((total - 1) / extent) * extent <= total - 1,
    {
        assert(t * extent <= ((total - 1) / extent) * extent) by (nonlinear_arith)
            requires
                extent > 0,
                0 <= t <= (total - 1) / extent,
        ;
        assert(((total - 1) / extent) * extent <= total - 1) by (nonlinear_arith)
            requires
                extent > 0,
                total > 0,
        ;
    }

    /// The tile owning a cell coordinate; `None` outside the cell space.
    pub fn index2d_to_grid_index(&self, index2d: &MemIndex2D) -> (r: Option<GridIndex>)
        requires
            self.wf(),
        ensures
            match r {
                Some(g) => {
                    &&& index2d.row < self.size.row_count
                    &&& index2d.col < self.size.column_count
                    &&& g.0.row == index2d.row as int / self.row_offset as int
                    &&& g.0.col == index2d.col as int / self.column_offset as int
                },
                None => index2d.row >= self.size.row_count || index2d.col
                    >= self.size.column_count,
            },
    {
        let row_index = match self.row_index_to_grid_row_index(index2d.row) {
            Some(t) => t,
            None => {
                return None;
            },
        };
        let column_index = match self.column_index_to_grid_column_index(index2d.col) {
            Some(t) => t,
            None => {
                return None;
            },
        };
        Some(GridIndex::new(row_index, column_index))
    }

    /// The origin cell of a tile; `None` outside the tile grid.
    pub fn grid_index_to_index2d(&self, grid_index: &GridIndex) -> (r: Option<MemIndex2D>)
        requires
            self.wf(),
        ensures
            match r {
                Some(i) => {
                    &&& grid_index.0.row < self.spec_grid_rows()
                    &&& grid_index.0.col < self.spec_grid_cols()
                    &&& i.row == grid_index.0.row as int * self.row_offset as int
                    &&& i.col == grid_index.0.col as int * self.column_offset as int
                },
                None => grid_index.0.row >= self.spec_grid_rows() || grid_index.0.col
                    >= self.spec_grid_cols(),
            },
    {
        let row_index = match self.grid_row_index_to_row_index(grid_index.row()) {
            Some(o) => o,
            None => {
                return None;
            },
        };
        let column_index = match self.grid_column_index_to_column_index(grid_index.col()) {
            Some(o) => o,
            None => {
                return None;
            },
        };
        Some(MemIndex2D::new(row_index, column_index))
    }

    /// A cell coordinate rebased to a tile's origin; `None` when the tile
    /// lies outside the tile grid or either rebased component would be
    /// negative.
    pub fn index2d_relative_to_grid(&self, cell_index2d: &MemIndex2D, grid_index: &GridIndex) -> (r:
        Option<MemIndex2D>)
        requires
            self.wf(),
        ensures
            match r {
                Some(i) => {
                    &&& grid_index.0.row < self.spec_grid_rows()
                    &&& grid_index.0.col < self.spec_grid_cols()
                    &&& i.row == cell_index2d.row - grid_index.0.row * self.row_offset
                    &&& i.col == cell_index2d.col - grid_index.0.col * self.column_offset
                    &&& i.row >= 0 && i.col >= 0
                },
                None => grid_index.0.row >= self.spec_grid_rows() || grid_index.0.col
                    >= self.spec_grid_cols() || cell_index2d.row < grid_index.0.row
                    * self.row_offset || cell_index2d.col < grid_index.0.col * self.column_offset,
            },
    {
        let grid_row = match self.grid_row_index_to_row_index(grid_index.row()) {
            Some(o) => o,
            None => {
                return None;
            },
        };
        let grid_col = match self.grid_column_index_to_column_index(grid_index.col()) {
            Some(o) => o,
            None => {
                return None;
            },
        };
        let row = match cell_index2d.row.checked_sub(grid_row) {
            Some(v) => v,
            None => {
                return None;
            },
        };
        let col = match cell_index2d.col.checked_sub(grid_col) {
            Some(v) => v,
            None => {
                return None;
            },
        };
        Some(MemIndex2D { row, col })
    }

    /// A tile's full extent in cell space: from its origin up to the next
    /// tile's origin, or the grid's outer boundary for the last tile on an
    /// axis.
    pub fn grid_index_span2d(&self, grid_index: &GridIndex) -> (r: Option<MemSpan2D>)
        requires
            self.wf(),
        ensures
            match r {
                Some(s) => {
                    &&& grid_index.0.row < self.spec_grid_rows()
                    &&& grid_index.0.col < self.spec_grid_cols()
                    &&& s.row_span.min == self.spec_row_origins()[grid_index.0.row as int]
                    &&& s.row_span.spec_upper() == axis_upper(
                        self.spec_row_origins(),
                        self.size.row_count as int,
                        grid_index.0.row as int,
                    )
                    &&& s.col_span.min == self.spec_col_origins()[grid_index.0.col as int]
                    &&& s.col_span.spec_upper() == axis_upper(
                        self.spec_col_origins(),
                        self.size.column_count as int,
                        grid_index.0.col as int,
                    )
                    &&& s.wf()
                },
                None => grid_index.0.row >= self.spec_grid_rows() || grid_index.0.col
                    >= self.spec_grid_cols(),
            },
    {
        let min_index2d = match self.grid_index_to_index2d(grid_index) {
            Some(i) => i,
            None => {
                return None;
            },
        };
        let grid_rows = self.grid_row_count();
        let grid_cols = self.grid_column_count();
        let upper_row_bound: usize = if grid_index.row() + 1 < grid_rows {
            match self.grid_row_index_to_row_index(grid_index.row() + 1) {
                Some(o) => o,
                None => {
                    return None;
                },
            }
        } else {
            self.row_count()
        };
        let upper_col_bound: usize = if grid_index.col() + 1 < grid_cols {
            match self.grid_column_index_to_column_index(grid_index.col() + 1) {
                Some(o) => o,
                None => {
                    return None;
                },
            }
        } else {
            self.column_count()
        };
        proof {
            Self::lemma_origin_below_total(
                self.size.row_count as int,
                self.row_offset as int,
                grid_index.0.row as int,
            );
            Self::lemma_origin_below_total(
                self.size.column_count as int,
                self.column_offset as int,
                grid_index.0.col as int,
            );
            assert(grid_index.0.row as int * self.row_offset as int <= upper_row_bound as int)
                by (nonlinear_arith)
                requires
                    self.row_offset > 0,
                    upper_row_bound as int == if grid_index.0.row + 1 < self.spec_grid_rows() {
                        (grid_index.0.row + 1) * self.row_offset as int
                    } else {
                        self.size.row_count as int
                    },
                    grid_index.0.row as int * self.row_offset as int <= self.size.row_count,
                    grid_index.0.row < self.spec_grid_rows(),
            ;
            assert(grid_index.0.col as int * self.column_offset as int <= upper_col_bound as int)
                by (nonlinear_arith)
                requires
                    self.column_offset > 0,
                    upper_col_bound as int == if grid_index.0.col + 1 < self.spec_grid_cols() {
                        (grid_index.0.col + 1) * self.column_offset as int
                    } else {
                        self.size.column_count as int
                    },
                    grid_index.0.col as int * self.column_offset as int <= self.size.column_count,
                    grid_index.0.col < self.spec_grid_cols(),
            ;
        }
        let upper_bound_index2d = MemIndex2D::new(upper_row_bound, upper_col_bound);
        Some(MemSpan2D::new_from_index2d(min_index2d, upper_bound_index2d))
    }

    /// A uniform axis over a non-empty total is a well-formed axis
    /// description, and the total lies within the tiles it spans.
    pub proof fn lemma_uniform_axis_wf(total: int, extent: int)
        requires
            total > 0,
            extent > 0,
        ensures
            axis_wf(uniform_origins((total - 1) / extent + 1, extent), total),
            total <= ((total - 1) / extent + 1) * extent,
    {
        let n = (total - 1) / extent + 1;
        let origins = uniform_origins(n, extent);
        assert(n >= 1) by (nonlinear_arith)
            requires
                total > 0,
                extent > 0,
                n == (total - 1) / extent + 1,
        ;
        assert(origins[0] == 0 * extent);
        assert(forall|i: int|
            0 <= i < origins.len() - 1 ==> #[trigger] origins[i] < origins[i + 1]) by {
            assert forall|i: int|
                0 <= i < origins.len() - 1 implies #[trigger] origins[i] < origins[i + 1] by {
                assert(i * extent < (i + 1) * extent) by (nonlinear_arith)
                    requires
                        extent > 0,
                ;
            }
        }
        assert(origins[n - 1] == (n - 1) * extent);
        assert((n - 1) * extent <= total - 1) by (nonlinear_arith)
            requires
                extent > 0,
                total > 0,
                n == (total - 1) / extent + 1,
        ;
        assert(total <= n * extent) by (nonlinear_arith)
            requires
                extent > 0,
                total > 0,
                n == (total - 1) / extent + 1,
        ;
    }

    /// Decompose a query rectangle into the ordered list of per-tile local
    /// overlaps, together with the tile-index bounding rectangle of the
    /// scan; `None` when the query covers no cell or pokes outside the cell
    /// space.
    #[verifier::loop_isolation(false)]
    #[verifier::rlimit(100)]
    #[verifier::spinoff_prover]
    pub fn grid_intersections(&self, span2d: &MemSpan2D) -> (r: Option<
        (GridRange2D, Vec<GridIntersection>),
    >)
        requires
            self.wf(),
            span2d.wf(),
        ensures
            match r {
                Some(p) => {
                    &&& scan_defined(
                        self.spec_row_origins(),
                        self.spec_col_origins(),
                        self.size.row_count as int,
                        self.size.column_count as int,
                        *span2d,
                    )
                    &&& p.0.0 == scan_range(
                        self.spec_row_origins(),
                        self.spec_col_origins(),
                        self.size.row_count as int,
                        self.size.column_count as int,
                        *span2d,
                    )
                    &&& p.1@ == scan_items(
                        self.spec_row_origins(),
                        self.spec_col_origins(),
                        self.size.row_count as int,
                        self.size.column_count as int,
                        *span2d,
                    )
                },
                None => !scan_defined(
                    self.spec_row_origins(),
                    self.spec_col_origins(),
                    self.size.row_count as int,
                    self.size.column_count as int,
                    *span2d,
                ),
            },
    {
        let ghost ro_seq = self.spec_row_origins();
        let ghost co_seq = self.spec_col_origins();
        let ghost rr = self.size.row_count as int;
        let ghost cc = self.size.column_count as int;
        let min_gi = match self.index2d_to_grid_index(&span2d.min_absolute_index2d()) {
            Some(g) => g,
            None => {
                return None;
            },
        };
        let max_corner = match span2d.max_absolute_index2d() {
            Some(m) => m,
            None => {
                return None;
            },
        };
        let max_gi = match self.index2d_to_grid_index(&max_corner) {
            Some(g) => g,
            None => {
                return None;
            },
        };
        let ghost qrmin = span2d.row_span.min as int;
        let ghost qrmax = span2d.row_span.spec_max();
        let ghost qcmin = span2d.col_span.min as int;
        let ghost qcmax = span2d.col_span.spec_max();
        proof {
            Self::lemma_uniform_axis_wf(rr, self.row_offset as int);
            Self::lemma_uniform_axis_wf(cc, self.column_offset as int);
            lemma_uniform_tile_of(self.spec_grid_rows(), self.row_offset as int, qrmin);
            lemma_uniform_tile_of(self.spec_grid_rows(), self.row_offset as int, qrmax);
            lemma_uniform_tile_of(self.spec_grid_cols(), self.column_offset as int, qcmin);
            lemma_uniform_tile_of(self.spec_grid_cols(), self.column_offset as int, qcmax);
            lemma_scan_corners(ro_seq, rr, qrmin, qrmax);
            lemma_scan_corners(co_seq, cc, qcmin, qcmax);
        }
        let rt0 = min_gi.row();
        let rt1 = max_gi.row();
        let ct0 = min_gi.col();
        let ct1 = max_gi.col();
        assert(rt0 == axis_tile_of(ro_seq, qrmin) && rt1 == axis_tile_of(ro_seq, qrmax));
        assert(ct0 == axis_tile_of(co_seq, qcmin) && ct1 == axis_tile_of(co_seq, qcmax));
        let w = ct1 - ct0 + 1;
        let ghost sitems = scan_items(ro_seq, co_seq, rr, cc, *span2d);
        assert(sitems.len() == (rt1 + 1 - rt0) * (w as int));
        let mut items: Vec<GridIntersection> = Vec::new();
        let mut tr = rt0;
        while tr <= rt1
            invariant
                rt0 <= tr <= rt1 + 1,
                items@ == sitems.take((tr - rt0) * (w as int)),
            decreases rt1 + 1 - tr,
        {
            let mut tc = ct0;
            proof {
                assert((tr - rt0) * (w as int) + (tc - ct0) == (tr - rt0) * (w as int));
            }
            while tc <= ct1
                invariant
                    ct0 <= tc <= ct1 + 1,
                    rt0 <= tr <= rt1,
                    items@ == sitems.take((tr - rt0) * (w as int) + (tc - ct0)),
                decreases ct1 + 1 - tc,
            {
                proof {
                    lemma_scan_tile(ro_seq, rr, qrmin, qrmax, tr as int);
                    lemma_scan_tile(co_seq, cc, qcmin, qcmax, tc as int);
                }
                let gi = GridIndex::new(tr, tc);
                let cur = match self.grid_index_span2d(&gi) {
                    Some(s) => s,
                    None => {
                        proof {
                            assert(false);
                        }
                        return None;
                    },
                };
                proof {
                    lemma_axis_clip(
                        ro_seq,
                        rr,
                        span2d.row_span.min,
                        span2d.row_span.count,
                        tr as int,
                        cur.row_span,
                    );
                    lemma_axis_clip(
                        co_seq,
                        cc,
                        span2d.col_span.min,
                        span2d.col_span.count,
                        tc as int,
                        cur.col_span,
                    );
                }
                let inter = match cur.intersect(span2d) {
                    Some(s) => s,
                    None => {
                        proof {
                            assert(false);
                        }
                        return None;
                    },
                };
                let local_row = match inter.row_span.shift_down_checked(cur.row_span.min) {
                    Some(s) => s,
                    None => {
                        proof {
                            assert(false);
                        }
                        return None;
                    },
                };
                let local_col = match inter.col_span.shift_down_checked(cur.col_span.min) {
                    Some(s) => s,
                    None => {
                        proof {
                            assert(false);
                        }
                        return None;
                    },
                };
                let item = GridIntersection {
                    grid_index: gi,
                    intersection: MemSpan2D { row_span: local_row, col_span: local_col },
                };
                items.push(item);
                proof {
                    let a = tr - rt0;
                    let b = tc - ct0;
                    let k = a * (w as int) + b;
                    lemma_scan_encode(a, b, w as int);
                    assert(k < sitems.len() as int) by (nonlinear_arith)
                        requires
                            sitems.len() == (rt1 + 1 - rt0) * (w as int),
                            k == a * (w as int) + b,
                            0 <= a <= rt1 - rt0,
                            0 <= b < w as int,
                    ;
                    assert(sitems[k] == item);
                    assert(items@ =~= sitems.take(k + 1));
                }
                tc = tc + 1;
            }
            proof {
                assert((tr - rt0) * (w as int) + (ct1 + 1 - ct0) == (tr + 1 - rt0) * (w as int))
                    by (nonlinear_arith)
                    requires
                        w as int == ct1 + 1 - ct0,
                ;
            }
            tr = tr + 1;
        }
        let range = GridRange2D(
            MemSpan2D::new_from_index2d(
                min_gi.index2d(),
                MemIndex2D { row: rt1 + 1, col: ct1 + 1 },
            ),
        );
        proof {
            assert(items@ =~= sitems);
        }
        Some((range, items))
    }
}

/// A well-formed boundary list for one axis: strictly ascending interior
/// cut positions.
pub open spec fn axis_offsets_wf(offsets: Seq<usize>, total: usize) -> bool {
    &&& forall|i: int| 0 <= i < offsets.len() - 1 ==> #[trigger] offsets[i] < offsets[i + 1]
    &&& forall|i: int| 0 <= i < offsets.len() ==> 0 < #[trigger] offsets[i] < total
}

/// A strictly ascending interior boundary list has each value at or above
/// its position plus one, so it is shorter than the axis.
pub proof fn lemma_offsets_len(offsets: Seq<usize>, total: usize)
    requires
        axis_offsets_wf(offsets, total),
    ensures
        offsets.len() == 0 || offsets.len() < total,
        forall|i: int| 0 <= i < offsets.len() ==> i + 1 <= #[trigger] offsets[i],
    decreases offsets.len(),
{
    if offsets.len() > 0 {
        let prefix = offsets.drop_last();
        assert(axis_offsets_wf(prefix, total)) by {
            assert(forall|i: int|
                0 <= i < prefix.len() ==> #[trigger] prefix[i] == offsets[i]);
        }
        lemma_offsets_len(prefix, total);
        assert forall|i: int| 0 <= i < offsets.len() implies i + 1 <= #[trigger] offsets[i] by {
            if i < offsets.len() - 1 {
                assert(prefix[i] == offsets[i]);
            } else if offsets.len() >= 2 {
                assert(prefix[offsets.len() - 2] == offsets[offsets.len() - 2]);
                assert(offsets[offsets.len() - 2] < offsets[offsets.len() - 1]);
            }
        }
        assert(offsets.len() <= offsets[offsets.len() - 1] < total);
    }
}

/// A well-formed boundary list over a non-empty axis gives a well-formed
/// origin sequence.
pub proof fn lemma_boundary_axis_wf(offsets: Seq<usize>, total: usize)
    requires
        axis_offsets_wf(offsets, total),
        total > 0,
    ensures
        axis_wf(boundary_origins(offsets), total as int),
{
    let origins = boundary_origins(offsets);
    assert(origins.len() == offsets.len() + 1);
    assert(origins[0] == 0);
    assert(forall|i: int|
        0 <= i < origins.len() - 1 ==> #[trigger] origins[i] < origins[i + 1]) by {
        assert(forall|i: int|
            1 <= i < origins.len() ==> #[trigger] origins[i] == offsets[i - 1]);
    }
    if offsets.len() > 0 {
        assert(origins[origins.len() - 1] == offsets[offsets.len() - 1]);
    }
}

/// An irregular partition: tiles bounded by explicit sorted interior cut
/// positions on each axis. Tile count per axis is the boundary count plus
/// one.
#[derive(Clone, Debug)]
pub struct NonUniformMemGrid2D {
    pub size: Size2D,
    pub row_offsets: Vec<usize>,
    pub column_offsets: Vec<usize>,
}

impl NonUniformMemGrid2D {
    /// Both boundary lists are strictly ascending interior cut positions.
    pub open spec fn wf(self) -> bool {
        axis_offsets_wf(self.row_offsets@, self.size.row_count) && axis_offsets_wf(
            self.column_offsets@,
            self.size.column_count,
        )
    }

    pub open spec fn spec_grid_rows(self) -> int {
        self.row_offsets@.len() as int + 1
    }

    pub open spec fn spec_grid_cols(self) -> int {
        self.column_offsets@.len() as int + 1
    }

    pub open spec fn spec_row_origins(self) -> Seq<int> {
        boundary_origins(self.row_offsets@)
    }

    pub open spec fn spec_col_origins(self) -> Seq<int> {
        boundary_origins(self.column_offsets@)
    }

    pub fn new(size: Size2D, row_offsets: Vec<usize>, column_offsets: Vec<usize>) -> (r: Self)
        ensures
            r.size == size,
            r.row_offsets == row_offsets,
            r.column_offsets == column_offsets,
    {
        NonUniformMemGrid2D { size, row_offsets, column_offsets }
    }

    pub fn row_count(&self) -> (r: usize)
        ensures
            r == self.size.row_count,
    {
        self.size.row_count
    }

    pub fn column_count(&self) -> (r: usize)
        ensures
            r == self.size.column_count,
    {
        self.size.column_count
    }

    pub fn size(&self) -> (r: Size2D)
        ensures
            r == self.size,
    {
        self.size
    }

    pub fn max_row(&self) -> (r: Option<usize>)
        ensures
            match r {
                Some(m) => self.size.row_count > 0 && m == self.size.row_count - 1,
                None => self.size.row_count == 0,
            },
    {
        self.size.max_row()
    }

    pub fn max_col(&self) -> (r: Option<usize>)
        ensures
            match r {
                Some(m) => self.size.column_count > 0 && m == self.size.column_count - 1,
                None => self.size.column_count == 0,
            },
    {
        self.size.max_col()
    }

    pub fn grid_row_count(&self) -> (r: usize)
        requires
            self.wf(),
        ensures
            r == self.spec_grid_rows(),
    {
        proof {
            lemma_offsets_len(self.row_offsets@, self.size.row_count);
        }
        self.row_offsets.len() + 1
    }

    pub fn grid_column_count(&self) -> (r: usize)
        requires
            self.wf(),
        ensures
            r == self.spec_grid_cols(),
    {
        proof {
            lemma_offsets_len(self.column_offsets@, self.size.column_count);
        }
        self.column_offsets.len() + 1
    }

    /// The tile-grid extents: tiles per row axis by tiles per column axis.
    pub fn grid_size(&self) -> (r: Size2D)
        requires
            self.wf(),
        ensures
            r.row_count == self.spec_grid_rows(),
            r.column_count == self.spec_grid_cols(),
    {
        Size2D::new(self.grid_row_count(), self.grid_column_count())
    }

    pub fn grid_index_in_bounds(&self, grid_index: &GridIndex) -> (r: bool)
        requires
            self.wf(),
        ensures
            r == (grid_index.0.row < self.spec_grid_rows() && grid_index.0.col
                < self.spec_grid_cols()),
    {
        let gs = self.grid_size();
        gs.index2d_in_bounds(&grid_index.index2d())
    }

    /// Binary search for the tile owning a position: the number of
    /// boundaries at or below it.
    fn index_search(indexes: &Vec<usize>, search_for: usize) -> (r: usize)
        requires
            forall|i: int|
                0 <= i < indexes@.len() - 1 ==> #[trigger] indexes@[i] < indexes@[i + 1],
        ensures
            0 <= r <= indexes@.len(),
            forall|i: int| 0 <= i < r ==> #[trigger] indexes@[i] <= search_for,
            forall|i: int| r <= i < indexes@.len() ==> #[trigger] indexes@[i] > search_for,
    {
        let mut lo: usize = 0;
        let mut hi: usize = indexes.len();
        while lo < hi
            invariant
                0 <= lo <= hi <= indexes@.len(),
                forall|i: int|
                    0 <= i < indexes@.len() - 1 ==> #[trigger] indexes@[i] < indexes@[i + 1],
                forall|i: int| 0 <= i < lo ==> #[trigger] indexes@[i] <= search_for,
                forall|i: int| hi <= i < indexes@.len() ==> #[trigger] indexes@[i] > search_for,
            decreases hi - lo,
        {
            let mid = lo + (hi - lo) / 2;
            if indexes[mid] <= search_for {
                proof {
                    assert forall|i: int| 0 <= i <= mid implies #[trigger] indexes@[i]
                        <= search_for by {
                        lemma_axis_usort(indexes@, i, mid as int);
                    }
                }
                lo = mid + 1;
            } else {
                proof {
                    assert forall|i: int| mid <= i < indexes@.len() implies #[trigger] indexes@[i]
                        > search_for by {
                        lemma_axis_usort(indexes@, mid as int, i);
                    }
                }
                hi = mid;
            }
        }
        lo
    }

    /// The tile row owning a cell row, by binary search over the row
    /// boundaries; a cell row equal to a boundary belongs to the tile
    /// starting there. `None` outside the cell space.
    pub fn row_index_to_grid_row_index(&self, cell_row_index: usize) -> (r: Option<usize>)
        requires
            self.wf(),
        ensures
            match r {
                Some(t) => cell_row_index < self.size.row_count && t == axis_tile_of(
                    self.spec_row_origins(),
                    cell_row_index as int,
                ),
                None => cell_row_index >= self.size.row_count,
            },
    {
        if cell_row_index >= self.row_count() {
            return None;
        }
        let t = Self::index_search(&self.row_offsets, cell_row_index);
        proof {
            lemma_boundary_tile_of(self.row_offsets@, cell_row_index as int, t as int);
        }
        Some(t)
    }

    pub fn column_index_to_grid_column_index(&self, cell_column_index: usize) -> (r: Option<
        usize,
    >)
        requires
            self.wf(),
        ensures
            match r {
                Some(t) => cell_column_index < self.size.column_count && t == axis_tile_of(
                    self.spec_col_origins(),
                    cell_column_index as int,
                ),
                None => cell_column_index >= self.size.column_count,
            },
    {
        if cell_column_index >= self.column_count() {
            return None;
        }
        let t = Self::index_search(&self.column_offsets, cell_column_index);
        proof {
            lemma_boundary_tile_of(self.column_offsets@, cell_column_index as int, t as int);
        }
        Some(t)
    }

    /// The first cell row of a tile row: zero for the first tile, else the
    /// boundary that starts it. `None` outside the tile grid.
    pub fn grid_row_index_to_row_index(&self, grid_row_index: usize) -> (r: Option<usize>)
        requires
            self.wf(),
        ensures
            match r {
                Some(o) => grid_row_index < self.spec_grid_rows() && o
                    == self.spec_row_origins()[grid_row_index as int],
                None => grid_row_index >= self.spec_grid_rows(),
            },
    {
        if grid_row_index >= self.grid_row_count() {
            return None;
        }
        if grid_row_index == 0 {
            Some(0)
        } else {
            Some(self.row_offsets[grid_row_index - 1])
        }
    }

    pub fn grid_column_index_to_column_index(&self, grid_column_index: usize) -> (r: Option<
        usize,
    >)
        requires
            self.wf(),
        ensures
            match r {
                Some(o) => grid_column_index < self.spec_grid_cols() && o
                    == self.spec_col_origins()[grid_column_index as int],
                None => grid_column_index >= self.spec_grid_cols(),
            },
    {
        if grid_column_index >= self.grid_column_count() {
            return None;
        }
        if grid_column_index == 0 {
            Some(0)
        } else {
            Some(self.column_offsets[grid_column_index - 1])
        }
    }

    /// The tile owning a cell coordinate; `None` outside the cell space.
    pub fn index2d_to_grid_index(&self, index2d: &MemIndex2D) -> (r: Option<GridIndex>)
        requires
            self.wf(),
        ensures
            match r {
                Some(g) => {
                    &&& index2d.row < self.size.row_count
                    &&& index2d.col < self.size.column_count
                    &&& g.0.row == axis_tile_of(self.spec_row_origins(), index2d.row as int)
                    &&& g.0.col == axis_tile_of(self.spec_col_origins(), index2d.col as int)
                },
                None => index2d.row >= self.size.row_count || index2d.col
                    >= self.size.column_count,
            },
    {
        let row_index = match self.row_index_to_grid_row_index(index2d.row) {
            Some(t) => t,
            None => {
                return None;
            },
        };
        let column_index = match self.column_index_to_grid_column_index(index2d.col) {
            Some(t) => t,
            None => {
                return None;
            },
        };
        Some(GridIndex::new(row_index, column_index))
    }

    /// The origin cell of a tile; `None` outside the tile grid.
    pub fn grid_index_to_index2d(&self, grid_index: &GridIndex) -> (r: Option<MemIndex2D>)
        requires
            self.wf(),
        ensures
            match r {
                Some(i) => {
                    &&& grid_index.0.row < self.spec_grid_rows()
                    &&& grid_index.0.col < self.spec_grid_cols()
                    &&& i.row == self.spec_row_origins()[grid_index.0.row as int]
                    &&& i.col == self.spec_col_origins()[grid_index.0.col as int]
                },
                None => grid_index.0.row >= self.spec_grid_rows() || grid_index.0.col
                    >= self.spec_grid_cols(),
            },
    {
        let row_index = match self.grid_row_index_to_row_index(grid_index.row()) {
            Some(o) => o,
            None => {
                return None;
            },
        };
        let column_index = match self.grid_column_index_to_column_index(grid_index.col()) {
            Some(o) => o,
            None => {
                return None;
            },
        };
        Some(MemIndex2D::new(row_index, column_index))
    }

    /// A cell coordinate rebased to a tile's origin; `None` when the tile
    /// lies outside the tile grid or either rebased component would be
    /// negative.
    pub fn index2d_relative_to_grid(&self, cell_index2d: &MemIndex2D, grid_index: &GridIndex) -> (r:
        Option<MemIndex2D>)
        requires
            self.wf(),
        ensures
            match r {
                Some(i) => {
                    &&& grid_index.0.row < self.spec_grid_rows()
                    &&& grid_index.0.col < self.spec_grid_cols()
                    &&& i.row == cell_index2d.row - self.spec_row_origins()[grid_index.0.row as int]
                    &&& i.col == cell_index2d.col - self.spec_col_origins()[grid_index.0.col as int]
                    &&& i.row >= 0 && i.col >= 0
                },
                None => grid_index.0.row >= self.spec_grid_rows() || grid_index.0.col
                    >= self.spec_grid_cols() || cell_index2d.row < self.spec_row_origins()[
                grid_index.0.row as int] || cell_index2d.col < self.spec_col_origins()[
                grid_index.0.col as int],
            },
    {
        let row_offset = match self.grid_row_index_to_row_index(grid_index.row()) {
            Some(o) => o,
            None => {
                return None;
            },
        };
        let column_offset = match self.grid_column_index_to_column_index(grid_index.col()) {
            Some(o) => o,
            None => {
                return None;
            },
        };
        let row = match cell_index2d.row.checked_sub(row_offset) {
            Some(v) => v,
            None => {
                return None;
            },
        };
        let col = match cell_index2d.col.checked_sub(column_offset) {
            Some(v) => v,
            None => {
                return None;
            },
        };
        Some(MemIndex2D { row, col })
    }

    /// A tile's full extent in cell space: from its origin up to the next
    /// tile's origin, or the grid's outer boundary for the last tile on an
    /// axis.
    pub fn grid_index_span2d(&self, grid_index: &GridIndex) -> (r: Option<MemSpan2D>)
        requires
            self.wf(),
            self.size.row_count > 0,
            self.size.column_count > 0,
        ensures
            match r {
                Some(s) => {
                    &&& grid_index.0.row < self.spec_grid_rows()
                    &&& grid_index.0.col < self.spec_grid_cols()
                    &&& s.row_span.min == self.spec_row_origins()[grid_index.0.row as int]
                    &&& s.row_span.spec_upper() == axis_upper(
                        self.spec_row_origins(),
                        self.size.row_count as int,
                        grid_index.0.row as int,
                    )
                    &&& s.col_span.min == self.spec_col_origins()[grid_index.0.col as int]
                    &&& s.col_span.spec_upper() == axis_upper(
                        self.spec_col_origins(),
                        self.size.column_count as int,
                        grid_index.0.col as int,
                    )
                    &&& s.wf()
                },
                None => grid_index.0.row >= self.spec_grid_rows() || grid_index.0.col
                    >= self.spec_grid_cols(),
            },
    {
        let min_index2d = match self.grid_index_to_index2d(grid_index) {
            Some(i) => i,
            None => {
                return None;
            },
        };
        let grid_rows = self.grid_row_count();
        let grid_cols = self.grid_column_count();
        let upper_row_bound: usize = if grid_index.row() + 1 < grid_rows {
            match self.grid_row_index_to_row_index(grid_index.row() + 1) {
                Some(o) => o,
                None => {
                    return None;
                },
            }
        } else {
            self.row_count()
        };
        let upper_col_bound: usize = if grid_index.col() + 1 < grid_cols {
            match self.grid_column_index_to_column_index(grid_index.col() + 1) {
                Some(o) => o,
                None => {
                    return None;
                },
            }
        } else {
            self.column_count()
        };
        proof {
            lemma_boundary_axis_wf(self.row_offsets@, self.size.row_count);
            lemma_boundary_axis_wf(self.column_offsets@, self.size.column_count);
            let ro = self.spec_row_origins();
            let co = self.spec_col_origins();
            let tr = grid_index.0.row as int;
            let tc = grid_index.0.col as int;
            if tr + 1 < ro.len() {
                lemma_axis_sorted(ro, tr, tr + 1);
            }
            if tc + 1 < co.len() {
                lemma_axis_sorted(co, tc, tc + 1);
            }
            lemma_axis_sorted(ro, tr, ro.len() - 1);
            lemma_axis_sorted(co, tc, co.len() - 1);
        }
        let upper_bound_index2d = MemIndex2D::new(upper_row_bound, upper_col_bound);
        Some(MemSpan2D::new_from_index2d(min_index2d, upper_bound_index2d))
    }

    /// Decompose a query rectangle into the ordered list of per-tile local
    /// overlaps, together with the tile-index bounding rectangle of the
    /// scan; `None` when the query covers no cell or pokes outside the cell
    /// space.
    #[verifier::loop_isolation(false)]
    #[verifier::rlimit(100)]
    #[verifier::spinoff_prover]
    pub fn grid_intersections(&self, span2d: &MemSpan2D) -> (r: Option<
        (GridRange2D, Vec<GridIntersection>),
    >)
        requires
            self.wf(),
            span2d.wf(),
        ensures
            match r {
                Some(p) => {
                    &&& scan_defined(
                        self.spec_row_origins(),
                        self.spec_col_origins(),
                        self.size.row_count as int,
                        self.size.column_count as int,
                        *span2d,
                    )
                    &&& p.0.0 == scan_range(
                        self.spec_row_origins(),
                        self.spec_col_origins(),
                        self.size.row_count as int,
                        self.size.column_count as int,
                        *span2d,
                    )
                    &&& p.1@ == scan_items(
                        self.spec_row_origins(),
                        self.spec_col_origins(),
                        self.size.row_count as int,
                        self.size.column_count as int,
                        *span2d,
                    )
                },
                None => !scan_defined(
                    self.spec_row_origins(),
                    self.spec_col_origins(),
                    self.size.row_count as int,
                    self.size.column_count as int,
                    *span2d,
                ),
            },
    {
        let ghost ro_seq = self.spec_row_origins();
        let ghost co_seq = self.spec_col_origins();
        let ghost rr = self.size.row_count as int;
        let ghost cc = self.size.column_count as int;
        let min_gi = match self.index2d_to_grid_index(&span2d.min_absolute_index2d()) {
            Some(g) => g,
            None => {
                return None;
            },
        };
        let max_corner = match span2d.max_absolute_index2d() {
            Some(m) => m,
            None => {
                return None;
            },
        };
        let max_gi = match self.index2d_to_grid_index(&max_corner) {
            Some(g) => g,
            None => {
                return None;
            },
        };
        let ghost qrmin = span2d.row_span.min as int;
        let ghost qrmax = span2d.row_span.spec_max();
        let ghost qcmin = span2d.col_span.min as int;
        let ghost qcmax = span2d.col_span.spec_max();
        proof {
            lemma_boundary_axis_wf(self.row_offsets@, self.size.row_count);
            lemma_boundary_axis_wf(self.column_offsets@, self.size.column_count);
            lemma_offsets_len(self.row_offsets@, self.size.row_count);
            lemma_offsets_len(self.column_offsets@, self.size.column_count);
            lemma_scan_corners(ro_seq, rr, qrmin, qrmax);
            lemma_scan_corners(co_seq, cc, qcmin, qcmax);
        }
        let rt0 = min_gi.row();
        let rt1 = max_gi.row();
        let ct0 = min_gi.col();
        let ct1 = max_gi.col();
        assert(rt0 == axis_tile_of(ro_seq, qrmin) && rt1 == axis_tile_of(ro_seq, qrmax));
        assert(ct0 == axis_tile_of(co_seq, qcmin) && ct1 == axis_tile_of(co_seq, qcmax));
        let w = ct1 - ct0 + 1;
        let ghost sitems = scan_items(ro_seq, co_seq, rr, cc, *span2d);
        assert(sitems.len() == (rt1 + 1 - rt0) * (w as int));
        let mut items: Vec<GridIntersection> = Vec::new();
        let mut tr = rt0;
        while tr <= rt1
            invariant
                rt0 <= tr <= rt1 + 1,
                items@ == sitems.take((tr - rt0) * (w as int)),
            decreases rt1 + 1 - tr,
        {
            let mut tc = ct0;
            proof {
                assert((tr - rt0) * (w as int) + (tc - ct0) == (tr - rt0) * (w as int));
            }
            while tc <= ct1
                invariant
                    ct0 <= tc <= ct1 + 1,
                    rt0 <= tr <= rt1,
                    items@ == sitems.take((tr - rt0) * (w as int) + (tc - ct0)),
                decreases ct1 + 1 - tc,
            {
                proof {
                    lemma_scan_tile(ro_seq, rr, qrmin, qrmax, tr as int);
                    lemma_scan_tile(co_seq, cc, qcmin, qcmax, tc as int);
                }
                let gi = GridIndex::new(tr, tc);
                let cur = match self.grid_index_span2d(&gi) {
                    Some(s) => s,
                    None => {
                        proof {
                            assert(false);
                        }
                        return None;
                    },
                };
                proof {
                    lemma_axis_clip(
                        ro_seq,
                        rr,
                        span2d.row_span.min,
                        span2d.row_span.count,
                        tr as int,
                        cur.row_span,
                    );
                    lemma_axis_clip(
                        co_seq,
                        cc,
                        span2d.col_span.min,
                        span2d.col_span.count,
                        tc as int,
                        cur.col_span,
                    );
                }
                let inter = match cur.intersect(span2d) {
                    Some(s) => s,
                    None => {
                        proof {
                            assert(false);
                        }
                        return None;
                    },
                };
                let local_row = match inter.row_span.shift_down_checked(cur.row_span.min) {
                    Some(s) => s,
                    None => {
                        proof {
                            assert(false);
                        }
                        return None;
                    },
                };
                let local_col = match inter.col_span.shift_down_checked(cur.col_span.min) {
                    Some(s) => s,
                    None => {
                        proof {
                            assert(false);
                        }
                        return None;
                    },
                };
                let item = GridIntersection {
                    grid_index: gi,
                    intersection: MemSpan2D { row_span: local_row, col_span: local_col },
                };
                items.push(item);
                proof {
                    let a = tr - rt0;
                    let b = tc - ct0;
                    let k = a * (w as int) + b;
                    lemma_scan_encode(a, b, w as int);
                    assert(k < sitems.len() as int) by (nonlinear_arith)
                        requires
                            sitems.len() == (rt1 + 1 - rt0) * (w as int),
                            k == a * (w as int) + b,
                            0 <= a <= rt1 - rt0,
                            0 <= b < w as int,
                    ;
                    assert(sitems[k] == item);
                    assert(items@ =~= sitems.take(k + 1));
                }
                tc = tc + 1;
            }
            proof {
                assert((tr - rt0) * (w as int) + (ct1 + 1 - ct0) == (tr + 1 - rt0) * (w as int))
                    by (nonlinear_arith)
                    requires
                        w as int == ct1 + 1 - ct0,
                ;
            }
            tr = tr + 1;
        }
        let range = GridRange2D(
            MemSpan2D::new_from_index2d(
                min_gi.index2d(),
                MemIndex2D { row: rt1 + 1, col: ct1 + 1 },
            ),
        );
        proof {
            assert(items@ =~= sitems);
        }
        Some((range, items))
    }
}

/// Two partitions that cut the cell space at the same positions decompose
/// every query identically: a uniform grid and a boundary-defined grid
/// whose per-axis origin sequences and cell extents agree emit the same
/// tile-index bounding rectangle and the same ordered list of per-tile
/// local overlaps for every query.
pub proof fn lemma_grid_variants_agree(g: MemGrid2D, n: NonUniformMemGrid2D, q: MemSpan2D)
    requires
        g.size == n.size,
        g.spec_row_origins() == n.spec_row_origins(),
        g.spec_col_origins() == n.spec_col_origins(),
    ensures
        scan_defined(
            g.spec_row_origins(),
            g.spec_col_origins(),
            g.size.row_count as int,
            g.size.column_count as int,
            q,
        ) == scan_defined(
            n.spec_row_origins(),
            n.spec_col_origins(),
            n.size.row_count as int,
            n.size.column_count as int,
            q,
        ),
        scan_range(
            g.spec_row_origins(),
            g.spec_col_origins(),
            g.size.row_count as int,
            g.size.column_count as int,
            q,
        ) == scan_range(
            n.spec_row_origins(),
            n.spec_col_origins(),
            n.size.row_count as int,
            n.size.column_count as int,
            q,
        ),
        scan_items(
            g.spec_row_origins(),
            g.spec_col_origins(),
            g.size.row_count as int,
            g.size.column_count as int,
            q,
        ) == scan_items(
            n.spec_row_origins(),
            n.spec_col_origins(),
            n.size.row_count as int,
            n.size.column_count as int,
            q,
        ),
{
}

/// The corner tiles of a query interval are ordered and lie inside the
/// axis, and each corner position lies inside its owning tile.
pub proof fn lemma_scan_corners(origins: Seq<int>, total: int, qmin: int, qmax: int)
    requires
        axis_wf(origins, total),
        0 <= qmin <= qmax < total,
    ensures
        0 <= axis_tile_of(origins, qmin) <= axis_tile_of(origins, qmax) < origins.len(),
        origins[axis_tile_of(origins, qmin)] <= qmin < axis_upper(
            origins,
            total,
            axis_tile_of(origins, qmin),
        ),
        origins[axis_tile_of(origins, qmax)] <= qmax < axis_upper(
            origins,
            total,
            axis_tile_of(origins, qmax),
        ),
{
    lemma_axis_tile_of_covers(origins, total, qmin);
    lemma_axis_tile_of_covers(origins, total, qmax);
    lemma_axis_tile_of_monotone(origins, qmin, qmax);
}

/// Every tile between the two corner tiles of a query interval meets the
/// interval in at least one position.
pub proof fn lemma_scan_tile(origins: Seq<int>, total: int, qmin: int, qmax: int, t: int)
    requires
        axis_wf(origins, total),
        0 <= qmin <= qmax < total,
        axis_tile_of(origins, qmin) <= t <= axis_tile_of(origins, qmax),
    ensures
        0 <= t < origins.len(),
        origins[t] <= qmax,
        qmin < axis_upper(origins, total, t),
        0 <= origins[t] < axis_upper(origins, total, t) <= total,
{
    let t0 = axis_tile_of(origins, qmin);
    let t1 = axis_tile_of(origins, qmax);
    lemma_scan_corners(origins, total, qmin, qmax);
    lemma_axis_sorted(origins, 0, t);
    lemma_axis_sorted(origins, t, t1);
    if t + 1 < origins.len() {
        lemma_axis_sorted(origins, t + 1, origins.len() - 1);
        lemma_axis_sorted(origins, t, t + 1);
    } else {
        lemma_axis_sorted(origins, t, origins.len() - 1);
    }
    if t > t0 {
        lemma_axis_sorted(origins, t0 + 1, t);
        assert(axis_upper(origins, total, t0) <= origins[t0 + 1]);
        assert(origins[t] >= origins[t0 + 1]);
        assert(axis_upper(origins, total, t) > origins[t]) by {
            if t + 1 < origins.len() {
            } else {
            }
        }
    }
}

/// The overlap of a scanned tile with the query interval on one axis: it
/// is present, covers at least one position, starts at or after the tile's
/// origin, and rebasing it to the origin gives exactly the local clip.
pub proof fn lemma_axis_clip(
    origins: Seq<int>,
    total: int,
    qmin: usize,
    qcount: usize,
    t: int,
    tile: MemSpan,
)
    requires
        axis_wf(origins, total),
        total <= usize::MAX,
        qcount > 0,
        qmin + qcount <= usize::MAX,
        qmin + qcount - 1 < total,
        axis_tile_of(origins, qmin as int) <= t <= axis_tile_of(origins, qmin + qcount - 1),
        tile.min == origins[t],
        tile.spec_upper() == axis_upper(origins, total, t),
    ensures
        tile.wf(),
        tile.count > 0,
        match MemSpan::spec_intersect(tile, MemSpan { min: qmin, count: qcount }) {
            Some(g) => {
                &&& g.min >= tile.min
                &&& g.count > 0
                &&& (MemSpan { min: (g.min - tile.min) as usize, count: g.count })
                    == axis_clip_local(
                    origins[t],
                    axis_upper(origins, total, t),
                    qmin as int,
                    qmin + qcount,
                )
            },
            None => false,
        },
{
    lemma_scan_tile(origins, total, qmin as int, (qmin + qcount - 1) as int, t);
}

/// Decompose a scan position into its tile-row and tile-column parts.
pub proof fn lemma_scan_encode(a: int, b: int, w: int)
    requires
        w > 0,
        0 <= b < w,
        0 <= a,
    ensures
        (a * w + b) / w == a,
        (a * w + b) % w == b,
{
    assert((a * w + b) / w == a && (a * w + b) % w == b) by (nonlinear_arith)
        requires
            w > 0,
            0 <= b < w,
            0 <= a,
    ;
}

/// Every emitted overlap of the scan is well formed: its tile lies inside
/// both axes, the clipped region covers at least one cell, and the region
/// fits between its tile's origin and upper bound.
pub proof fn lemma_scan_item_wf(
    row_origins: Seq<int>,
    col_origins: Seq<int>,
    row_total: int,
    col_total: int,
    q: MemSpan2D,
    k: int,
)
    requires
        axis_wf(row_origins, row_total),
        axis_wf(col_origins, col_total),
        q.wf(),
        scan_defined(row_origins, col_origins, row_total, col_total, q),
        row_total <= usize::MAX,
        col_total <= usize::MAX,
        row_origins.len() <= usize::MAX,
        col_origins.len() <= usize::MAX,
        0 <= k < scan_items(row_origins, col_origins, row_total, col_total, q).len(),
    ensures
        ({
            let item = scan_items(row_origins, col_origins, row_total, col_total, q)[k];
            let tr = item.grid_index.0.row as int;
            let tc = item.grid_index.0.col as int;
            &&& tr < row_origins.len()
            &&& tc < col_origins.len()
            &&& item.intersection.wf()
            &&& item.intersection.spec_has_area()
            &&& item.intersection.row_span.spec_upper() <= axis_upper(
                row_origins,
                row_total,
                tr,
            ) - row_origins[tr]
            &&& item.intersection.col_span.spec_upper() <= axis_upper(
                col_origins,
                col_total,
                tc,
            ) - col_origins[tc]
        }),
{
    let qrmin = q.row_span.min as int;
    let qrmax = q.row_span.spec_max();
    let qcmin = q.col_span.min as int;
    let qcmax = q.col_span.spec_max();
    lemma_scan_corners(row_origins, row_total, qrmin, qrmax);
    lemma_scan_corners(col_origins, col_total, qcmin, qcmax);
    let rt0 = axis_tile_of(row_origins, qrmin);
    let rt1 = axis_tile_of(row_origins, qrmax);
    let ct0 = axis_tile_of(col_origins, qcmin);
    let ct1 = axis_tile_of(col_origins, qcmax);
    let w = ct1 + 1 - ct0;
    let a = k / w;
    let b = k % w;
    vstd::arithmetic::div_mod::lemma_fundamental_div_mod(k, w);
    vstd::arithmetic::div_mod::lemma_mod_bound(k, w);
    vstd::arithmetic::div_mod::lemma_div_pos_is_pos(k, w);
    assert(a <= rt1 - rt0) by (nonlinear_arith)
        requires
            w > 0,
            0 <= k < (rt1 + 1 - rt0) * w,
            a == k / w,
            k % w == k - w * (k / w),
            0 <= k % w < w,
            a >= 0,
    ;
    lemma_scan_tile(row_origins, row_total, qrmin, qrmax, rt0 + a);
    lemma_scan_tile(col_origins, col_total, qcmin, qcmax, ct0 + b);
}

/// Strict sortedness carries across any gap.
pub proof fn lemma_axis_usort(s: Seq<usize>, i: int, j: int)
    requires
        forall|k: int| 0 <= k < s.len() - 1 ==> #[trigger] s[k] < s[k + 1],
        0 <= i <= j < s.len(),
    ensures
        s[i] <= s[j],
        i < j ==> s[i] < s[j],
    decreases j - i,
{
    if i < j {
        lemma_axis_usort(s, i, j - 1);
    }
}

} // verus!
