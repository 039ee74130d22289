//! A single logical 2D surface assembled from a uniform grid of dense
//! tile buffers: a global coordinate is routed through the grid partition
//! to a tile and a tile-local coordinate, and a rectangular query is
//! decomposed into per-tile read-only views.

use vstd::prelude::*;
use crate::grid::{
    axis_upper,
    scan_defined,
    scan_items,
    scan_range,
    GridIndex,
    GridIntersection,
    GridRange2D,
    MemGrid2D,
};
use crate::index2d::MemIndex2D;
use crate::size2d::Size2D;
use crate::span2d::MemSpan2D;
use crate::vec2d::{Vec2D, Vec2DSlice};

verus! {

/// A rectangle of tile indexes covered by a query.
#[derive(Clone, Copy, Debug, PartialEq, Eq, Structural)]
pub struct TileRange2D(pub MemSpan2D);

impl TileRange2D {
    pub fn row_count(&self) -> (r: usize)
        ensures
            r == self.0.row_span.count,
    {
        self.0.row_count()
    }

    pub fn column_count(&self) -> (r: usize)
        ensures
            r == self.0.col_span.count,
    {
        self.0.column_count()
    }

    pub fn size(&self) -> (r: Size2D)
        ensures
            r.row_count == self.0.row_span.count,
            r.column_count == self.0.col_span.count,
    {
        self.0.size()
    }
}

/// One tile touched by a tile map query, with the overlap expressed in
/// the tile's local coordinate space.
#[derive(Clone, Copy, Debug, PartialEq, Eq, Structural)]
pub struct TileIntersection {
    pub grid_index: GridIndex,
    pub intersection: MemSpan2D,
}

impl TileIntersection {
    pub fn new(grid_index: GridIndex, intersection: MemSpan2D) -> (r: Self)
        ensures
            r.grid_index == grid_index,
            r.intersection == intersection,
    {
        TileIntersection { grid_index, intersection }
    }
}

/// A grid of equally shaped dense tile buffers presenting one cell space.
pub struct TileMap<T> {
    tiles: Vec2D<Vec2D<T>>,
    grid: MemGrid2D,
}

impl<T> TileMap<T> {
    pub closed spec fn spec_tiles(self) -> Vec2D<Vec2D<T>> {
        self.tiles
    }

    pub closed spec fn spec_grid(self) -> MemGrid2D {
        self.grid
    }

    /// The tile store is well formed, every tile is a well-formed buffer
    /// of exactly the grid's tile extents, and the grid's cell space is
    /// the tile store scaled by those extents.
    pub open spec fn wf(self) -> bool {
        &&& self.spec_tiles().wf()
        &&& self.spec_grid().wf()
        &&& self.spec_grid().size.row_count == self.spec_tiles().spec_rows()
            * self.spec_grid().row_offset
        &&& self.spec_grid().size.column_count == self.spec_tiles().spec_cols()
            * self.spec_grid().column_offset
        &&& forall|k: int|
            0 <= k < self.spec_tiles()@.len() ==> (#[trigger] self.spec_tiles()@[k]).wf()
                && self.spec_tiles()@[k].spec_size() == (Size2D {
                row_count: self.spec_grid().row_offset,
                column_count: self.spec_grid().column_offset,
            })
    }

    /// The element at a global cell coordinate: the owning tile's element
    /// at the coordinate rebased to that tile.
    pub open spec fn spec_cell(self, row: int, col: int) -> T {
        let ro = self.spec_grid().row_offset as int;
        let co = self.spec_grid().column_offset as int;
        let tile = self.spec_tiles().spec_cell(row / ro, col / co);
        tile.spec_cell(row % ro, col % co)
    }

    /// Rows of the full cell space.
    pub fn row_count(&self) -> (r: usize)
        ensures
            r == self.spec_grid().size.row_count,
    {
        self.grid.row_count()
    }

    /// Columns of the full cell space.
    pub fn column_count(&self) -> (r: usize)
        ensures
            r == self.spec_grid().size.column_count,
    {
        self.grid.column_count()
    }

    /// Assemble a tile map from a store of equally shaped tiles;
    /// `tile_rows` by `tile_columns` is each tile's extent.
    pub fn new(tiles: Vec2D<Vec2D<T>>, tile_rows: usize, tile_columns: usize) -> (r: Self)
        requires
            tiles.wf(),
            tile_rows > 0,
            tile_columns > 0,
            tiles.spec_rows() * tile_rows <= usize::MAX,
            tiles.spec_cols() * tile_columns <= usize::MAX,
            forall|k: int|
                0 <= k < tiles@.len() ==> (#[trigger] tiles@[k]).wf() && tiles@[k].spec_size()
                    == (Size2D { row_count: tile_rows, column_count: tile_columns }),
        ensures
            r.wf(),
            r.spec_tiles() == tiles,
            r.spec_grid().row_offset == tile_rows,
            r.spec_grid().column_offset == tile_columns,
            r.spec_grid().size.row_count == tiles.spec_rows() * tile_rows,
            r.spec_grid().size.column_count == tiles.spec_cols() * tile_columns,
    {
        let cell_rows = tiles.row_count() * tile_rows;
        let cell_cols = tiles.column_count() * tile_columns;
        let size = Size2D::new(cell_rows, cell_cols);
        TileMap { tiles, grid: MemGrid2D::new(size, tile_rows, tile_columns) }
    }

    /// Allocate a tile map of `capacity_height` by `capacity_width` tiles,
    /// each `grid_row_count` by `grid_column_count` cells, every cell a
    /// clone of `ref_item`.
    pub fn new_with_size_capacity_reference(
        capacity_width: usize,
        capacity_height: usize,
        grid_column_count: usize,
        grid_row_count: usize,
        ref_item: &T,
    ) -> (r: Option<Self>) where T: Clone
        requires
            grid_row_count > 0,
            grid_column_count > 0,
            grid_row_count * grid_column_count <= usize::MAX,
            capacity_width * capacity_height <= usize::MAX,
            capacity_height * grid_row_count <= usize::MAX,
            capacity_width * grid_column_count <= usize::MAX,
        ensures
            match r {
                Some(tm) => {
                    &&& tm.wf()
                    &&& tm.spec_grid().row_offset == grid_row_count
                    &&& tm.spec_grid().column_offset == grid_column_count
                    &&& tm.spec_tiles().spec_rows() == capacity_height
                    &&& tm.spec_tiles().spec_cols() == capacity_width
                    &&& forall|k: int, i: int|
                        0 <= k < tm.spec_tiles()@.len() && 0 <= i < tm.spec_tiles()@[k]@.len()
                            ==> cloned(*ref_item, #[trigger] tm.spec_tiles()@[k]@[i])
                },
                None => false,
            },
    {
        let tile_size = Size2D::new(grid_row_count, grid_column_count);
        let n = capacity_width * capacity_height;
        proof {
            assert(capacity_height * capacity_width == capacity_width * capacity_height)
                by (nonlinear_arith);
        }
        let mut tile_list: Vec<Vec2D<T>> = Vec::new();
        let mut i: usize = 0;
        while i < n
            invariant
                0 <= i <= n,
                tile_size.wf(),
                tile_list@.len() == i,
                forall|k: int|
                    0 <= k < i ==> (#[trigger] tile_list@[k]).wf() && tile_list@[k].spec_size()
                        == tile_size,
                forall|k: int, j: int|
                    0 <= k < i && 0 <= j < tile_list@[k]@.len() ==> cloned(
                        *ref_item,
                        #[trigger] tile_list@[k]@[j],
                    ),
            decreases n - i,
        {
            let tile: Vec2D<T> = Vec2D::new_size_reference(tile_size, ref_item);
            tile_list.push(tile);
            i = i + 1;
        }
        let tiles: Vec2D<Vec2D<T>> = match Vec2D::new_items_rows_columns(
            tile_list,
            capacity_height,
            capacity_width,
        ) {
            Some(t) => t,
            None => {
                proof {
                    assert(false);
                }
                return None;
            },
        };
        Some(Self::new(tiles, grid_row_count, grid_column_count))
    }

    /// The element at a global cell coordinate; `None` outside the cell
    /// space.
    pub fn get(&self, index2d: MemIndex2D) -> (r: Option<&T>)
        requires
            self.wf(),
        ensures
            match r {
                Some(v) => {
                    &&& index2d.row < self.spec_grid().size.row_count
                    &&& index2d.col < self.spec_grid().size.column_count
                    &&& *v == self.spec_cell(index2d.row as int, index2d.col as int)
                },
                None => index2d.row >= self.spec_grid().size.row_count || index2d.col
                    >= self.spec_grid().size.column_count,
            },
    {
        let grid_index = match self.grid.index2d_to_grid_index(&index2d) {
            Some(g) => g,
            None => {
                return None;
            },
        };
        let cell_index = match self.grid.index2d_relative_to_grid(&index2d, &grid_index) {
            Some(c) => c,
            None => {
                proof {
                    self.lemma_route(index2d.row as int, index2d.col as int);
                    assert(false);
                }
                return None;
            },
        };
        proof {
            self.lemma_route(index2d.row as int, index2d.col as int);
            Size2D::lemma_row_major_index_in_area(self.spec_tiles().spec_size(), grid_index.0);
            let k = grid_index.0.row * self.spec_tiles().spec_cols() + grid_index.0.col;
            assert(self.spec_tiles()@[k].wf());
        }
        let tile = match self.tiles.get_index2d(grid_index.index2d()) {
            Some(t) => t,
            None => {
                proof {
                    assert(false);
                }
                return None;
            },
        };
        match tile.get_index2d(cell_index) {
            Some(v) => Some(v),
            None => {
                proof {
                    assert(false);
                }
                None
            },
        }
    }

    /// Whether one emitted overlap can be served: its tile exists in the
    /// tile store, it covers at least one cell, and it fits the tile's
    /// extents. Correct construction makes this hold for every emitted
    /// overlap.
    pub open spec fn spec_item_fits(self, item: GridIntersection) -> bool {
        &&& item.grid_index.0.row < self.spec_tiles().spec_rows()
        &&& item.grid_index.0.col < self.spec_tiles().spec_cols()
        &&& item.intersection.spec_has_area()
        &&& item.intersection.row_span.spec_upper() <= self.spec_grid().row_offset
        &&& item.intersection.col_span.spec_upper() <= self.spec_grid().column_offset
    }

    /// Decompose a rectangular query into one read-only view per touched
    /// tile, each clipped to the tile's local coordinate space and keyed
    /// by the tile's grid index; `None` when the query covers no cell,
    /// pokes outside the cell space, or — an internal inconsistency that
    /// correct construction rules out — some clipped region does not fit
    /// its tile.
    #[verifier::loop_isolation(false)]
    pub fn get_slice(&self, extents: MemSpan2D) -> (r: Option<TileMapSlice<'_, T>>)
        requires
            self.wf(),
            extents.wf(),
        ensures
            match r {
                Some(sl) => {
                    &&& scan_defined(
                        self.spec_grid().spec_row_origins(),
                        self.spec_grid().spec_col_origins(),
                        self.spec_grid().size.row_count as int,
                        self.spec_grid().size.column_count as int,
                        extents,
                    )
                    &&& sl.range.0 == scan_range(
                        self.spec_grid().spec_row_origins(),
                        self.spec_grid().spec_col_origins(),
                        self.spec_grid().size.row_count as int,
                        self.spec_grid().size.column_count as int,
                        extents,
                    )
                    &&& sl.intersections@ == scan_items(
                        self.spec_grid().spec_row_origins(),
                        self.spec_grid().spec_col_origins(),
                        self.spec_grid().size.row_count as int,
                        self.spec_grid().size.column_count as int,
                        extents,
                    )
                    &&& sl.tile_slices@.len() == sl.intersections@.len()
                    &&& forall|k: int|
                        0 <= k < sl.intersections@.len() ==> {
                            &&& (#[trigger] sl.tile_slices@[k]).span2d == sl.intersections@[
                                k
                            ].intersection
                            &&& sl.tile_slices@[k].vec_column_count == self.spec_grid(
                            ).column_offset
                            &&& sl.tile_slices@[k].wf()
                            &&& sl.tile_slices@[k].data@ == self.spec_tiles().spec_cell(
                                sl.intersections@[k].grid_index.0.row as int,
                                sl.intersections@[k].grid_index.0.col as int,
                            )@
                        }
                },
                None => !scan_defined(
                    self.spec_grid().spec_row_origins(),
                    self.spec_grid().spec_col_origins(),
                    self.spec_grid().size.row_count as int,
                    self.spec_grid().size.column_count as int,
                    extents,
                ) || (exists|k: int|
                    0 <= k < scan_items(
                        self.spec_grid().spec_row_origins(),
                        self.spec_grid().spec_col_origins(),
                        self.spec_grid().size.row_count as int,
                        self.spec_grid().size.column_count as int,
                        extents,
                    ).len() && !self.spec_item_fits(
                        #[trigger] scan_items(
                            self.spec_grid().spec_row_origins(),
                            self.spec_grid().spec_col_origins(),
                            self.spec_grid().size.row_count as int,
                            self.spec_grid().size.column_count as int,
                            extents,
                        )[k],
                    )),
            },
    {
        let pair = match self.grid.grid_intersections(&extents) {
            Some(p) => p,
            None => {
                return None;
            },
        };
        let (range, intersections) = pair;
        let n = intersections.len();
        let mut tile_slices: Vec<Vec2DSlice<'_, T>> = Vec::new();
        let mut k: usize = 0;
        while k < n
            invariant
                0 <= k <= n,
                n == intersections@.len(),
                self.wf(),
                tile_slices@.len() == k,
                forall|j: int|
                    0 <= j < k ==> {
                        &&& (#[trigger] tile_slices@[j]).span2d == intersections@[j].intersection
                        &&& tile_slices@[j].vec_column_count == self.spec_grid().column_offset
                        &&& tile_slices@[j].wf()
                        &&& tile_slices@[j].data@ == self.spec_tiles().spec_cell(
                            intersections@[j].grid_index.0.row as int,
                            intersections@[j].grid_index.0.col as int,
                        )@
                    },
            decreases n - k,
        {
            let gi = intersections[k].grid_index;
            let ghost sitems = scan_items(
                self.spec_grid().spec_row_origins(),
                self.spec_grid().spec_col_origins(),
                self.spec_grid().size.row_count as int,
                self.spec_grid().size.column_count as int,
                extents,
            );
            proof {
                self.lemma_item_fits(extents, k as int);
            }
            let tile = match self.tiles.get_index2d(gi.index2d()) {
                Some(t) => t,
                None => {
                    proof {
                        assert(!self.spec_item_fits(sitems[k as int]));
                    }
                    return None;
                },
            };
            proof {
                Size2D::lemma_row_major_index_in_area(self.spec_tiles().spec_size(), gi.0);
                let idx = gi.0.row * self.spec_tiles().spec_cols() + gi.0.col;
                assert(self.spec_tiles()@[idx].wf());
            }
            let cur_slice = match tile.get_slice(intersections[k].intersection) {
                Some(s) => s,
                None => {
                    proof {
                        assert(!self.spec_item_fits(sitems[k as int]));
                    }
                    return None;
                },
            };
            tile_slices.push(cur_slice);
            proof {
                assert(forall|j: int|
                    0 <= j < k ==> tile_slices@[j] == tile_slices@.subrange(0, k as int)[j]);
            }
            k = k + 1;
        }
        Some(TileMapSlice { range, intersections, tile_slices })
    }

    /// Every overlap that the scan emits fits its tile: the tile exists in
    /// the store, the clipped region covers at least one cell, and it lies
    /// within the tile's extents. This is the internal-consistency fact
    /// that correct construction guarantees.
    proof fn lemma_item_fits(self, q: MemSpan2D, k: int)
        requires
            self.wf(),
            q.wf(),
            scan_defined(
                self.spec_grid().spec_row_origins(),
                self.spec_grid().spec_col_origins(),
                self.spec_grid().size.row_count as int,
                self.spec_grid().size.column_count as int,
                q,
            ),
            0 <= k < scan_items(
                self.spec_grid().spec_row_origins(),
                self.spec_grid().spec_col_origins(),
                self.spec_grid().size.row_count as int,
                self.spec_grid().size.column_count as int,
                q,
            ).len(),
        ensures
            self.spec_item_fits(
                scan_items(
                    self.spec_grid().spec_row_origins(),
                    self.spec_grid().spec_col_origins(),
                    self.spec_grid().size.row_count as int,
                    self.spec_grid().size.column_count as int,
                    q,
                )[k],
            ),
            scan_items(
                self.spec_grid().spec_row_origins(),
                self.spec_grid().spec_col_origins(),
                self.spec_grid().size.row_count as int,
                self.spec_grid().size.column_count as int,
                q,
            )[k].intersection.wf(),
    {
        let ro = self.spec_grid().row_offset as int;
        let co = self.spec_grid().column_offset as int;
        let rr = self.spec_grid().size.row_count as int;
        let cc = self.spec_grid().size.column_count as int;
        let trows = self.spec_tiles().spec_rows();
        let tcols = self.spec_tiles().spec_cols();
        let ro_seq = self.spec_grid().spec_row_origins();
        let co_seq = self.spec_grid().spec_col_origins();
        MemGrid2D::lemma_uniform_axis_wf(rr, ro);
        MemGrid2D::lemma_uniform_axis_wf(cc, co);
        assert(trows >= 1) by (nonlinear_arith)
            requires
                rr == trows * ro,
                rr > 0,
                ro > 0,
                trows >= 0,
        ;
        assert(tcols >= 1) by (nonlinear_arith)
            requires
                cc == tcols * co,
                cc > 0,
                co > 0,
                tcols >= 0,
        ;
        assert((rr - 1) / ro + 1 == trows) by (nonlinear_arith)
            requires
                rr == trows * ro,
                trows >= 1,
                ro > 0,
        ;
        assert((cc - 1) / co + 1 == tcols) by (nonlinear_arith)
            requires
                cc == tcols * co,
                tcols >= 1,
                co > 0,
        ;
        crate::grid::lemma_scan_item_wf(ro_seq, co_seq, rr, cc, q, k);
        let item = scan_items(ro_seq, co_seq, rr, cc, q)[k];
        let tr = item.grid_index.0.row as int;
        let tc = item.grid_index.0.col as int;
        assert(axis_upper(ro_seq, rr, tr) - ro_seq[tr] == ro) by {
            assert(ro_seq[tr] == tr * ro);
            if tr + 1 < trows {
                assert(ro_seq[tr + 1] == (tr + 1) * ro);
                assert((tr + 1) * ro - tr * ro == ro) by (nonlinear_arith);
            } else {
                assert(tr == trows - 1);
                assert(trows * ro - (trows - 1) * ro == ro) by (nonlinear_arith);
            }
        }
        assert(axis_upper(co_seq, cc, tc) - co_seq[tc] == co) by {
            assert(co_seq[tc] == tc * co);
            if tc + 1 < tcols {
                assert(co_seq[tc + 1] == (tc + 1) * co);
                assert((tc + 1) * co - tc * co == co) by (nonlinear_arith);
            } else {
                assert(tc == tcols - 1);
                assert(tcols * co - (tcols - 1) * co == co) by (nonlinear_arith);
            }
        }
    }

    /// Routing a coordinate that lies inside the cell space always lands
    /// on an existing tile and a cell inside it.
    proof fn lemma_route(self, row: int, col: int)
        requires
            self.wf(),
            0 <= row < self.spec_grid().size.row_count,
            0 <= col < self.spec_grid().size.column_count,
        ensures
            0 <= row / (self.spec_grid().row_offset as int) < self.spec_tiles().spec_rows(),
            0 <= col / (self.spec_grid().column_offset as int) < self.spec_tiles().spec_cols(),
            0 <= row % (self.spec_grid().row_offset as int) < self.spec_grid().row_offset,
            0 <= col % (self.spec_grid().column_offset as int) < self.spec_grid().column_offset,
            self.spec_grid().spec_grid_rows() == self.spec_tiles().spec_rows(),
            self.spec_grid().spec_grid_cols() == self.spec_tiles().spec_cols(),
            row % (self.spec_grid().row_offset as int) == row - (row / (
            self.spec_grid().row_offset as int)) * self.spec_grid().row_offset,
            col % (self.spec_grid().column_offset as int) == col - (col / (
            self.spec_grid().column_offset as int)) * self.spec_grid().column_offset,
        decreases 0int,
    {
        let ro = self.spec_grid().row_offset as int;
        let co = self.spec_grid().column_offset as int;
        let trows = self.spec_tiles().spec_rows();
        let tcols = self.spec_tiles().spec_cols();
        Self::lemma_exact_axis(trows, ro, row);
        Self::lemma_exact_axis(tcols, co, col);
    }

    /// On an axis cut into `n` whole tiles of `extent` cells, positions
    /// route by division and remainder, and the ceiling tile count is `n`.
    proof fn lemma_exact_axis(n: int, extent: int, x: int)
        requires
            n >= 0,
            extent > 0,
            0 <= x < n * extent,
        ensures
            0 <= x / extent < n,
            0 <= x % extent < extent,
            x % extent == x - (x / extent) * extent,
            n * extent == 0 || (n * extent - 1) / extent + 1 == n,
    {
        vstd::arithmetic::div_mod::lemma_fundamental_div_mod(x, extent);
        vstd::arithmetic::div_mod::lemma_mod_bound(x, extent);
        assert(0 <= x / extent < n) by (nonlinear_arith)
            requires
                extent > 0,
                0 <= x < n * extent,
                x % extent == x - extent * (x / extent),
                0 <= x % extent < extent,
        ;
        assert(x % extent == x - (x / extent) * extent) by (nonlinear_arith)
            requires
                x % extent == x - extent * (x / extent),
        ;
        if n * extent != 0 {
            assert((n * extent - 1) / extent + 1 == n) by (nonlinear_arith)
                requires
                    extent > 0,
                    n > 0 || n * extent > 0,
                    n >= 0,
            ;
        }
    }
}

/// The result of a tile map query: the tile-index bounding rectangle of
/// the scan, the ordered per-tile overlaps, and one read-only view per
/// overlap, keyed by grid index.
pub struct TileMapSlice<'a, T> {
    pub range: GridRange2D,
    pub intersections: Vec<GridIntersection>,
    pub tile_slices: Vec<Vec2DSlice<'a, T>>,
}

impl<'a, T> TileMapSlice<'a, T> {
    /// One view per overlap, none missing, each shaped by its overlap.
    pub open spec fn wf(self) -> bool {
        &&& self.tile_slices@.len() == self.intersections@.len()
        &&& self.intersections@.len() >= 1
        &&& forall|k: int|
            0 <= k < self.intersections@.len() ==> (#[trigger] self.tile_slices@[k]).wf()
                && self.tile_slices@[k].span2d == self.intersections@[k].intersection
    }

    /// Rows of the first (top-left) tile's overlap.
    pub fn start_grid_row_count(&self) -> (r: usize)
        requires
            self.wf(),
        ensures
            r == self.intersections@[0].intersection.row_span.count,
    {
        vstd::std_specs::vec::vec_index(&self.tile_slices, 0).row_count()
    }

    /// Columns of the first (top-left) tile's overlap.
    pub fn start_grid_column_count(&self) -> (r: usize)
        requires
            self.wf(),
        ensures
            r == self.intersections@[0].intersection.col_span.count,
    {
        vstd::std_specs::vec::vec_index(&self.tile_slices, 0).column_count()
    }

    /// Rows of the last (bottom-right) tile's overlap.
    pub fn end_grid_row_count(&self) -> (r: usize)
        requires
            self.wf(),
        ensures
            r == self.intersections@[self.intersections@.len() - 1].intersection.row_span.count,
    {
        let last = self.tile_slices.len() - 1;
        vstd::std_specs::vec::vec_index(&self.tile_slices, last).row_count()
    }

    /// Columns of the last (bottom-right) tile's overlap.
    pub fn end_grid_column_count(&self) -> (r: usize)
        requires
            self.wf(),
        ensures
            r == self.intersections@[self.intersections@.len() - 1].intersection.col_span.count,
    {
        let last = self.tile_slices.len() - 1;
        vstd::std_specs::vec::vec_index(&self.tile_slices, last).column_count()
    }

    /// The view of the tile named by a grid index; `None` when the query
    /// did not touch that tile.
    pub fn get(&self, grid_index: GridIndex) -> (r: Option<&Vec2DSlice<'a, T>>)
        requires
            self.wf(),
        ensures
            match r {
                Some(s) => exists|k: int|
                    0 <= k < self.intersections@.len() && (#[trigger] self.intersections@[
                        k
                    ]).grid_index == grid_index && *s == self.tile_slices@[k],
                None => forall|k: int|
                    0 <= k < self.intersections@.len() ==> (#[trigger] self.intersections@[
                        k
                    ]).grid_index != grid_index,
            },
    {
        let n = self.intersections.len();
        let mut k: usize = 0;
        while k < n
            invariant
                0 <= k <= n,
                n == self.intersections@.len(),
                n == self.tile_slices@.len(),
                forall|j: int|
                    0 <= j < k ==> (#[trigger] self.intersections@[j]).grid_index != grid_index,
            decreases n - k,
        {
            let cand = vstd::std_specs::vec::vec_index(&self.intersections, k);
            if cand.grid_index.0.row == grid_index.0.row && cand.grid_index.0.col
                == grid_index.0.col {
                proof {
                    assert(self.intersections@[k as int].grid_index == grid_index);
                }
                return Some(vstd::std_specs::vec::vec_index(&self.tile_slices, k));
            }
            k = k + 1;
        }
        None
    }
}

} // verus!
