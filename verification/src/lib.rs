//! Addressing and view extraction for dense two-dimensional data that is
//! logically partitioned into rectangular tiles.
//!
//! The crate is built from small layers: half-open interval arithmetic
//! ([`span::MemSpan`], [`span2d::MemSpan2D`]), fixed extents and row-major
//! index conversion ([`size2d::Size2D`]), two grid partitioning strategies
//! ([`grid::MemGrid2D`], [`grid::NonUniformMemGrid2D`]) proved to decompose
//! queries identically when their geometry agrees, a dense row-major buffer
//! with rectangular read-only and exclusive views ([`vec2d::Vec2D`]), an
//! optional-cell store ([`option_vec2d::OptionVec2D`]), and a tile map that
//! presents a grid of buffers as one surface ([`tile_map::TileMap`]).

pub mod extents2d;
pub mod grid;
pub mod index2d;
pub mod option_vec2d;
pub mod size2d;
pub mod span;
pub mod span2d;
pub mod tile_map;
pub mod vec2d;

pub use extents2d::MemExtents2D;
pub use grid::{GridIndex, GridIntersection, GridRange2D, MemGrid2D, NonUniformMemGrid2D};
pub use index2d::{MemIndex2D, MemOffset2D, MemVect2D};
pub use option_vec2d::OptionVec2D;
pub use size2d::Size2D;
pub use span::MemSpan;
pub use span2d::{MemSpan2D, MemSpanIndex2D};
pub use tile_map::{TileIntersection, TileMap, TileMapSlice, TileRange2D};
pub use vec2d::{Vec2D, Vec2DMutChunks, Vec2DMutSlice, Vec2DSlice};
