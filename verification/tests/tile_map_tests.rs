use tilespace::{
    GridIndex, MemIndex2D, MemSpan2D, Size2D, TileIntersection, TileMap, Vec2D,
};

#[test]
fn test_tile_intersections_all() {
    let tiles_rows: usize = 10;
    let tiles_columns: usize = 10;
    let tile: Vec2D<i32> = Vec2D::new_size_reference(Size2D::new(tiles_rows, tiles_columns), &0);
    let store: Vec2D<Vec2D<i32>> = Vec2D::new_size_reference(Size2D::new(3, 3), &tile);
    let tiles: TileMap<i32> = TileMap::new(store, tiles_rows, tiles_columns);

    let test_extents: MemSpan2D = MemSpan2D::new_row_columns(30, 30);
    let slice = tiles.get_slice(test_extents).unwrap();

    assert_eq!(9, slice.intersections.len());
    assert!(slice.intersections.iter().all(|tile_intersection| {
        tile_intersection.intersection.column_count() == 10
            && tile_intersection.intersection.row_count() == 10
    }));
}

#[test]
fn test_tile_intersections_single() {
    let tile_extents: MemSpan2D = MemSpan2D::new_row_columns(10, 10);
    let map_extents: MemSpan2D = MemSpan2D::new_row_columns(3, 3);
    let tile: Vec2D<i32> = Vec2D::new_size_reference(tile_extents.size(), &0);

    let store: Vec2D<Vec2D<i32>> = Vec2D::new_size_reference(map_extents.size(), &tile);
    let tiles: TileMap<i32> = TileMap::new(store, tile.row_count(), tile.column_count());

    let test_extents: MemSpan2D = MemSpan2D::new_row_columns(10, 10);

    let expected_intersection: TileIntersection =
        TileIntersection::new(GridIndex(MemIndex2D::origin()), tile_extents);

    let slice = tiles.get_slice(test_extents).unwrap();
    assert_eq!(1, slice.intersections.len());

    assert_eq!(expected_intersection.grid_index, slice.intersections[0].grid_index);
    assert_eq!(expected_intersection.intersection, slice.intersections[0].intersection);
}

#[test]
fn test_tile_intersections_partial_overlap() {
    let tile_extents: MemSpan2D = MemSpan2D::new_row_columns(10, 10);
    let map_extents: MemSpan2D = MemSpan2D::new_row_columns(3, 3);
    let tile: Vec2D<i32> = Vec2D::new_size_reference(tile_extents.size(), &0);
    let store: Vec2D<Vec2D<i32>> = Vec2D::new_size_reference(map_extents.size(), &tile);
    let tiles: TileMap<i32> =
        TileMap::new(store, tile_extents.row_count(), tile_extents.column_count());

    let test_extents: MemSpan2D = MemSpan2D::new_row_columns(11, 10);

    let expected_intersections: [TileIntersection; 2] = [
        TileIntersection::new(GridIndex(MemIndex2D::origin()), tile_extents),
        TileIntersection::new(
            GridIndex(MemIndex2D::new(1, 0)),
            MemSpan2D::new_row_columns(1, 10),
        ),
    ];

    let intersections = &tiles.get_slice(test_extents).unwrap().intersections;
    assert_eq!(2, intersections.len());
    for (index, intersection) in intersections.iter().enumerate() {
        assert_eq!(expected_intersections[index].grid_index, intersection.grid_index);
        assert_eq!(expected_intersections[index].intersection, intersection.intersection);
    }
}

#[test]
fn test_tile_map_allocation() {
    let map: TileMap<i32> = TileMap::new_with_size_capacity_reference(3, 2, 4, 5, &9).unwrap();
    // 2x3 tiles of 5x4 cells each, every cell carrying the reference value.
    assert_eq!(map.row_count(), 10);
    assert_eq!(map.column_count(), 12);
    assert_eq!(map.get(MemIndex2D::new(0, 0)), Some(&9));
    assert_eq!(map.get(MemIndex2D::new(9, 11)), Some(&9));
    assert!(map.get(MemIndex2D::new(10, 0)).is_none());
}

#[test]
fn test_tile_map_routes_cells() {
    // Four 2x3 tiles in a 2x2 arrangement; each tile is filled with its own
    // marker so routing mistakes would surface immediately.
    let mut tile_list: Vec<Vec2D<i32>> = Vec::new();
    for marker in 0..4 {
        let items: Vec<i32> = vec![marker; 6];
        tile_list.push(Vec2D::new_items_rows_columns(items, 2, 3).unwrap());
    }
    let store = Vec2D::new_items_rows_columns(tile_list, 2, 2).unwrap();
    let map = TileMap::new(store, 2, 3);
    assert_eq!(map.row_count(), 4);
    assert_eq!(map.column_count(), 6);
    assert_eq!(map.get(MemIndex2D::new(0, 0)), Some(&0));
    assert_eq!(map.get(MemIndex2D::new(1, 5)), Some(&1));
    assert_eq!(map.get(MemIndex2D::new(2, 2)), Some(&2));
    assert_eq!(map.get(MemIndex2D::new(3, 3)), Some(&3));
    assert!(map.get(MemIndex2D::new(4, 0)).is_none());
    assert!(map.get(MemIndex2D::new(0, 6)).is_none());
}

#[test]
fn test_tile_map_slice_views() {
    // Tiles carry distinct values so the per-tile views can be checked
    // cell by cell.
    let mut tile_list: Vec<Vec2D<i32>> = Vec::new();
    for marker in 0..4 {
        let items: Vec<i32> = (0..4).map(|k| marker * 10 + k).collect();
        tile_list.push(Vec2D::new_items_rows_columns(items, 2, 2).unwrap());
    }
    let store = Vec2D::new_items_rows_columns(tile_list, 2, 2).unwrap();
    let map = TileMap::new(store, 2, 2);

    // A query across all four tiles, clipped to the middle 2x2 block.
    let slice = map.get_slice(MemSpan2D::new_from_usize(1, 1, 3, 3)).unwrap();
    assert_eq!(slice.intersections.len(), 4);
    assert_eq!(slice.start_grid_row_count(), 1);
    assert_eq!(slice.start_grid_column_count(), 1);
    assert_eq!(slice.end_grid_row_count(), 1);
    assert_eq!(slice.end_grid_column_count(), 1);

    // Keyed access by grid index: each view holds the clipped cell of its
    // tile.
    let top_left = slice.get(GridIndex::new(0, 0)).unwrap();
    assert_eq!(top_left.to_vec(), vec![3]);
    let bottom_right = slice.get(GridIndex::new(1, 1)).unwrap();
    assert_eq!(bottom_right.to_vec(), vec![30]);
    assert!(slice.get(GridIndex::new(2, 2)).is_none());

    // An empty query yields nothing.
    assert!(map.get_slice(MemSpan2D::new_from_usize(1, 1, 1, 3)).is_none());
}
