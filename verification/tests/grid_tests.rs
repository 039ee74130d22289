use tilespace::{
    GridIndex, GridIntersection, GridRange2D, MemGrid2D, MemIndex2D, MemSpan2D,
    NonUniformMemGrid2D, Size2D,
};

#[test]
fn test_mem_grid2d() {
    let size = Size2D::new(10, 10);
    let grid = MemGrid2D::new(size, 2, 2);
    let index2d = MemIndex2D::new(4, 4);

    let grid_index = grid.index2d_to_grid_index(&index2d).unwrap();
    assert_eq!(grid_index.row(), 2);
    assert_eq!(grid_index.col(), 2);

    let index_relative_to_grid = grid.index2d_relative_to_grid(&index2d, &grid_index).unwrap();
    assert_eq!(0, index_relative_to_grid.row);
    assert_eq!(0, index_relative_to_grid.col);

    assert!(grid.index2d_to_grid_index(&MemIndex2D::new(10, 10)).is_none());

    let expected_index_span: MemSpan2D =
        MemSpan2D::new_from_index2d(MemIndex2D::new(4, 4), MemIndex2D::new(6, 6));
    let actual_index_span: MemSpan2D = grid.grid_index_span2d(&grid_index).unwrap();
    assert_eq!(expected_index_span, actual_index_span);
}

#[test]
fn test_grid_intersections_all() {
    let size: Size2D = Size2D::new(30, 30);
    let row_offset: usize = 10;
    let column_offset: usize = 10;
    let grid = MemGrid2D::new(size, row_offset, column_offset);

    let test_range2d: MemSpan2D =
        MemSpan2D::new_from_index2d(MemIndex2D { row: 5, col: 5 }, MemIndex2D { row: 25, col: 25 });
    let (grid_range, intersections) = grid.grid_intersections(&test_range2d).unwrap();

    let expected_grid_range: GridRange2D = GridRange2D(MemSpan2D::new_from_usize(0, 0, 3, 3));
    assert_eq!(expected_grid_range.0, grid_range.0);

    assert_eq!(intersections.len(), 9);

    let expected_indexes: Vec<MemIndex2D> = vec![
        MemIndex2D::origin(),
        MemIndex2D { row: 0, col: 1 },
        MemIndex2D { row: 0, col: 2 },
        MemIndex2D { row: 1, col: 0 },
        MemIndex2D { row: 1, col: 1 },
        MemIndex2D { row: 1, col: 2 },
        MemIndex2D { row: 2, col: 0 },
        MemIndex2D { row: 2, col: 1 },
        MemIndex2D { row: 2, col: 2 },
    ];

    let mut actual_indexes: Vec<MemIndex2D> =
        intersections.iter().map(|i| i.grid_index.0).collect();
    assert_eq!(expected_indexes, actual_indexes);

    let non_uniform_grid = NonUniformMemGrid2D::new(size, vec![10, 20], vec![10, 20]);
    let test_range2d: MemSpan2D =
        MemSpan2D::new_from_index2d(MemIndex2D { row: 5, col: 5 }, MemIndex2D { row: 25, col: 25 });
    let (grid_range, intersections) = non_uniform_grid.grid_intersections(&test_range2d).unwrap();

    assert_eq!(expected_grid_range.0, grid_range.0);

    actual_indexes = intersections.iter().map(|i| i.grid_index.0).collect();
    assert_eq!(expected_indexes, actual_indexes);
}

#[test]
fn test_grid_intersections_single() {
    let size: Size2D = Size2D::new(30, 30);
    let row_offset: usize = 10;
    let column_offset: usize = 10;
    let grid = MemGrid2D::new(size, row_offset, column_offset);

    let mut test_range: MemSpan2D = MemSpan2D::new_from_usize(10, 10, 20, 20);
    let (mut grid_range, mut intersections) = grid.grid_intersections(&test_range).unwrap();

    let expected_grid_range: GridRange2D = GridRange2D(MemSpan2D::new_from_usize(1, 1, 2, 2));
    assert_eq!(expected_grid_range.0, grid_range.0);

    let expected_intersections: Vec<GridIntersection> = vec![GridIntersection {
        grid_index: GridIndex(MemIndex2D { row: 1, col: 1 }),
        intersection: MemSpan2D::new_from_usize(0, 0, 10, 10),
    }];

    assert_eq!(expected_intersections, intersections);

    test_range = MemSpan2D::new_from_usize(5, 5, 15, 15);
    let non_uniform_grid = NonUniformMemGrid2D::new(size, vec![5, 15], vec![5, 15]);
    (grid_range, intersections) = non_uniform_grid.grid_intersections(&test_range).unwrap();

    assert_eq!(expected_grid_range.0, grid_range.0);
    assert_eq!(expected_intersections, intersections);
}

#[test]
fn test_non_uniform_mem_grid2d() {
    let size = Size2D::new(10, 10);
    let row_offsets = vec![2, 4, 6, 8];
    let column_offsets = vec![2, 4, 6, 8];
    let grid = NonUniformMemGrid2D::new(size, row_offsets, column_offsets);

    assert_eq!(grid.grid_row_count(), 5);
    assert_eq!(grid.grid_column_count(), 5);
    assert_eq!(9, grid.max_row().unwrap());
    assert_eq!(9, grid.max_col().unwrap());

    let mut index2d = MemIndex2D::new(4, 4);

    let mut grid_index = grid.index2d_to_grid_index(&index2d).unwrap();

    assert_eq!(MemIndex2D { row: 2, col: 2 }, grid_index.0);

    let index_relative_to_grid = grid.index2d_relative_to_grid(&index2d, &grid_index).unwrap();
    assert_eq!(MemIndex2D { row: 0, col: 0 }, index_relative_to_grid);

    assert!(grid.index2d_relative_to_grid(&MemIndex2D::new(1, 1), &GridIndex::new(1, 1)).is_none());
    assert!(grid.index2d_to_grid_index(&MemIndex2D::new(10, 10)).is_none());

    index2d = MemIndex2D::new(8, 8);
    grid_index = GridIndex(MemIndex2D { row: 4, col: 4 });
    assert_eq!(grid_index.0, grid.index2d_to_grid_index(&index2d).unwrap().0);
    assert_eq!(index2d, grid.grid_index_to_index2d(&grid_index).unwrap());

    let expected_span2d: MemSpan2D =
        MemSpan2D::new_from_index2d(MemIndex2D { row: 8, col: 8 }, MemIndex2D { row: 10, col: 10 });
    let actual_span2d: MemSpan2D = grid.grid_index_span2d(&grid_index).unwrap();

    assert_eq!(expected_span2d, actual_span2d);
}

#[test]
fn test_grid_intersections_partial_overlap() {
    let size: Size2D = Size2D::new(30, 30);
    let row_offset: usize = 10;
    let column_offset: usize = 10;
    let grid = MemGrid2D::new(size, row_offset, column_offset);

    let test_span2d =
        MemSpan2D::new_from_index2d(MemIndex2D { row: 0, col: 5 }, MemIndex2D { row: 15, col: 25 });
    let (grid_range, intersections) = grid.grid_intersections(&test_span2d).unwrap();

    let mut expected_grid_range: GridRange2D = GridRange2D(MemSpan2D::new_from_usize(0, 0, 2, 3));
    assert_eq!(expected_grid_range.0, grid_range.0);

    let mut expected_intersections: Vec<GridIntersection> = vec![
        GridIntersection {
            grid_index: GridIndex(MemIndex2D { row: 0, col: 0 }),
            intersection: MemSpan2D::new_from_usize(0, 5, 10, 10),
        },
        GridIntersection {
            grid_index: GridIndex(MemIndex2D { row: 0, col: 1 }),
            intersection: MemSpan2D::new_from_usize(0, 0, 10, 10),
        },
        GridIntersection {
            grid_index: GridIndex(MemIndex2D { row: 0, col: 2 }),
            intersection: MemSpan2D::new_from_usize(0, 0, 10, 5),
        },
        GridIntersection {
            grid_index: GridIndex(MemIndex2D { row: 1, col: 0 }),
            intersection: MemSpan2D::new_from_usize(0, 5, 5, 10),
        },
        GridIntersection {
            grid_index: GridIndex(MemIndex2D { row: 1, col: 1 }),
            intersection: MemSpan2D::new_from_usize(0, 0, 5, 10),
        },
        GridIntersection {
            grid_index: GridIndex(MemIndex2D { row: 1, col: 2 }),
            intersection: MemSpan2D::new_from_usize(0, 0, 5, 5),
        },
    ];

    assert_eq!(expected_intersections, intersections);

    let non_uniform_grid = NonUniformMemGrid2D::new(size, vec![7, 14], vec![7, 14]);
    let (grid_range, intersections) = non_uniform_grid.grid_intersections(&test_span2d).unwrap();

    expected_grid_range = GridRange2D(MemSpan2D::new_from_usize(0, 0, 3, 3));
    assert_eq!(expected_grid_range.0, grid_range.0);

    expected_intersections = vec![
        GridIntersection {
            grid_index: GridIndex(MemIndex2D { row: 0, col: 0 }),
            intersection: MemSpan2D::new_from_usize(0, 5, 7, 7),
        },
        GridIntersection {
            grid_index: GridIndex(MemIndex2D { row: 0, col: 1 }),
            intersection: MemSpan2D::new_from_usize(0, 0, 7, 7),
        },
        GridIntersection {
            grid_index: GridIndex(MemIndex2D { row: 0, col: 2 }),
            intersection: MemSpan2D::new_from_usize(0, 0, 7, 11),
        },
        GridIntersection {
            grid_index: GridIndex(MemIndex2D { row: 1, col: 0 }),
            intersection: MemSpan2D::new_from_usize(0, 5, 7, 7),
        },
        GridIntersection {
            grid_index: GridIndex(MemIndex2D { row: 1, col: 1 }),
            intersection: MemSpan2D::new_from_usize(0, 0, 7, 7),
        },
        GridIntersection {
            grid_index: GridIndex(MemIndex2D { row: 1, col: 2 }),
            intersection: MemSpan2D::new_from_usize(0, 0, 7, 11),
        },
        GridIntersection {
            grid_index: GridIndex(MemIndex2D { row: 2, col: 0 }),
            intersection: MemSpan2D::new_from_usize(0, 5, 1, 7),
        },
        GridIntersection {
            grid_index: GridIndex(MemIndex2D { row: 2, col: 1 }),
            intersection: MemSpan2D::new_from_usize(0, 0, 1, 7),
        },
        GridIntersection {
            grid_index: GridIndex(MemIndex2D { row: 2, col: 2 }),
            intersection: MemSpan2D::new_from_usize(0, 0, 1, 11),
        },
    ];

    assert_eq!(expected_intersections, intersections);
}

#[test]
fn test_grid_variants_agree_asymmetric() {
    // A rectangular space with different cuts per axis: the uniform grid
    // and the boundary-defined grid with the same geometry must decompose
    // every query identically.
    let size = Size2D::new(6, 8);
    let uniform = MemGrid2D::new(size, 3, 2);
    let non_uniform = NonUniformMemGrid2D::new(size, vec![3], vec![2, 4, 6]);
    let queries = [
        MemSpan2D::new_from_usize(0, 0, 6, 8),
        MemSpan2D::new_from_usize(1, 1, 5, 7),
        MemSpan2D::new_from_usize(2, 3, 4, 5),
        MemSpan2D::new_from_usize(3, 2, 6, 8),
    ];
    for q in queries {
        let (ur, ui) = uniform.grid_intersections(&q).unwrap();
        let (nr, ni) = non_uniform.grid_intersections(&q).unwrap();
        assert_eq!(ur.0, nr.0);
        assert_eq!(ui, ni);
    }
}

#[test]
fn test_grid_intersections_rejects_bad_queries() {
    let grid = MemGrid2D::new(Size2D::new(30, 30), 10, 10);
    // An empty query has no cells to decompose.
    assert!(grid.grid_intersections(&MemSpan2D::new_from_usize(5, 5, 5, 9)).is_none());
    // A query poking outside the cell space is rejected.
    assert!(grid.grid_intersections(&MemSpan2D::new_from_usize(0, 0, 31, 10)).is_none());
}

#[test]
fn test_uniform_partial_last_tile() {
    // A tile extent that does not divide the axis leaves one final partial
    // tile of reduced size.
    let grid = MemGrid2D::new(Size2D::new(25, 25), 10, 10);
    assert_eq!(grid.grid_row_count(), 3);
    let last = grid.grid_index_span2d(&GridIndex::new(2, 2)).unwrap();
    assert_eq!(last, MemSpan2D::new_from_usize(20, 20, 25, 25));
    let gi = grid.index2d_to_grid_index(&MemIndex2D::new(24, 3)).unwrap();
    assert_eq!(gi.0, MemIndex2D::new(2, 0));
}
