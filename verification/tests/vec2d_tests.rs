use tilespace::{MemIndex2D, MemSpan, MemSpan2D, Vec2D};

#[test]
fn test_get_row() {
    let items: Vec<i32> = (0..16).collect(); // 16 items
    let vec2d = Vec2D::from_vec(items, 4).unwrap(); // 4x4 grid

    // Grid looks like:
    // [ 0,   1,   2,   3]
    // [ 4,   5,   6,   7]
    // [ 8,   9,  10,  11]
    // [12,  13,  14,  15]

    let row = vec2d.get_row(1);

    let expected_row = [4, 5, 6, 7];
    assert_eq!(row, Some(expected_row.as_slice()));
}

#[test]
fn test_get_row_mut() {
    let items: Vec<i32> = (0..16).collect(); // 16 items
    let mut vec2d = Vec2D::from_vec(items, 4).unwrap(); // 4x4 grid

    let row = vec2d.get_row_mut(1).unwrap();

    let expected_row = [4, 5, 6, 7];
    assert_eq!(row, expected_row.as_slice());
}

#[test]
fn test_get_row_slice() {
    let items: Vec<i32> = (0..16).collect(); // 16 items
    let vec2d = Vec2D::from_vec(items, 4).unwrap(); // 4x4 grid

    let row = vec2d.get_row_slice(1, MemSpan::lower_bound_upper_bound(1, 3).unwrap());
    let expected_row = [5, 6];
    assert_eq!(row, Some(expected_row.as_slice()));
}

#[test]
fn test_get_row_slice_mut() {
    let items: Vec<i32> = (0..16).collect(); // 16 items
    let mut vec2d = Vec2D::from_vec(items, 4).unwrap(); // 4x4 grid

    let row = vec2d.get_row_slice_mut(1, MemSpan::lower_bound_upper_bound(1, 3).unwrap()).unwrap();
    let expected_row = [5, 6];
    assert_eq!(row, expected_row.as_slice());
}

#[test]
fn test_vec2d_slice() {
    // Create a 4x4 grid with values 0-15
    let items: Vec<i32> = (0..16).collect();
    let vec2d = Vec2D::from_vec(items, 4).unwrap();

    // Get a 2x2 slice from the center
    let slice = vec2d.get_slice(MemSpan2D::new_from_usize(1, 1, 3, 3)).unwrap();

    assert_eq!(slice.span2d.column_count(), 2);
    assert_eq!(slice.span2d.row_count(), 2);

    // Test element access
    assert_eq!(slice.get_span_index(0, 0), Some(&5));
    assert_eq!(slice.get_span_index(0, 1), Some(&6));
    assert_eq!(slice.get_span_index(1, 0), Some(&9));
    assert_eq!(slice.get_span_index(1, 1), Some(&10));

    // Test row access
    assert_eq!(slice.get_span_row(0), Some([5, 6].as_slice()));
    assert_eq!(slice.get_span_row(1), Some([9, 10].as_slice()));

    // Test flattened contents
    let values: Vec<i32> = slice.to_vec();
    assert_eq!(values, vec![5, 6, 9, 10]);

    // Test conversion to Vec2D
    let new_vec2d = slice.to_vec2d();
    assert_eq!(new_vec2d.get(0, 0), Some(&5));
    assert_eq!(new_vec2d.get(1, 1), Some(&10));
}

#[test]
fn test_vec2d_slice_mut() {
    // Create a 4x4 grid with values 0-15
    let items: Vec<i32> = (0..16).collect();
    let mut vec2d = Vec2D::from_vec(items, 4).unwrap();

    // Get a 2x2 slice from the center
    let slice = vec2d.get_slice_mut(MemSpan2D::new_from_usize(1, 1, 3, 3)).unwrap();

    assert_eq!(slice.column_count(), 2);
    assert_eq!(slice.row_count(), 2);

    // Test element access
    assert_eq!(slice.get(0, 0), Some(&5));
    assert_eq!(slice.get(0, 1), Some(&6));
    assert_eq!(slice.get(1, 0), Some(&9));
    assert_eq!(slice.get(1, 1), Some(&10));

    // Test row access
    assert_eq!(slice.get_row(0).unwrap(), [5, 6].as_slice());
    assert_eq!(slice.get_row(1).unwrap(), [9, 10].as_slice());

    // Test flattened contents
    let values: Vec<i32> = slice.to_vec();
    assert_eq!(values, vec![5, 6, 9, 10]);

    // Test conversion to Vec2D
    let new_vec2d = slice.to_vec2d();
    assert_eq!(new_vec2d.get(0, 0), Some(&5));
    assert_eq!(new_vec2d.get(1, 1), Some(&10));
}

#[test]
fn test_slice_edge_cases() {
    let items: Vec<i32> = (0..12).collect();
    let vec2d = Vec2D::new_items_rows_columns(items, 4, 3).unwrap(); // 3x4 grid

    //grid looks like:
    // [0, 1, 2]
    // [3, 4, 5]
    // [6, 7, 8]
    // [9,10,11]

    // Single element slice
    let mut slice = vec2d.get_slice(MemSpan2D::new_from_usize(1, 1, 2, 2)).unwrap();
    assert_eq!(slice.span2d.column_count(), 1);
    assert_eq!(slice.span2d.row_count(), 1);
    assert_eq!(slice.get_span_index(0, 0), Some(&4));

    assert_eq!([6, 7, 8].as_slice(), vec2d.get_row(2).unwrap());

    // Full row slice
    slice = vec2d.get_slice(MemSpan2D::new_from_usize(2, 0, 3, 3)).unwrap();
    assert_eq!(slice.span2d.column_count(), 3);
    assert_eq!(slice.span2d.row_count(), 1);
    assert_eq!(slice.get_span_row(0), Some([6, 7, 8].as_slice()));

    // Invalid bounds should return None
    assert!(vec2d.get_slice(MemSpan2D::new_from_usize(0, 0, 5, 5)).is_none());
    assert!(vec2d.get_slice(MemSpan2D::new_from_usize(2, 1, 1, 1)).is_none()); // min > max
}

#[test]
fn test_slice_edge_cases_mut() {
    let items: Vec<i32> = (0..12).collect();
    let mut vec2d = Vec2D::new_items_rows_columns(items, 4, 3).unwrap(); // 3x4 grid

    // Single element slice
    let slice = vec2d.get_slice_mut(MemSpan2D::new_from_usize(1, 1, 2, 2)).unwrap();
    assert_eq!(slice.column_count(), 1);
    assert_eq!(slice.row_count(), 1);
    assert_eq!(slice.get(0, 0), Some(&4));

    assert_eq!([6, 7, 8].as_slice(), vec2d.get_row(2).unwrap());

    // Full row slice
    let slice = vec2d.get_slice_mut(MemSpan2D::new_from_usize(2, 0, 3, 3)).unwrap();
    assert_eq!(slice.column_count(), 3);
    assert_eq!(slice.row_count(), 1);
    assert_eq!(slice.get_row(0).unwrap(), [6, 7, 8].as_slice());

    // Invalid bounds should return None
    assert!(vec2d.get_slice_mut(MemSpan2D::new_from_usize(0, 0, 5, 5)).is_none());
    assert!(vec2d.get_slice_mut(MemSpan2D::new_from_usize(2, 1, 1, 1)).is_none()); // min > max
}

#[test]
fn test_slice_methods() {
    let items: Vec<i32> = (1..=9).collect();
    let vec2d = Vec2D::from_vec(items, 3).unwrap(); // 3x3 grid with values 1-9

    let slice = vec2d.get_slice(MemSpan2D::new_from_usize(0, 0, 2, 2)).unwrap(); // 2x2 top-left corner

    assert_eq!([1, 2].as_slice(), slice.get_span_row(0).unwrap());
    assert_eq!([4, 5].as_slice(), slice.get_span_row(1).unwrap());
    // Test contains
    assert!(slice.contains(&1));
    assert!(slice.contains(&4));
    assert!(!slice.contains(&9));

    // Test a derived mapping over the contents
    let doubled: Vec<i32> = slice.to_vec().iter().map(|x| x * 2).collect();
    assert_eq!(doubled, vec![2, 4, 8, 10]);

    // Test rows
    let row_sums: Vec<i32> = slice.rows().iter().map(|row| row.iter().sum()).collect();
    assert_eq!(row_sums, vec![3, 9]); // [1+2, 4+5]
}

#[test]
fn test_non_overlapping_chunks_overlap() {
    let items: Vec<i32> = (1..=9).collect();
    let vec2d = Vec2D::from_vec(items, 3).unwrap();

    let ranges: Vec<MemSpan2D> = vec![
        MemSpan2D::new_from_usize(0, 0, 2, 2),
        MemSpan2D::new_from_usize(1, 1, 2, 2),
    ];

    let chunks = vec2d.get_non_overlapping_chunks(ranges);
    assert!(chunks.is_none(), "Expected non, provided spans overlap");
}

#[test]
fn test_non_overlapping_chunks_no_overlap() {
    let items: Vec<i32> = (1..=9).collect();
    let vec2d = Vec2D::from_vec(items, 3).unwrap();

    let mut ranges: Vec<MemSpan2D> = vec![
        MemSpan2D::new_from_usize(0, 0, 1, 2),
        MemSpan2D::new_from_usize(2, 0, 3, 2),
    ];

    let mut chunks = vec2d.get_non_overlapping_chunks(ranges);
    assert!(chunks.is_some(), "Expected some, provided spans do not overlap");
    let mut chunks_unwrap = chunks.unwrap();

    let mut chunk_0 = chunks_unwrap[0].to_vec();
    let mut chunk_1 = chunks_unwrap[1].to_vec();

    assert_eq!(chunk_0, vec![1, 2]);
    assert_eq!(chunk_1, vec![7, 8]);

    ranges = vec![
        MemSpan2D::new_from_usize(0, 0, 1, 3),
        MemSpan2D::new_from_usize(1, 0, 2, 3),
    ];

    chunks = vec2d.get_non_overlapping_chunks(ranges);
    assert!(chunks.is_some(), "Expected some, provided spans do not overlap");

    chunks_unwrap = chunks.unwrap();
    chunk_0 = chunks_unwrap[0].to_vec();
    chunk_1 = chunks_unwrap[1].to_vec();

    assert_eq!(chunk_0, vec![1, 2, 3]);
    assert_eq!(chunk_1, vec![4, 5, 6]);
}

#[test]
fn test_mut_non_overlapping_chunks_overlap() {
    let items: Vec<i32> = (1..=9).collect();
    let mut vec2d = Vec2D::from_vec(items, 3).unwrap();

    let ranges: Vec<MemSpan2D> = vec![
        MemSpan2D::new_from_usize(0, 0, 2, 2),
        MemSpan2D::new_from_usize(1, 1, 2, 2),
    ];

    let chunks = vec2d.get_non_overlapping_chunks_mut(ranges);
    assert!(chunks.is_none(), "Expected non, provided spans overlap");
}

#[test]
fn test_mut_non_overlapping_chunks_no_overlap() {
    let items: Vec<i32> = (1..=9).collect();
    let mut vec2d = Vec2D::from_vec(items, 3).unwrap();

    let mut ranges: Vec<MemSpan2D> = vec![
        MemSpan2D::new_from_usize(0, 0, 1, 2),
        MemSpan2D::new_from_usize(2, 0, 3, 2),
    ];

    let chunks = vec2d.get_non_overlapping_chunks_mut(ranges);
    assert!(chunks.is_some(), "Expected some, provided spans do not overlap");
    let chunks_unwrap = chunks.unwrap();

    let mut chunk_0 = chunks_unwrap.chunk_to_vec(0).unwrap();
    let mut chunk_1 = chunks_unwrap.chunk_to_vec(1).unwrap();

    assert_eq!(chunk_0, vec![1, 2]);
    assert_eq!(chunk_1, vec![7, 8]);

    ranges = vec![
        MemSpan2D::new_from_usize(0, 0, 1, 3),
        MemSpan2D::new_from_usize(1, 0, 2, 3),
    ];

    let chunks = vec2d.get_non_overlapping_chunks_mut(ranges);
    assert!(chunks.is_some(), "Expected some, provided spans do not overlap");

    let chunks_unwrap = chunks.unwrap();
    chunk_0 = chunks_unwrap.chunk_to_vec(0).unwrap();
    chunk_1 = chunks_unwrap.chunk_to_vec(1).unwrap();

    assert_eq!(chunk_0, vec![1, 2, 3]);
    assert_eq!(chunk_1, vec![4, 5, 6]);
}

#[test]
fn test_element_access_and_set() {
    let items: Vec<i32> = (0..12).collect();
    let mut vec2d = Vec2D::new_items_rows_columns(items, 3, 4).unwrap();
    assert_eq!(vec2d.get_index2d(MemIndex2D::new(1, 2)), Some(&6));
    assert!(vec2d.get_index2d(MemIndex2D::new(3, 0)).is_none());
    assert!(vec2d.set(2, 3, 99));
    assert_eq!(vec2d.get(2, 3), Some(&99));
    assert!(!vec2d.set(3, 0, 1));
    let cell = vec2d.get_mut_index2d(MemIndex2D::new(0, 0)).unwrap();
    *cell = -5;
    assert_eq!(vec2d.get(0, 0), Some(&-5));
}

#[test]
fn test_row_mut_writes_reach_buffer() {
    let items: Vec<i32> = (0..16).collect();
    let mut vec2d = Vec2D::from_vec(items, 4).unwrap();
    {
        let row = vec2d.get_row_mut(2).unwrap();
        row[0] = 100;
        row[3] = 200;
    }
    assert_eq!(vec2d.get_row(2), Some([100, 9, 10, 200].as_slice()));
    {
        let seg = vec2d.get_row_slice_mut(0, MemSpan { min: 1, count: 2 }).unwrap();
        seg[1] = -1;
    }
    assert_eq!(vec2d.get_row(0), Some([0, 1, -1, 3].as_slice()));
}

#[test]
fn test_mut_slice_writes_reach_buffer() {
    let items: Vec<i32> = (1..=9).collect();
    let mut vec2d = Vec2D::from_vec(items, 3).unwrap();
    {
        let mut slice = vec2d.get_slice_mut(MemSpan2D::new_from_usize(1, 1, 3, 3)).unwrap();
        assert!(slice.set(0, 0, 50));
        assert!(slice.set(1, 1, 90));
        assert!(!slice.set(2, 0, 7));
    }
    assert_eq!(vec2d.get(1, 1), Some(&50));
    assert_eq!(vec2d.get(2, 2), Some(&90));
    // Cells outside the window kept their values.
    assert_eq!(vec2d.get(0, 0), Some(&1));
    assert_eq!(vec2d.get(2, 0), Some(&7));
}

#[test]
fn test_mut_slice_get_mut() {
    let items: Vec<i32> = (1..=9).collect();
    let mut vec2d = Vec2D::from_vec(items, 3).unwrap();
    {
        let mut slice = vec2d.get_slice_mut(MemSpan2D::new_from_usize(1, 0, 3, 2)).unwrap();
        let cell = slice.get_mut(0, 1).unwrap();
        *cell = -5;
        assert!(slice.get_mut(2, 0).is_none());
        assert!(slice.get_mut(0, 2).is_none());
    }
    assert_eq!(vec2d.get(1, 1), Some(&-5));
    assert_eq!(vec2d.get(1, 0), Some(&4));
}

#[test]
fn test_mut_slice_fill() {
    let items: Vec<i32> = (1..=12).collect();
    let mut vec2d = Vec2D::new_items_rows_columns(items, 4, 3).unwrap();
    {
        let mut slice = vec2d.get_slice_mut(MemSpan2D::new_from_usize(1, 0, 3, 2)).unwrap();
        slice.fill(0);
    }
    assert_eq!(vec2d.get_row(0), Some([1, 2, 3].as_slice()));
    assert_eq!(vec2d.get_row(1), Some([0, 0, 6].as_slice()));
    assert_eq!(vec2d.get_row(2), Some([0, 0, 9].as_slice()));
    assert_eq!(vec2d.get_row(3), Some([10, 11, 12].as_slice()));
}

#[test]
fn test_mut_slice_for_each() {
    let items: Vec<i32> = (1..=9).collect();
    let mut vec2d = Vec2D::from_vec(items, 3).unwrap();
    {
        let mut slice = vec2d.get_slice_mut(MemSpan2D::new_from_usize(0, 1, 2, 3)).unwrap();
        slice.for_each_mut(|x| x * 10);
    }
    assert_eq!(vec2d.get_row(0), Some([1, 20, 30].as_slice()));
    assert_eq!(vec2d.get_row(1), Some([4, 50, 60].as_slice()));
    assert_eq!(vec2d.get_row(2), Some([7, 8, 9].as_slice()));
}

#[test]
fn test_mut_chunk_writes_stay_disjoint() {
    let items: Vec<i32> = (1..=9).collect();
    let mut vec2d = Vec2D::from_vec(items, 3).unwrap();
    {
        let ranges = vec![
            MemSpan2D::new_from_usize(0, 0, 1, 3),
            MemSpan2D::new_from_usize(2, 0, 3, 3),
        ];
        let mut chunks = vec2d.get_non_overlapping_chunks_mut(ranges).unwrap();
        assert_eq!(chunks.chunk_count(), 2);
        assert!(chunks.set(0, 0, 1, -2));
        assert!(chunks.set(1, 0, 0, -7));
        assert_eq!(chunks.get(0, 0, 1), Some(&-2));
        // The write through one chunk is invisible through the other.
        assert_eq!(chunks.chunk_to_vec(1).unwrap(), vec![-7, 8, 9]);
        assert_eq!(chunks.chunk_to_vec(0).unwrap(), vec![1, -2, 3]);
        assert!(!chunks.set(2, 0, 0, 0));
    }
    assert_eq!(vec2d.get_row(0), Some([1, -2, 3].as_slice()));
    assert_eq!(vec2d.get_row(1), Some([4, 5, 6].as_slice()));
    assert_eq!(vec2d.get_row(2), Some([-7, 8, 9].as_slice()));
}

#[test]
fn test_push_range_pastes_window() {
    let items: Vec<i32> = vec![0; 16];
    let mut vec2d = Vec2D::from_vec(items, 4).unwrap();
    let patch = Vec2D::from_vec(vec![1, 2, 3, 4], 2).unwrap();
    vec2d.push_range(MemIndex2D::new(1, 2), patch);
    assert_eq!(vec2d.get_row(0), Some([0, 0, 0, 0].as_slice()));
    assert_eq!(vec2d.get_row(1), Some([0, 0, 1, 2].as_slice()));
    assert_eq!(vec2d.get_row(2), Some([0, 0, 3, 4].as_slice()));
    assert_eq!(vec2d.get_row(3), Some([0, 0, 0, 0].as_slice()));
    // A start corner beyond the extents leaves the buffer unchanged.
    let patch2 = Vec2D::from_vec(vec![9], 1).unwrap();
    vec2d.push_range(MemIndex2D::new(5, 0), patch2);
    assert_eq!(vec2d.get_row(3), Some([0, 0, 0, 0].as_slice()));
}

#[test]
fn test_constructors_reject_bad_shapes() {
    assert!(Vec2D::<i32>::from_vec((0..10).collect(), 4).is_none());
    assert!(Vec2D::<i32>::new_items_rows_columns((0..10).collect(), 3, 4).is_none());
    let filled = Vec2D::new_size_reference(tilespace::Size2D::new(2, 3), &7);
    assert_eq!(filled.get_row(1), Some([7, 7, 7].as_slice()));
    let copy = filled.clone();
    assert_eq!(copy.get(0, 2), Some(&7));
}
