use tilespace::{MemExtents2D, MemIndex2D, OptionVec2D};

#[test]
fn test_option_vec2d_new_and_bounds() {
    let store: OptionVec2D<i32> = OptionVec2D::new((1..=6).collect(), 3, 2);
    assert!(store.index2d_in_bounds(MemIndex2D::new(1, 2)));
    assert!(!store.index2d_in_bounds(MemIndex2D::new(2, 0)));
    assert_eq!(store.index2d_to_index(MemIndex2D::new(1, 2)), Some(5));
    assert!(store.index2d_to_index(MemIndex2D::new(0, 3)).is_none());
    assert_eq!(store.index_to_index2d(4), Some(MemIndex2D::new(1, 1)));
    assert!(store.index_to_index2d(6).is_none());
}

#[test]
fn test_take_at_takes_once() {
    let mut store: OptionVec2D<i32> = OptionVec2D::new((1..=6).collect(), 3, 2);
    assert_eq!(store.take_at(MemIndex2D::new(1, 0)), Ok(4));
    // The cell is now a hole: taking again fails and changes nothing.
    assert!(store.take_at(MemIndex2D::new(1, 0)).is_err());
    // Out of bounds fails as well.
    assert!(store.take_at(MemIndex2D::new(2, 0)).is_err());
    // Other cells are still present.
    assert_eq!(store.take_at(MemIndex2D::new(0, 0)), Ok(1));
}

#[test]
fn test_take_range_moves_region_out() {
    let mut store: OptionVec2D<i32> = OptionVec2D::new((1..=12).collect(), 4, 3);
    // Store rows: [1,2,3,4] / [5,6,7,8] / [9,10,11,12].
    let region = MemExtents2D::new_from_usize(0, 1, 2, 3).unwrap();
    let taken = store.take_range(region).unwrap();
    assert_eq!(taken.row_count(), 2);
    assert_eq!(taken.column_count(), 2);
    assert_eq!(taken.get_row(0), Some([2, 3].as_slice()));
    assert_eq!(taken.get_row(1), Some([6, 7].as_slice()));
    // The taken cells are holes now; the rest survived.
    assert!(store.take_at(MemIndex2D::new(0, 1)).is_err());
    assert!(store.take_at(MemIndex2D::new(1, 2)).is_err());
    assert_eq!(store.take_at(MemIndex2D::new(0, 0)), Ok(1));
    assert_eq!(store.take_at(MemIndex2D::new(2, 3)), Ok(12));
    // Taking the same region again fails: a cell is already gone.
    let region_again = MemExtents2D::new_from_usize(0, 1, 2, 3).unwrap();
    assert!(store.take_range(region_again).is_err());
}

#[test]
fn test_take_range_rejects_bad_regions() {
    let mut store: OptionVec2D<i32> = OptionVec2D::new((1..=12).collect(), 4, 3);
    // Empty on an axis.
    let empty = MemExtents2D::new_from_usize(1, 1, 1, 3).unwrap();
    assert!(store.take_range(empty).is_err());
    // Poking outside the store.
    let outside = MemExtents2D::new_from_usize(0, 0, 4, 2).unwrap();
    assert!(store.take_range(outside).is_err());
    // Nothing was disturbed by the failures.
    assert_eq!(store.take_at(MemIndex2D::new(0, 0)), Ok(1));
}

#[test]
fn test_clone_cell_range_copies_holes_and_values() {
    let mut store: OptionVec2D<i32> = OptionVec2D::new((1..=12).collect(), 4, 3);
    store.take_at(MemIndex2D::new(1, 1)).unwrap();
    let region = MemExtents2D::new_from_usize(0, 0, 2, 2).unwrap();
    let mut copy = store.clone_cell_range(region).unwrap();
    // The copy is shaped like the region and mirrors values and holes.
    assert_eq!(copy.take_at(MemIndex2D::new(0, 0)), Ok(1));
    assert_eq!(copy.take_at(MemIndex2D::new(0, 1)), Ok(2));
    assert_eq!(copy.take_at(MemIndex2D::new(1, 0)), Ok(5));
    assert!(copy.take_at(MemIndex2D::new(1, 1)).is_err());
    // The source still owns its remaining values.
    assert_eq!(store.take_at(MemIndex2D::new(0, 0)), Ok(1));
    // A malformed region is rejected.
    let bad = MemExtents2D::new_from_usize(2, 2, 2, 4).unwrap();
    assert!(store.clone_cell_range(bad).is_err());
}

#[test]
fn test_new_empty_is_all_holes() {
    let extents = MemExtents2D::new_width_height(3, 2);
    let mut store: OptionVec2D<i32> = OptionVec2D::new_empty(extents);
    assert!(store.index2d_in_bounds(MemIndex2D::new(1, 2)));
    assert!(store.take_at(MemIndex2D::new(0, 0)).is_err());
    assert!(store.take_at(MemIndex2D::new(1, 2)).is_err());
}
