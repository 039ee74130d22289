use tilespace::{MemIndex2D, MemSpan2D, Size2D};

#[test]
fn test_index2d_to_index() {
    let size = Size2D::new(10, 10);
    let index2d = MemIndex2D::new(5, 5);
    let index = size.index2d_to_index(index2d).unwrap();
    assert_eq!(index, 55);

    assert!(size.index2d_to_index(MemIndex2D::new(10, 10)).is_none());
    assert_eq!(0, size.index2d_to_index(MemIndex2D::origin()).unwrap());
}

#[test]
fn test_index_to_index2d() {
    let size = Size2D::new(10, 10);
    let index = 55;
    let index2d = size.index_to_index2d(index).unwrap();
    assert_eq!(index2d, MemIndex2D::new(5, 5));

    assert!(size.index_to_index2d(100).is_none());
    assert_eq!(MemIndex2D::origin(), size.index_to_index2d(0).unwrap());
}

#[test]
fn test_linear_index_round_trip() {
    // A non-square space: every coordinate survives the trip through its
    // linear index.
    let size = Size2D::new(7, 5);
    for row in 0..7usize {
        for col in 0..5usize {
            let coordinate = MemIndex2D::new(row, col);
            let index = size.index2d_to_index(coordinate).unwrap();
            assert_eq!(size.index_to_index2d(index).unwrap(), coordinate);
        }
    }
    assert_eq!(size.index2d_to_index(MemIndex2D::new(3, 2)), Some(17));
}

#[test]
fn test_area_and_extrema() {
    let size = Size2D::new(4, 6);
    assert_eq!(size.area(), 24);
    assert_eq!(size.len(), 24);
    assert_eq!(size.max_index(), 23);
    assert_eq!(size.max_row(), Some(3));
    assert_eq!(size.max_col(), Some(5));
    assert_eq!(size.max_index2d(), Some(MemIndex2D::new(3, 5)));
    assert!(Size2D::new(0, 6).max_row().is_none());
    assert!(Size2D::new(0, 6).max_index2d().is_none());
}

#[test]
fn test_contains_span2d() {
    let size = Size2D::new(4, 6);
    assert!(size.contains_span2d(&MemSpan2D::new_from_usize(0, 0, 4, 6)));
    assert!(size.contains_span2d(&MemSpan2D::new_from_usize(1, 2, 3, 5)));
    assert!(!size.contains_span2d(&MemSpan2D::new_from_usize(0, 0, 5, 6)));
    assert!(!size.contains_span2d(&MemSpan2D::new_from_usize(0, 3, 4, 7)));
}

#[test]
fn test_to_span2d() {
    let size = Size2D::new(3, 4);
    let span = size.to_span2d();
    assert_eq!(span, MemSpan2D::new_from_usize(0, 0, 3, 4));
    assert_eq!(size.row_column_to_index(2, 3), Some(11));
    assert!(size.row_column_to_index(3, 0).is_none());
}
