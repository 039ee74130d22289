use tilespace::{MemIndex2D, MemSpan2D, MemSpanIndex2D};

#[test]
fn test_indexing() {
    let span: MemSpan2D = MemSpan2D::new_from_usize(1, 1, 3, 3);

    let min_row_span_index2d: MemSpanIndex2D = span.min_relative_index_for_row(0).unwrap();
    assert_eq!(MemIndex2D::new(0, 0), min_row_span_index2d.0);

    let min_row_index2d: MemIndex2D =
        span.relative_index2d_to_absolute_index2d(min_row_span_index2d).unwrap();
    assert_eq!(MemIndex2D::new(1, 1), min_row_index2d);
}

#[test]
fn memory_span2d_test_intersect_col_disjoint() {
    let mut left = MemSpan2D::new_from_index2d(MemIndex2D::origin(), MemIndex2D::new(10, 10));
    let mut right =
        MemSpan2D::new_from_index2d(MemIndex2D::new(0, 11), MemIndex2D::new(10, 21));

    assert!(!left.overlaps(&right));

    left = MemSpan2D::new_from_index2d(MemIndex2D::origin(), MemIndex2D::new(10, 10));
    right = MemSpan2D::new_from_index2d(MemIndex2D::new(0, 10), MemIndex2D::new(10, 20));

    assert!(!left.overlaps(&right));
}

#[test]
fn test_intersect_col_lower_upper_overlap() {
    let lhs: MemSpan2D = MemSpan2D::new_from_usize(0, 0, 10, 10);
    let rhs: MemSpan2D = MemSpan2D::new_from_usize(0, 10, 10, 20);
    let expected_intersection: MemSpan2D = MemSpan2D::new_from_usize(0, 10, 10, 10);
    assert_eq!(lhs.intersect(&rhs).unwrap(), expected_intersection);
    assert_eq!(rhs.intersect(&lhs).unwrap(), expected_intersection);
    assert_eq!(0, expected_intersection.area());
}

#[test]
fn memory_span2d_test_intersect_col_overlap() {
    let lhs: MemSpan2D = MemSpan2D::new_from_usize(0, 0, 10, 10);
    let rhs: MemSpan2D = MemSpan2D::new_from_usize(0, 5, 10, 15);
    let expected_intersection: MemSpan2D = MemSpan2D::new_from_usize(0, 5, 10, 10);
    assert_eq!(lhs.intersect(&rhs).unwrap(), expected_intersection);
    assert_eq!(rhs.intersect(&lhs).unwrap(), expected_intersection);
    assert_eq!(50, expected_intersection.area());
}

#[test]
fn test_row_lower_upper_overlap() {
    let lhs: MemSpan2D = MemSpan2D::new_from_usize(0, 0, 10, 10);
    let rhs: MemSpan2D = MemSpan2D::new_from_usize(10, 0, 20, 10);
    let expected_intersection: MemSpan2D = MemSpan2D::new_from_usize(10, 0, 10, 10);
    assert_eq!(lhs.intersect(&rhs).unwrap(), expected_intersection);
    assert_eq!(rhs.intersect(&lhs).unwrap(), expected_intersection);
    assert_eq!(0, expected_intersection.area());
}

#[test]
fn memory_span2d_test_intersect_row_disjoint() {
    let lhs: MemSpan2D = MemSpan2D::new_from_usize(0, 0, 10, 10);
    let rhs: MemSpan2D = MemSpan2D::new_from_usize(11, 0, 21, 10);

    assert!(lhs.intersect(&rhs).is_none());
    assert!(rhs.intersect(&lhs).is_none());
}

#[test]
fn memory_span2d_test_intersect_row_overlap() {
    let lhs: MemSpan2D = MemSpan2D::new_from_usize(0, 0, 10, 20);
    let rhs: MemSpan2D = MemSpan2D::new_from_usize(5, 10, 15, 20);
    let expected_intersection: MemSpan2D = MemSpan2D::new_from_usize(5, 10, 10, 20);
    assert_eq!(lhs.intersect(&rhs).unwrap(), expected_intersection);
    assert_eq!(rhs.intersect(&lhs).unwrap(), expected_intersection);
    assert_eq!(50, expected_intersection.area());
}

#[test]
fn memory_span2d_test_intersect_inside() {
    let lhs: MemSpan2D = MemSpan2D::new_from_usize(0, 0, 10, 10);
    let rhs: MemSpan2D = MemSpan2D::new_from_usize(5, 5, 9, 9);
    let expected_intersection: MemSpan2D = MemSpan2D::new_from_usize(5, 5, 9, 9);
    assert_eq!(lhs.intersect(&rhs).unwrap(), expected_intersection);
    assert_eq!(rhs.intersect(&lhs).unwrap(), expected_intersection);
}

#[test]
fn test_intersect2d_self_is_self() {
    let a = MemSpan2D::new_from_usize(2, 3, 7, 9);
    assert_eq!(a.intersect(&a), Some(a));
}

#[test]
fn test_shift2d_forms() {
    let a = MemSpan2D::new_from_usize(2, 3, 7, 9);
    let shifted = a.shift(tilespace::MemOffset2D::new(1, -2)).unwrap();
    assert_eq!(shifted, MemSpan2D::new_from_usize(3, 1, 8, 7));
    assert!(a.shift_columns(-4).is_none());
    let grown = a.shift_max_rows(2).unwrap();
    assert_eq!(grown, MemSpan2D::new_from_usize(2, 3, 9, 9));
    let shrunk = a.shift_min_columns(3).unwrap();
    assert_eq!(shrunk, MemSpan2D::new_from_usize(2, 6, 7, 9));
}

#[test]
fn test_contains2d_is_half_open() {
    let a = MemSpan2D::new_from_usize(2, 3, 5, 7);
    assert!(a.contains(&MemSpanIndex2D::new(2, 3)));
    assert!(a.contains(&MemSpanIndex2D::new(4, 6)));
    assert!(!a.contains(&MemSpanIndex2D::new(5, 3)));
    assert!(!a.contains(&MemSpanIndex2D::new(2, 7)));
    assert!(!a.contains(&MemSpanIndex2D::new(1, 4)));
    assert!(a.contains_row(4));
    assert!(!a.contains_row(5));
    assert!(!a.contains_row(1));
}

#[test]
fn test_spans_overlap_or_invalid() {
    let good = vec![
        MemSpan2D::new_from_usize(0, 0, 1, 2),
        MemSpan2D::new_from_usize(2, 0, 3, 2),
    ];
    assert!(!MemSpan2D::spans_overlap_or_invalid(&good));
    let with_empty = vec![
        MemSpan2D::new_from_usize(0, 0, 1, 2),
        MemSpan2D::new_from_usize(2, 2, 2, 2),
    ];
    assert!(MemSpan2D::spans_overlap_or_invalid(&with_empty));
    let with_overlap = vec![
        MemSpan2D::new_from_usize(0, 0, 2, 2),
        MemSpan2D::new_from_usize(1, 1, 3, 3),
    ];
    assert!(MemSpan2D::spans_overlap_or_invalid(&with_overlap));
}
