use tilespace::MemSpan;

///5 cases
///A_min < B_min & A_max < B_Max -> A_min..B_max
///A_min == B_min && A_max == B_Max -> A_min..B_max
///A_min > B_min && A_max < B_Max -> A_min..A_max
///A_min < B_max && A_max > B_max -> A_min..B_max
#[test]
fn test_intersection() {
    let mut a = MemSpan::min_max(1, 100).unwrap();
    assert_eq!(100, MemSpan::max(&a).unwrap());
    let mut b = MemSpan::min_max(50, 150).unwrap();
    let mut intersect: MemSpan = a.intersect(&b).unwrap();
    assert_eq!(50, intersect.min);
    assert_eq!(100, MemSpan::max(&intersect).unwrap());

    a = MemSpan::min_max(1, 100).unwrap();
    b = MemSpan::min_max(1, 100).unwrap();
    intersect = a.intersect(&b).unwrap();
    assert_eq!(1, intersect.min);
    assert_eq!(100, intersect.max_value().unwrap());

    intersect = b.intersect(&a).unwrap();
    assert_eq!(1, intersect.min);
    assert_eq!(100, intersect.max_value().unwrap());

    a = MemSpan::min_max(50, 75).unwrap();
    b = MemSpan::min_max(1, 100).unwrap();
    intersect = a.intersect(&b).unwrap();
    assert_eq!(50, intersect.min);
    assert_eq!(75, MemSpan::max(&intersect).unwrap());

    intersect = b.intersect(&a).unwrap();
    assert_eq!(50, intersect.min);
    assert_eq!(75, intersect.max_value().unwrap());

    a = MemSpan::min_max(50, 100).unwrap();
    b = MemSpan::min_max(1, 75).unwrap();
    intersect = a.intersect(&b).unwrap();
    assert_eq!(50, intersect.min);
    assert_eq!(75, intersect.max_value().unwrap());
}

#[test]
fn test_intersect_commutes_concrete() {
    let a = MemSpan::lower_bound_upper_bound(3, 9).unwrap();
    let b = MemSpan::lower_bound_upper_bound(7, 20).unwrap();
    assert_eq!(a.intersect(&b), b.intersect(&a));
    assert_eq!(a.intersect(&b).unwrap(), MemSpan { min: 7, count: 2 });
}

#[test]
fn test_intersect_self_is_self() {
    let a = MemSpan::lower_bound_upper_bound(4, 11).unwrap();
    assert_eq!(a.intersect(&a), Some(a));
}

#[test]
fn test_intersect_empty_span_absent() {
    let empty = MemSpan { min: 5, count: 0 };
    let full = MemSpan { min: 0, count: 10 };
    assert!(empty.intersect(&full).is_none());
    assert!(full.intersect(&empty).is_none());
}

#[test]
fn test_overlaps_touching_is_no_overlap() {
    let a = MemSpan { min: 0, count: 10 };
    let b = MemSpan { min: 10, count: 10 };
    // The spans touch at the boundary: the intersection is present but
    // empty, so this is not an overlap.
    assert_eq!(a.intersect(&b).unwrap().count, 0);
    assert!(!a.overlaps(&b));
    let c = MemSpan { min: 9, count: 5 };
    assert!(a.overlaps(&c));
}

#[test]
fn test_bounds_and_len() {
    let s = MemSpan::new_range(3..8);
    assert_eq!(s.lower_bound(), 3);
    assert_eq!(s.upper_bound(), 8);
    assert_eq!(s.len(), 5);
    assert_eq!(s.max(), Some(7));
    let inverted = MemSpan::new_range(8..3);
    assert_eq!(inverted.len(), 0);
    assert!(inverted.max().is_none());
}

#[test]
fn test_min_max_boundary_forms() {
    // An empty-but-present span arises when min == max + 1.
    assert_eq!(MemSpan::min_max(6, 5), Some(MemSpan { min: 6, count: 0 }));
    assert!(MemSpan::min_max(7, 5).is_none());
    assert!(MemSpan::lower_bound_upper_bound(9, 4).is_none());
}

#[test]
fn test_shift_checked_forms() {
    let s = MemSpan { min: 10, count: 5 };
    assert_eq!(s.shift_up_checked(7), Some(MemSpan { min: 17, count: 5 }));
    assert_eq!(s.shift_down_checked(10), Some(MemSpan { min: 0, count: 5 }));
    assert!(s.shift_down_checked(11).is_none());
    assert!(MemSpan { min: usize::MAX - 2, count: 2 }.shift_up_checked(1).is_none());
    assert_eq!(s.shift_checked(-3), Some(MemSpan { min: 7, count: 5 }));
    assert_eq!(s.shift_checked(0), Some(s));
}

#[test]
fn test_shift_min_max_checked() {
    let s = MemSpan { min: 10, count: 5 };
    // Growing from the top, shrinking from the top.
    assert_eq!(s.shift_max_up_checked(3), Some(MemSpan { min: 10, count: 8 }));
    assert_eq!(s.shift_max_down_checked(5), Some(MemSpan { min: 10, count: 0 }));
    assert!(s.shift_max_down_checked(6).is_none());
    // Shrinking from the bottom, growing from the bottom.
    assert_eq!(s.shift_min_up_checked(5), Some(MemSpan { min: 15, count: 0 }));
    assert!(s.shift_min_up_checked(6).is_none());
    assert_eq!(s.shift_min_down_checked(10), Some(MemSpan { min: 0, count: 15 }));
    assert_eq!(s.shift_max_checked(-2), Some(MemSpan { min: 10, count: 3 }));
    assert_eq!(s.shift_min_checked(2), Some(MemSpan { min: 12, count: 3 }));
}

#[test]
fn test_shift_wrapping_forms() {
    let s = MemSpan { min: usize::MAX, count: 1 };
    assert_eq!(s.shift_up_wrapping(1).min, 0);
    let t = MemSpan { min: 0, count: 1 };
    assert_eq!(t.shift_down_wrapping(1).min, usize::MAX);
    assert_eq!(t.shift_wrapping(5).min, 5);
    assert_eq!(MemSpan { min: 7, count: 2 }.shift_wrapping(-7).min, 0);
}

#[test]
fn test_spans_have_overlap_sorted() {
    let disjoint = vec![
        MemSpan { min: 0, count: 3 },
        MemSpan { min: 5, count: 3 },
        MemSpan { min: 10, count: 3 },
    ];
    assert!(!MemSpan::spans_have_overlap_sorted(&disjoint));
    let overlapping = vec![MemSpan { min: 0, count: 8 }, MemSpan { min: 4, count: 8 }];
    assert!(MemSpan::spans_have_overlap_sorted(&overlapping));
    // Sharing only the last index of the earlier span is still an overlap.
    let shared_last = vec![MemSpan { min: 0, count: 2 }, MemSpan { min: 1, count: 1 }];
    assert!(MemSpan::spans_have_overlap_sorted(&shared_last));
    // An empty span nested inside another overlaps nothing.
    let with_empty = vec![MemSpan { min: 0, count: 10 }, MemSpan { min: 5, count: 0 }];
    assert!(!MemSpan::spans_have_overlap_sorted(&with_empty));
    // An empty span between two overlapping ones does not hide the pair.
    let hidden = vec![
        MemSpan { min: 0, count: 10 },
        MemSpan { min: 5, count: 0 },
        MemSpan { min: 6, count: 2 },
    ];
    assert!(MemSpan::spans_have_overlap_sorted(&hidden));
    // Touching at a boundary is no overlap.
    let touching = vec![MemSpan { min: 0, count: 10 }, MemSpan { min: 10, count: 4 }];
    assert!(!MemSpan::spans_have_overlap_sorted(&touching));
}

#[test]
fn test_contains_is_half_open() {
    let s = MemSpan { min: 5, count: 3 };
    assert!(!s.contains(4));
    assert!(s.contains(5));
    assert!(s.contains(6));
    assert!(s.contains(7));
    assert!(!s.contains(8));
    assert!(!MemSpan { min: 5, count: 0 }.contains(5));
}
