use tilespace::{MemExtents2D, MemIndex2D, MemOffset2D};

#[test]
fn memory_extents2d_test_intersect_col_disjoint() {
    let left = MemExtents2D {
        min_coord: MemIndex2D::origin(),
        max_coord: MemIndex2D::new(10, 10),
    };

    let right = MemExtents2D {
        min_coord: MemIndex2D::new(0, 11),
        max_coord: MemIndex2D::new(10, 21),
    };

    assert!(!left.intersects(right));
}

#[test]
fn memory_extents2d_test_intersect_col_overlap() {
    let left = MemExtents2D {
        min_coord: MemIndex2D::origin(),
        max_coord: MemIndex2D::new(10, 10),
    };

    let right = MemExtents2D {
        min_coord: MemIndex2D::new(0, 10),
        max_coord: MemIndex2D::new(10, 20),
    };

    assert!(left.intersects(right));
}

#[test]
fn memory_extents2d_test_intersect_row_disjoint() {
    let bottom = MemExtents2D {
        min_coord: MemIndex2D::origin(),
        max_coord: MemIndex2D::new(10, 10),
    };

    let top = MemExtents2D {
        min_coord: MemIndex2D::new(11, 0),
        max_coord: MemIndex2D::new(21, 10),
    };

    assert!(!bottom.intersects(top));
}

#[test]
fn memory_extents2d_test_intersect_row_overlap() {
    let bottom = MemExtents2D {
        min_coord: MemIndex2D::origin(),
        max_coord: MemIndex2D::new(10, 10),
    };

    let top = MemExtents2D {
        min_coord: MemIndex2D::new(10, 0),
        max_coord: MemIndex2D::new(20, 10),
    };

    assert!(bottom.intersects(top));
}

#[test]
fn memory_extents2d_test_intersect_inside() {
    let outer = MemExtents2D {
        min_coord: MemIndex2D::origin(),
        max_coord: MemIndex2D::new(10, 10),
    };

    let inner = MemExtents2D {
        min_coord: MemIndex2D::new(5, 5),
        max_coord: MemIndex2D::new(7, 7),
    };

    assert!(outer.intersects(inner));
}

#[test]
fn test_extents_intersection_corners() {
    let a = MemExtents2D::new_from_usize(0, 0, 10, 10).unwrap();
    let b = MemExtents2D::new_from_usize(5, 3, 20, 8).unwrap();
    let i = a.intersect(b).unwrap();
    assert_eq!(i.get_min_coord(), MemIndex2D::new(5, 3));
    assert_eq!(i.get_max_coord(), MemIndex2D::new(10, 8));
}

#[test]
fn test_extents_construction_and_measures() {
    let e = MemExtents2D::new_width_height(6, 4);
    assert_eq!(e.width(), 6);
    assert_eq!(e.height(), 4);
    assert_eq!(e.area(), 24);
    assert!(MemExtents2D::new_from_coords(MemIndex2D::new(5, 5), MemIndex2D::new(2, 9)).is_err());
    let d = MemExtents2D::new_default();
    assert_eq!(d.get_max_coord(), MemIndex2D::new(1, 1));
}

#[test]
fn test_extents_expand_and_shrink() {
    let mut e = MemExtents2D::new_from_usize(2, 2, 5, 5).unwrap();
    e.try_expand(MemIndex2D::new(0, 7));
    assert_eq!(e.get_min_coord(), MemIndex2D::new(0, 2));
    assert_eq!(e.get_max_coord(), MemIndex2D::new(5, 7));
    // A coordinate outside the rectangle (under the column-first order)
    // leaves it unchanged.
    let mut f = MemExtents2D::new_from_usize(2, 2, 5, 5).unwrap();
    let before = f;
    f.try_shrink(MemIndex2D::new(0, 9));
    assert_eq!(f, before);
    f.update_max(MemIndex2D::new(9, 3));
    assert_eq!(f.get_max_coord(), MemIndex2D::new(9, 5));
}

#[test]
fn test_extents_coordinate_rebase() {
    let e = MemExtents2D::new_from_usize(2, 3, 8, 9).unwrap();
    assert_eq!(
        e.coordinate2d_to_index2d_in_extents(MemIndex2D::new(4, 5)),
        Some(MemIndex2D::new(2, 2))
    );
    assert!(e.coordinate2d_to_index2d_in_extents(MemIndex2D::new(0, 20)).is_none());
    assert_eq!(e.range_coordinate_to_index(MemIndex2D::new(3, 4)), Some(7));
}

#[test]
fn test_coordinate_conversions() {
    assert_eq!(
        MemIndex2D::try_from_offset(MemOffset2D::new(3, 4)),
        Ok(MemIndex2D::new(3, 4))
    );
    assert!(MemIndex2D::try_from_offset(MemOffset2D::new(-1, 4)).is_err());
    assert_eq!(MemIndex2D::try_from_signed(7, 0), Ok(MemIndex2D::new(7, 0)));
    assert!(MemIndex2D::try_from_signed(7, -2).is_err());
}

#[test]
fn test_offset_between_coordinates() {
    let a = MemIndex2D::new(2, 9);
    let b = MemIndex2D::new(5, 4);
    assert_eq!(a.offset_from(b), Some(MemOffset2D::new(-3, 5)));
    assert_eq!(b.offset_from(a), Some(MemOffset2D::new(3, -5)));
    assert_eq!(a.offset_from(a), Some(MemOffset2D::new(0, 0)));
    // A difference wider than the signed range is rejected.
    let far = MemIndex2D::new(usize::MAX, 0);
    assert!(far.offset_from(MemIndex2D::origin()).is_none());
    assert!(MemIndex2D::origin().offset_from(far).is_none());
}
