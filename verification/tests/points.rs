use simplify_polyline::Point;

#[test]
fn componentwise_arithmetic() {
    let point2d: Point<2, i32> = Point { vec: [1, 1] };
    let another_point2d: Point<2, i32> = Point { vec: [2, 2] };

    assert_eq!(point2d.add(&another_point2d), Point { vec: [3, 3] });
    assert_eq!(point2d.sub(&another_point2d), Point { vec: [-1, -1] });
    assert_eq!(point2d.mul(&another_point2d), Point { vec: [2, 2] });
    assert_eq!(point2d.scale(7), Point { vec: [7, 7] });
}

#[test]
fn squared_distance() {
    let a: Point<2, i64> = Point { vec: [0, 0] };
    let b: Point<2, i64> = Point { vec: [3, 4] };
    assert_eq!(a.sq_dist(&b), 25);
    assert_eq!(b.sq_dist(&a), 25);

    let c: Point<3, i64> = Point { vec: [0, 0, 0] };
    let d: Point<3, i64> = Point { vec: [1, 2, 2] };
    assert_eq!(c.sq_dist(&d), 9);

    let e: Point<5, i64> = Point { vec: [0, 0, 0, 0, 0] };
    let f: Point<5, i64> = Point { vec: [1, 1, 1, 1, 1] };
    assert_eq!(e.sq_dist(&f), 5);
}

#[test]
fn squared_distance_from_origin() {
    let a: Point<2, i64> = Point { vec: [3, 4] };
    assert_eq!(a.sq_dist_origin(), 25);
    let b: Point<4, i64> = Point { vec: [1, 2, 3, 4] };
    assert_eq!(b.sq_dist_origin(), 30);
}

#[test]
fn sum_of_components() {
    let a: Point<3, i64> = Point { vec: [1, 2, 3] };
    assert_eq!(a.value_sum(), 6);
    let empty: Point<0, i64> = Point { vec: [] };
    assert_eq!(empty.value_sum(), 0);
}

#[test]
fn origin_checks() {
    let origin: Point<2, i64> = Point { vec: [0, 0] };
    assert!(origin.is_origin());
    assert!(!origin.is_not_origin());

    let off: Point<2, i64> = Point { vec: [0, 1] };
    assert!(!off.is_origin());
    assert!(off.is_not_origin());
}

#[test]
fn component_equality() {
    let a: Point<2, i64> = Point { vec: [4, -2] };
    let b: Point<2, i64> = Point { vec: [4, -2] };
    let c: Point<2, i64> = Point { vec: [4, 2] };
    assert!(a.eq_components(&b));
    assert!(!a.eq_components(&c));
}

#[test]
fn integer_arithmetic_wraps_instead_of_panicking() {
    let a: Point<1, i64> = Point { vec: [i64::MAX] };
    let b: Point<1, i64> = Point { vec: [1] };
    assert_eq!(a.add(&b), Point { vec: [i64::MIN] });
}
