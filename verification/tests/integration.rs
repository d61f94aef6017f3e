use num_traits::FromPrimitive;
use simplify_polyline::{simplify, Point};

#[test]
fn returns_empty_vec_if_no_points() {
    let result = simplify::<2, i64>(&[], i64::from_f64(1.0), false);
    assert_eq!(result.len(), 0);
}

#[test]
fn returns_same_vec_if_one_point() {
    let input1: &[Point<2, i64>; 1] = &[Point { vec: [0, 0] }];
    let result1 = simplify(input1, i64::from_f64(1.0), false);
    assert_eq!(result1[0], input1[0]);

    let input2 = Point { vec: [0, 0] };
    let result2 = simplify(&[input2], i64::from_f64(1.0), false);
    assert_eq!(result1, result2);
}
