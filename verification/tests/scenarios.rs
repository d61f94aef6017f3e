use num_traits::FromPrimitive;
use simplify_polyline::{get_sq_seg_dist, simplify, Point};

fn pts2(values: &[(i64, i64)]) -> Vec<Point<2, i64>> {
    values.iter().map(|&(x, y)| Point { vec: [x, y] }).collect()
}

#[test]
fn empty_input_gives_empty_output() {
    for &quality in &[false, true] {
        for &tolerance in &[0.0, 0.1, 5.0, f64::NAN] {
            let result = simplify::<2, i64>(&[], i64::from_f64(tolerance), quality);
            assert_eq!(result.len(), 0);
        }
    }
}

#[test]
fn single_point_unchanged() {
    let input = pts2(&[(3, 3)]);
    for &quality in &[false, true] {
        for &tolerance in &[0.0, 0.1, 5.0, f64::NAN] {
            let result = simplify(&input, i64::from_f64(tolerance), quality);
            assert_eq!(result, input);
        }
    }
}

#[test]
fn two_points_unchanged_for_any_tolerance_and_quality() {
    let input = pts2(&[(0, 0), (9, 9)]);
    for &quality in &[false, true] {
        for &tolerance in &[0.0, 1000.0, f64::NAN] {
            let result = simplify(&input, i64::from_f64(tolerance), quality);
            assert_eq!(result, input);
        }
    }
}

#[test]
fn far_midpoint_is_kept() {
    let input = pts2(&[(0, 0), (1, 5), (2, 0)]);
    let result = simplify(&input, i64::from_f64(0.1), false);
    assert_eq!(result, input);
}

#[test]
fn near_midpoint_is_dropped() {
    let input = pts2(&[(0, 0), (1, 1), (200, 0)]);
    let expected = pts2(&[(0, 0), (200, 0)]);
    let result_low = simplify(&input, i64::from_f64(10.0), false);
    assert_eq!(result_low, expected);
    let result_high = simplify(&input, i64::from_f64(10.0), true);
    assert_eq!(result_high, expected);
}

#[test]
fn invalid_tolerance_falls_back_to_one() {
    assert_eq!(i64::from_f64(f64::NAN), None);
    let input = pts2(&[(0, 0), (1, 0), (2, 0)]);
    let expected = pts2(&[(0, 0), (2, 0)]);
    let result = simplify(&input, i64::from_f64(f64::NAN), false);
    assert_eq!(result, expected);
}

#[test]
fn output_never_longer_and_endpoints_survive() {
    let inputs = [
        pts2(&[(0, 0), (1, 5), (2, 0)]),
        pts2(&[(0, 0), (1, 1), (2, 2), (3, 1), (4, 0)]),
        pts2(&[(0, 0), (0, 0), (0, 0), (0, 0)]),
        pts2(&[(5, -3), (8, 1), (-2, 4), (5, -3)]),
    ];
    for input in &inputs {
        for &quality in &[false, true] {
            for &tolerance in &[0.0, 1.0, 3.0, 100.0] {
                let result = simplify(input, i64::from_f64(tolerance), quality);
                assert!(result.len() <= input.len());
                assert!(result.len() >= 1);
                assert_eq!(result[0], input[0]);
                assert_eq!(*result.last().unwrap(), *input.last().unwrap());
            }
        }
    }
}

#[test]
fn raising_tolerance_never_lengthens_high_quality_output() {
    let input = pts2(&[(0, 0), (1, 4), (2, 0), (3, 4), (4, 0)]);
    let mut previous_len = usize::MAX;
    for &tolerance in &[0.5, 2.0, 4.5, 100.0] {
        let result = simplify(&input, i64::from_f64(tolerance), true);
        assert!(result.len() <= previous_len);
        previous_len = result.len();
    }
}

#[test]
fn two_pass_keeps_at_least_what_one_high_quality_pass_keeps() {
    let input = pts2(&[(0, 0), (1, 1), (2, 0), (30, 0)]);
    let tolerance = i64::from_f64(2.0);
    let filtered = simplify(&input, tolerance, false);
    let two_pass = simplify(&filtered, tolerance, true);
    let single_pass = simplify(&input, tolerance, true);
    assert!(two_pass.len() >= single_pass.len());
}

#[test]
fn dropped_point_stays_within_tolerance_of_kept_chord() {
    let input = pts2(&[(0, 0), (1, 1), (200, 0)]);
    let result = simplify(&input, i64::from_f64(10.0), true);
    assert_eq!(result, pts2(&[(0, 0), (200, 0)]));
    let deviation = get_sq_seg_dist(&input[1], &result[0], &result[1]);
    assert!(deviation <= 10 * 10);
}

#[test]
fn radially_dropped_point_stays_within_tolerance_of_kept_neighbor() {
    let input = pts2(&[(0, 0), (1, 1), (5, 5), (200, 0)]);
    let result = simplify(&input, i64::from_f64(4.0), false);
    assert_eq!(result, pts2(&[(0, 0), (5, 5), (200, 0)]));
    let dropped = input[1];
    let kept_before = result[0];
    assert!(dropped.sq_dist(&kept_before) <= 4 * 4);
}

#[test]
fn works_with_another_scalar_type() {
    let input: Vec<Point<2, i32>> =
        vec![Point { vec: [0, 0] }, Point { vec: [1, 1] }, Point { vec: [200, 0] }];
    let expected: Vec<Point<2, i32>> = vec![Point { vec: [0, 0] }, Point { vec: [200, 0] }];
    let result = simplify(&input, i32::from_f64(10.0), false);
    assert_eq!(result, expected);
}

#[test]
fn tie_at_exact_tolerance_is_dropped_by_radial_filter() {
    let input = pts2(&[(0, 0), (3, 4), (10, 0)]);
    let expected = pts2(&[(0, 0), (10, 0)]);
    let result = simplify(&input, i64::from_f64(5.0), false);
    assert_eq!(result, expected);
}
