use simplify_polyline::{
    get_sq_seg_dist, simplify_douglas_peucker, simplify_dp_step, simplify_radial_dist, Point,
};

fn pts2(values: &[(i64, i64)]) -> Vec<Point<2, i64>> {
    values.iter().map(|&(x, y)| Point { vec: [x, y] }).collect()
}

#[test]
fn segment_distance_projects_onto_chord() {
    let start: Point<2, i64> = Point { vec: [0, 0] };
    let end: Point<2, i64> = Point { vec: [8, 0] };
    let pt: Point<2, i64> = Point { vec: [8, 5] };
    assert_eq!(get_sq_seg_dist(&pt, &start, &end), 25);
}

#[test]
fn segment_distance_clamps_past_the_end() {
    let start: Point<2, i64> = Point { vec: [0, 0] };
    let end: Point<2, i64> = Point { vec: [2, 0] };
    let pt: Point<2, i64> = Point { vec: [20, 0] };
    assert_eq!(get_sq_seg_dist(&pt, &start, &end), 324);
}

#[test]
fn segment_distance_clamps_before_the_start() {
    let start: Point<2, i64> = Point { vec: [0, 0] };
    let end: Point<2, i64> = Point { vec: [2, 0] };
    let pt: Point<2, i64> = Point { vec: [-4, 0] };
    assert_eq!(get_sq_seg_dist(&pt, &start, &end), 16);
}

#[test]
fn segment_distance_degenerate_chord_measures_to_start() {
    let start: Point<2, i64> = Point { vec: [1, 1] };
    let pt: Point<2, i64> = Point { vec: [4, 5] };
    assert_eq!(get_sq_seg_dist(&pt, &start, &start), 25);
}

#[test]
fn radial_filter_keeps_far_points() {
    let input = pts2(&[(0, 0), (1, 0), (3, 0), (3, 0)]);
    let result = simplify_radial_dist(&input, 1);
    assert_eq!(result, pts2(&[(0, 0), (3, 0)]));
}

#[test]
fn radial_filter_always_restores_the_last_point() {
    let input = pts2(&[(0, 0), (5, 0), (6, 0)]);
    let result = simplify_radial_dist(&input, 1);
    assert_eq!(result, pts2(&[(0, 0), (5, 0), (6, 0)]));
}

#[test]
fn reducer_step_appends_only_interior_points() {
    let input = pts2(&[(0, 0), (1, 5), (2, 0)]);
    let mut simplified: Vec<Point<2, i64>> = Vec::new();
    simplify_dp_step(&input, 0, 2, 0, &mut simplified);
    assert_eq!(simplified, pts2(&[(1, 5)]));
}

#[test]
fn reduction_keeps_point_beyond_tolerance() {
    let input = pts2(&[(0, 0), (1, 5), (2, 0)]);
    let result = simplify_douglas_peucker(&input, 25);
    assert_eq!(result, input);
}

#[test]
fn reduction_drops_tie_at_exact_tolerance() {
    let input = pts2(&[(0, 0), (1, 5), (2, 0)]);
    let result = simplify_douglas_peucker(&input, 26);
    assert_eq!(result, pts2(&[(0, 0), (2, 0)]));
}
