//! Polyline simplification: reduces the number of points in an ordered
//! polyline while bounding the maximum geometric deviation from the original
//! shape, via an optional radial-distance pre-filter followed by a recursive
//! maximum-deviation (Douglas-Peucker) reduction.

use vstd::prelude::*;

pub mod laws;
pub mod model;
pub mod point;
pub mod traits;

pub use point::Point;
pub use traits::ExtendedNumOps;

verus! {

use crate::model::{
    dp_full, dp_keep, dp_points, lemma_scan_init, radial_keep, radial_spec, scan_max,
    spec_seg_dist, spec_simplify,
};

/// Computes the squared deviation of `pt` from the chord that runs from
/// `start` to `end`: the squared distance from `pt` to the closest point of
/// the chord. A degenerate chord — the zero vector, or one whose squared
/// length is the additive identity — yields the squared distance from `pt`
/// to `start`.
pub fn get_sq_seg_dist<const D: usize, T: ExtendedNumOps>(
    pt: &Point<D, T>,
    start: &Point<D, T>,
    end: &Point<D, T>,
) -> (r: T)
    ensures
        r == spec_seg_dist(pt@, start@, end@),
{
    let mut intersection = *start;
    let difference = end.sub(start);
    let sq_len = difference.sq_dist_origin();

    if difference.is_not_origin() && !sq_len.eq_val(T::zero_val()) {
        let t = pt.sub(start).mul(&difference).value_sum().div_val(sq_len);
        if t.gt_val(T::one_val()) {
            intersection = *end;
        } else if t.gt_val(T::zero_val()) {
            intersection = intersection.add(&difference.scale(t));
        }
    }

    pt.sub(&intersection).sq_dist_origin()
}

/// The radial-distance pre-filter: keeps the first point, then every point
/// whose squared distance to the point kept before it strictly exceeds the
/// squared tolerance `tolerance`, and finally the last point, appended when
/// the walk discarded it — endpoint preservation is unconditional.
#[verifier::loop_isolation(false)]
pub fn simplify_radial_dist<const D: usize, T: ExtendedNumOps>(
    points: &[Point<D, T>],
    tolerance: T,
) -> (result: Vec<Point<D, T>>)
    requires
        points@.len() >= 1,
    ensures
        result@ == radial_spec(points@, tolerance),
{
    let ghost s = points@;
    let mut prev_point = points[0];
    let ghost mut prev_idx: int = 0;
    let mut new_points: Vec<Point<D, T>> = Vec::new();
    new_points.push(prev_point);
    let ghost mut kept: Seq<int> = seq![0int];
    let mut point = prev_point;
    let mut i: usize = 1;
    while i < points.len()
        invariant
            1 <= i <= s.len(),
            0 <= prev_idx < i,
            prev_point == s[prev_idx],
            point == s[if i == 1 {
                0int
            } else {
                i - 1
            }],
            kept.len() == new_points@.len(),
            kept.len() >= 1,
            forall|j: int| 0 <= j < kept.len() ==> new_points@[j] == s[kept[j]],
            kept.last() == prev_idx,
            seq![0int] + radial_keep(s, tolerance, 1, 0) == kept + radial_keep(
                s,
                tolerance,
                i as int,
                prev_idx,
            ),
        decreases s.len() - i,
    {
        point = points[i];
        if point.sq_dist(&prev_point).gt_val(tolerance) {
            proof {
                assert(kept + (seq![i as int] + radial_keep(s, tolerance, i + 1, i as int)) =~= (
                kept + seq![i as int]) + radial_keep(s, tolerance, i + 1, i as int));
            }
            new_points.push(point);
            prev_point = point;
            proof {
                kept = kept + seq![i as int];
                prev_idx = i as int;
            }
        }
        i = i + 1;
    }
    proof {
        assert(kept + radial_keep(s, tolerance, i as int, prev_idx) =~= kept);
        let keptv = seq![0int] + radial_keep(s, tolerance, 1, 0);
        let base = keptv.map_values(|k: int| s[k]);
        assert(new_points@ =~= base);
        assert(point == s[s.len() - 1]);
        assert(s[keptv.last()] == prev_point);
    }
    if !prev_point.eq_components(&point) {
        new_points.push(point);
        proof {
            let keptv = seq![0int] + radial_keep(s, tolerance, 1, 0);
            let base = keptv.map_values(|k: int| s[k]);
            assert(new_points@ =~= base + seq![s[s.len() - 1]]);
        }
    }
    new_points
}

/// One step of the maximum-deviation reducer over the index range
/// `[first, last]`: scans every interior point's squared deviation from the
/// chord between the two endpoints and, when the maximum strictly exceeds the
/// tolerance, reduces the left sub-range, appends the point of maximum
/// deviation, and reduces the right sub-range, so the accumulator receives
/// points in original left-to-right order. The endpoints themselves are
/// appended by the caller, never by this step. A deviation exactly at the
/// tolerance is discarded.
#[verifier::loop_isolation(false)]
pub fn simplify_dp_step<const D: usize, T: ExtendedNumOps>(
    points: &[Point<D, T>],
    first: usize,
    last: usize,
    tolerance: T,
    simplified: &mut Vec<Point<D, T>>,
)
    requires
        first <= last,
        (last as int) < points@.len(),
    ensures
        final(simplified)@ == old(simplified)@ + dp_points(
            points@,
            first as int,
            last as int,
            tolerance,
        ),
    decreases last - first,
{
    let ghost s = points@;
    let ghost f = first as int;
    let ghost l = last as int;
    // Pins the slice length into the usize range for the index arithmetic.
    let _n = points.len();
    let mut max_sq_dist = tolerance;
    let mut max_index: usize = 0;
    let mut i = first + 1;
    while i < last
        invariant
            first + 1 <= i,
            i <= last + 1,
            max_index < i,
            scan_max(s, f, l, f + 1, tolerance, 0) == scan_max(
                s,
                f,
                l,
                i as int,
                max_sq_dist,
                max_index as int,
            ),
        decreases last - i,
    {
        let sq_dist = get_sq_seg_dist(&points[i], &points[first], &points[last]);
        if sq_dist.gt_val(max_sq_dist) {
            max_index = i;
            max_sq_dist = sq_dist;
        }
        i = i + 1;
    }
    proof {
        lemma_scan_init(s, f, l, tolerance);
    }
    if max_sq_dist.gt_val(tolerance) {
        proof {
            assert(first < max_index && max_index < last);
        }
        if max_index - first > 1 {
            simplify_dp_step(points, first, max_index, tolerance, simplified);
        }
        simplified.push(points[max_index]);
        if last - max_index > 1 {
            simplify_dp_step(points, max_index, last, tolerance, simplified);
        }
        proof {
            let mi = max_index as int;
            if mi - f <= 1 {
                assert(dp_keep(s, f, mi, tolerance) =~= Seq::<int>::empty());
            }
            if l - mi <= 1 {
                assert(dp_keep(s, mi, l, tolerance) =~= Seq::<int>::empty());
            }
            assert(dp_points(s, f, l, tolerance) =~= dp_points(s, f, mi, tolerance) + seq![s[mi]]
                + dp_points(s, mi, l, tolerance));
            assert(simplified@ =~= old(simplified)@ + dp_points(s, f, l, tolerance));
        }
    } else {
        proof {
            assert(dp_keep(s, f, l, tolerance) =~= Seq::<int>::empty());
            assert(simplified@ =~= old(simplified)@ + dp_points(s, f, l, tolerance));
        }
    }
}

/// The maximum-deviation reduction of a non-empty sequence: keeps the first
/// point, runs the recursive reducer over the whole index range, then keeps
/// the last point.
pub fn simplify_douglas_peucker<const D: usize, T: ExtendedNumOps>(
    points: &[Point<D, T>],
    tolerance: T,
) -> (result: Vec<Point<D, T>>)
    requires
        points@.len() >= 1,
    ensures
        result@ == dp_full(points@, tolerance),
{
    let mut simplified: Vec<Point<D, T>> = Vec::new();
    simplified.push(points[0]);
    simplify_dp_step(points, 0, points.len() - 1, tolerance, &mut simplified);
    simplified.push(points[points.len() - 1]);
    proof {
        assert(simplified@ =~= dp_full(points@, tolerance));
    }
    simplified
}

/// Simplifies a polyline within the given tolerance.
///
/// `tolerance` is the already-converted squared-distance base measurement:
/// `Some` scalar, or `None` when the caller's conversion of the measurement
/// into `T` failed, in which case the multiplicative identity is used in its
/// place. The tolerance is squared once, and every internal comparison works
/// on squared distances. With `high_quality` set, the whole input goes
/// straight to the maximum-deviation reducer; otherwise the radial
/// pre-filter runs first. An input of at most two points is returned
/// unchanged, and the first and last input points always survive.
pub fn simplify<const D: usize, T: ExtendedNumOps>(
    points: &[Point<D, T>],
    tolerance: Option<T>,
    high_quality: bool,
) -> (result: Vec<Point<D, T>>)
    ensures
        result@ == spec_simplify(points@, tolerance, high_quality),
        result@.len() <= points@.len(),
        points@.len() <= 2 ==> result@ == points@,
        points@.len() >= 1 ==> result@.len() >= 1 && result@[0] == points@[0]
            && result@.last()@ == points@[points@.len() - 1]@,
{
    proof {
        crate::laws::lemma_simplify_len(points@, tolerance, high_quality);
        if points@.len() >= 1 {
            crate::laws::lemma_simplify_endpoints(points@, tolerance, high_quality);
        }
    }
    if points.len() <= 2 {
        return vstd::slice::slice_to_vec(points);
    }
    let tolerance_t = match tolerance {
        Some(t) => t,
        None => T::one_val(),
    };
    let tolerance_sq = tolerance_t.mul_val(tolerance_t);
    let intermediate = if high_quality {
        vstd::slice::slice_to_vec(points)
    } else {
        simplify_radial_dist(points, tolerance_sq)
    };
    simplify_douglas_peucker(intermediate.as_slice(), tolerance_sq)
}

} // verus!

