//! The mathematical model of the simplification pipeline: specification
//! functions that say exactly which points the radial filter and the
//! maximum-deviation reducer keep, and the lemmas about the deviation scan
//! that the executable code and the public laws rely on.

use crate::point::{
    seq_add, seq_mul, seq_scale, seq_sub, seq_total, spec_is_origin, spec_sq_dist,
    spec_sq_dist_origin, Point,
};
use crate::traits::ExtendedNumOps;
use vstd::prelude::*;

verus! {

/// The squared deviation of the point `p` from the chord that runs from `s`
/// to `e`: the squared distance from `p` to the closest point of the chord,
/// found by projecting `p` onto the chord and clamping the projection
/// parameter to the chord's extent. A degenerate chord (the zero vector, or
/// one whose squared length is the additive identity) yields the squared
/// distance from `p` to `s`.
pub open spec fn spec_seg_dist<T: ExtendedNumOps>(p: Seq<T>, s: Seq<T>, e: Seq<T>) -> T {
    let diff = seq_sub(e, s);
    let sq0 = spec_sq_dist_origin(diff);
    let inter = if !spec_is_origin(diff) && sq0 != T::zero_spec() {
        let t = seq_total(seq_mul(seq_sub(p, s), diff)).div_spec(sq0);
        if t.gt_spec(T::one_spec()) {
            e
        } else if t.gt_spec(T::zero_spec()) {
            seq_add(s, seq_scale(diff, t))
        } else {
            s
        }
    } else {
        s
    };
    spec_sq_dist_origin(seq_sub(p, inter))
}

/// The squared deviation of point `i` of `s` from the chord between points
/// `f` and `l` of `s`.
pub open spec fn spec_dev<const D: usize, T: ExtendedNumOps>(
    s: Seq<Point<D, T>>,
    f: int,
    l: int,
    i: int,
) -> T {
    spec_seg_dist(s[i]@, s[f]@, s[l]@)
}

/// The deviation scan of the reducer over the interior indices `i .. l` of
/// the range `[f, l]`, carrying the running maximum `m` attained at index
/// `mi`: returns the final maximum and its index. Only a deviation strictly
/// above the running maximum displaces it.
pub open spec fn scan_max<const D: usize, T: ExtendedNumOps>(
    s: Seq<Point<D, T>>,
    f: int,
    l: int,
    i: int,
    m: T,
    mi: int,
) -> (T, int)
    decreases l - i,
{
    if i >= l {
        (m, mi)
    } else {
        let d = spec_dev(s, f, l, i);
        if d.gt_spec(m) {
            scan_max(s, f, l, i + 1, d, i)
        } else {
            scan_max(s, f, l, i + 1, m, mi)
        }
    }
}

/// What the deviation scan guarantees, stated for any intermediate state
/// `(m, mi)` that either is still the initial state `(tol, 0)` or records the
/// deviation of an interior index already scanned: the final maximum never
/// falls, exceeds the initial tolerance exactly when some update happened,
/// and no scanned deviation exceeds it.
proof fn lemma_scan_props<const D: usize, T: ExtendedNumOps>(
    s: Seq<Point<D, T>>,
    f: int,
    l: int,
    i: int,
    m: T,
    mi: int,
    tol: T,
)
    requires
        0 <= f,
        f + 1 <= i,
        (mi == 0 && m == tol) || (f < mi && mi < i && mi < l && m == spec_dev(s, f, l, mi)),
        m == tol || m.gt_spec(tol),
    ensures
        ({
            let (rm, rmi) = scan_max(s, f, l, i, m, mi);
            &&& (rm == m && rmi == mi) || (i <= rmi && rmi < l && f < rmi && rm == spec_dev(
                s,
                f,
                l,
                rmi,
            ))
            &&& rm == m || rm.gt_spec(m)
            &&& rm == tol || rm.gt_spec(tol)
            &&& (rm == m && rmi == mi) || rm.gt_spec(tol)
            &&& rm.gt_spec(tol) ==> (f < rmi && rmi < l && rm == spec_dev(s, f, l, rmi))
            &&& forall|j: int| i <= j < l ==> !spec_dev(s, f, l, j).gt_spec(rm)
        }),
    decreases (if i < l {
        l - i
    } else {
        0
    }),
{
    let (rm, rmi) = scan_max(s, f, l, i, m, mi);
    if i >= l {
        if rm.gt_spec(tol) && m == tol {
            T::lemma_order_laws(tol, tol, tol);
        }
    } else {
        let d = spec_dev(s, f, l, i);
        if d.gt_spec(m) {
            T::lemma_order_laws(d, m, tol);
            lemma_scan_props(s, f, l, i + 1, d, i, tol);
            T::lemma_order_laws(rm, d, m);
            T::lemma_order_laws(d, rm, d);
        } else {
            lemma_scan_props(s, f, l, i + 1, m, mi, tol);
            T::lemma_order_laws(d, rm, m);
            T::lemma_order_laws(d, m, tol);
            if rm.gt_spec(tol) && m == tol {
                T::lemma_order_laws(tol, tol, tol);
            }
        }
    }
}

/// The deviation scan as the reducer starts it: from the initial state
/// `(tol, 0)` over all interior indices of `[f, l]`. If the final maximum
/// exceeds the tolerance it is the deviation of an interior index; otherwise
/// the state never moved. No interior deviation exceeds the final maximum.
pub(crate) proof fn lemma_scan_init<const D: usize, T: ExtendedNumOps>(
    s: Seq<Point<D, T>>,
    f: int,
    l: int,
    tol: T,
)
    requires
        0 <= f,
    ensures
        ({
            let (rm, rmi) = scan_max(s, f, l, f + 1, tol, 0);
            &&& rm.gt_spec(tol) ==> (f < rmi && rmi < l && rm == spec_dev(s, f, l, rmi))
            &&& !rm.gt_spec(tol) ==> (rm == tol && rmi == 0)
            &&& forall|j: int| f < j < l ==> !spec_dev(s, f, l, j).gt_spec(rm)
        }),
{
    lemma_scan_props(s, f, l, f + 1, tol, 0, tol);
}

/// The interior indices the maximum-deviation reducer keeps inside the range
/// `[f, l]`, in left-to-right order: none if the range has no interior or if
/// no interior deviation strictly exceeds the tolerance; otherwise the kept
/// indices of the left sub-range, the index of the maximum deviation, and the
/// kept indices of the right sub-range.
pub open spec fn dp_keep<const D: usize, T: ExtendedNumOps>(
    s: Seq<Point<D, T>>,
    f: int,
    l: int,
    tol: T,
) -> Seq<int>
    decreases l - f,
    when 0 <= f && f <= l && l < s.len()
    via dp_keep_decreases::<D, T>
{
    if f + 1 >= l {
        Seq::empty()
    } else {
        let r = scan_max(s, f, l, f + 1, tol, 0);
        if r.0.gt_spec(tol) {
            dp_keep(s, f, r.1, tol) + seq![r.1] + dp_keep(s, r.1, l, tol)
        } else {
            Seq::empty()
        }
    }
}

#[via_fn]
proof fn dp_keep_decreases<const D: usize, T: ExtendedNumOps>(
    s: Seq<Point<D, T>>,
    f: int,
    l: int,
    tol: T,
) {
    if f + 1 < l {
        let r = scan_max(s, f, l, f + 1, tol, 0);
        if r.0.gt_spec(tol) {
            lemma_scan_init(s, f, l, tol);
        }
    }
}

/// The points of `s` at the interior indices the reducer keeps in `[f, l]`.
pub open spec fn dp_points<const D: usize, T: ExtendedNumOps>(
    s: Seq<Point<D, T>>,
    f: int,
    l: int,
    tol: T,
) -> Seq<Point<D, T>> {
    dp_keep(s, f, l, tol).map_values(|k: int| s[k])
}

/// The full maximum-deviation reduction of a non-empty sequence: its first
/// point, the kept interior points of the whole range, and its last point.
pub open spec fn dp_full<const D: usize, T: ExtendedNumOps>(
    s: Seq<Point<D, T>>,
    tol: T,
) -> Seq<Point<D, T>>
    recommends
        s.len() >= 1,
{
    seq![s[0]] + dp_points(s, 0, s.len() - 1, tol) + seq![s.last()]
}

/// The indices the radial filter keeps from position `i` onward, when the
/// point last kept sits at index `prev`: a point is kept, and becomes the new
/// reference, exactly when its squared distance to the reference strictly
/// exceeds the squared tolerance.
pub open spec fn radial_keep<const D: usize, T: ExtendedNumOps>(
    s: Seq<Point<D, T>>,
    tol: T,
    i: int,
    prev: int,
) -> Seq<int>
    decreases s.len() - i,
{
    if i >= s.len() {
        Seq::empty()
    } else if spec_sq_dist(s[i]@, s[prev]@).gt_spec(tol) {
        seq![i] + radial_keep(s, tol, i + 1, i)
    } else {
        radial_keep(s, tol, i + 1, prev)
    }
}

/// The radial filter over a non-empty sequence: the first point, every later
/// point that lies strictly beyond the squared tolerance from the point kept
/// before it, and — so that the endpoint always survives — the last point,
/// appended when the last kept point does not already equal it.
pub open spec fn radial_spec<const D: usize, T: ExtendedNumOps>(
    s: Seq<Point<D, T>>,
    tol: T,
) -> Seq<Point<D, T>>
    recommends
        s.len() >= 1,
{
    let kept = seq![0int] + radial_keep(s, tol, 1, 0);
    let base = kept.map_values(|k: int| s[k]);
    if s[kept.last()]@ == s[s.len() - 1]@ {
        base
    } else {
        base + seq![s[s.len() - 1]]
    }
}

/// The tolerance the pipeline works with: the supplied scalar, or the
/// multiplicative identity when the conversion of the caller's measurement
/// failed.
pub open spec fn spec_eff_tolerance<T: ExtendedNumOps>(tolerance: Option<T>) -> T {
    match tolerance {
        Some(t) => t,
        None => T::one_spec(),
    }
}

/// The whole pipeline: a sequence of at most two points is returned
/// unchanged; otherwise the effective tolerance is squared, the radial filter
/// runs unless high quality was asked for, and the maximum-deviation reducer
/// finishes the job.
pub open spec fn spec_simplify<const D: usize, T: ExtendedNumOps>(
    s: Seq<Point<D, T>>,
    tolerance: Option<T>,
    high_quality: bool,
) -> Seq<Point<D, T>> {
    if s.len() <= 2 {
        s
    } else {
        let t = spec_eff_tolerance(tolerance);
        let tsq = t.mul_spec(t);
        let mid = if high_quality {
            s
        } else {
            radial_spec(s, tsq)
        };
        dp_full(mid, tsq)
    }
}

} // verus!
