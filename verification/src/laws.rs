//! The properties the simplification pipeline guarantees, proved from the
//! model: the output never outgrows the input, the endpoints survive, every
//! discarded point stays within the tolerance of what was kept, and raising
//! the tolerance never lengthens the output of the high-quality path.

use crate::model::{
    dp_keep, lemma_scan_init, radial_keep, radial_spec, scan_max, spec_dev, spec_eff_tolerance,
    spec_simplify,
};
use crate::point::{spec_sq_dist, Point};
use crate::traits::ExtendedNumOps;
use vstd::prelude::*;

verus! {

/// The reducer keeps at most the interior of its range: never more than
/// `l - f - 1` indices.
proof fn lemma_dp_len<const D: usize, T: ExtendedNumOps>(
    s: Seq<Point<D, T>>,
    f: int,
    l: int,
    tol: T,
)
    requires
        0 <= f <= l < s.len(),
    ensures
        dp_keep(s, f, l, tol).len() <= (if f + 1 < l {
            l - f - 1
        } else {
            0
        }),
    decreases l - f,
{
    if f + 1 < l {
        let r = scan_max(s, f, l, f + 1, tol, 0);
        if r.0.gt_spec(tol) {
            lemma_scan_init(s, f, l, tol);
            lemma_dp_len(s, f, r.1, tol);
            lemma_dp_len(s, r.1, l, tol);
        }
    }
}

/// Every index the radial walk keeps from position `i` onward lies in
/// `[i + k, s.len())`, where `k` is its position among the kept indices; in
/// particular the kept indices are strictly increasing and there are at most
/// `s.len() - i` of them.
proof fn lemma_radial_walk_shape<const D: usize, T: ExtendedNumOps>(
    s: Seq<Point<D, T>>,
    tol: T,
    i: int,
    prev: int,
)
    requires
        0 <= prev < i <= s.len(),
    ensures
        ({
            let w = radial_keep(s, tol, i, prev);
            &&& w.len() <= s.len() - i
            &&& forall|k: int|
                0 <= k < w.len() ==> i + k <= #[trigger] w[k] && w[k] < s.len()
        }),
    decreases s.len() - i,
{
    if i < s.len() {
        if spec_sq_dist(s[i]@, s[prev]@).gt_spec(tol) {
            lemma_radial_walk_shape(s, tol, i + 1, i);
        } else {
            lemma_radial_walk_shape(s, tol, i + 1, prev);
        }
    }
}

/// What the radial filter guarantees of its output shape: it is never empty,
/// never longer than the input, starts with the first input point, and ends
/// with the value of the last input point.
proof fn lemma_radial_props<const D: usize, T: ExtendedNumOps>(s: Seq<Point<D, T>>, tol: T)
    requires
        s.len() >= 1,
    ensures
        ({
            let r = radial_spec(s, tol);
            &&& 1 <= r.len() <= s.len()
            &&& r[0] == s[0]
            &&& r.last()@ == s[s.len() - 1]@
        }),
{
    let w = radial_keep(s, tol, 1, 0);
    lemma_radial_walk_shape(s, tol, 1, 0);
    let kept = seq![0int] + w;
    let base = kept.map_values(|k: int| s[k]);
    assert(base[0] == s[0]);
    if s[kept.last()]@ == s[s.len() - 1]@ {
        assert(radial_spec(s, tol).last() == s[kept.last()]);
    } else {
        assert(kept.last() != s.len() - 1);
        if w.len() == 0 {
            assert(kept.last() == 0);
            assert(s.len() >= 2);
        } else {
            assert(w.last() == w[w.len() - 1]);
            assert(1 + (w.len() - 1) <= w.last() < s.len());
            assert(w.last() != s.len() - 1);
            assert(w.len() <= s.len() - 2);
        }
    }
}

/// The deviation bound of the reducer: take the kept indices of the range
/// `[f, l]` together with its two endpoints, in order. Between any two
/// neighbours of that sequence, every discarded point's squared deviation
/// from the chord of the two neighbours stays within the tolerance.
pub proof fn lemma_dp_deviation_bound<const D: usize, T: ExtendedNumOps>(
    s: Seq<Point<D, T>>,
    f: int,
    l: int,
    tol: T,
)
    requires
        0 <= f <= l < s.len(),
    ensures
        ({
            let ks = seq![f] + dp_keep(s, f, l, tol) + seq![l];
            forall|a: int, j: int|
                0 <= a < ks.len() - 1 && ks[a] < j < ks[a + 1] ==> !(#[trigger] spec_dev(
                    s,
                    ks[a],
                    ks[a + 1],
                    j,
                )).gt_spec(tol)
        }),
    decreases l - f,
{
    let ks = seq![f] + dp_keep(s, f, l, tol) + seq![l];
    if f + 1 >= l {
        assert(dp_keep(s, f, l, tol) =~= Seq::<int>::empty());
    } else {
        let r = scan_max(s, f, l, f + 1, tol, 0);
        lemma_scan_init(s, f, l, tol);
        if r.0.gt_spec(tol) {
            let mi = r.1;
            lemma_dp_deviation_bound(s, f, mi, tol);
            lemma_dp_deviation_bound(s, mi, l, tol);
            let ksl = seq![f] + dp_keep(s, f, mi, tol) + seq![mi];
            let ksr = seq![mi] + dp_keep(s, mi, l, tol) + seq![l];
            assert(ks =~= ksl + ksr.drop_first());
            assert forall|a: int, j: int|
                0 <= a < ks.len() - 1 && ks[a] < j < ks[a + 1] implies !(#[trigger] spec_dev(
                s,
                ks[a],
                ks[a + 1],
                j,
            )).gt_spec(tol) by {
                if a < ksl.len() - 1 {
                    assert(ks[a] == ksl[a]);
                    assert(ks[a + 1] == ksl[a + 1]);
                } else {
                    let b = a - (ksl.len() - 1);
                    assert(ks[a] == ksr[b]);
                    assert(ks[a + 1] == ksr[b + 1]);
                }
            }
        } else {
            assert(dp_keep(s, f, l, tol) =~= Seq::<int>::empty());
            assert forall|j: int| f < j < l implies !spec_dev(s, f, l, j).gt_spec(tol) by {
                assert(!spec_dev(s, f, l, j).gt_spec(r.0));
            }
        }
    }
}

/// The discard bound of the radial walk, stated from any intermediate state:
/// every point the walk visits and discards lies within the squared
/// tolerance of the kept point right before it.
proof fn lemma_radial_walk_bound<const D: usize, T: ExtendedNumOps>(
    s: Seq<Point<D, T>>,
    tol: T,
    i: int,
    prev: int,
)
    requires
        0 <= prev < i <= s.len(),
    ensures
        ({
            let fullk = seq![prev] + radial_keep(s, tol, i, prev);
            &&& forall|a: int, j: int|
                0 <= a < fullk.len() - 1 && fullk[a] < j < fullk[a + 1] && i <= j
                    ==> !(#[trigger] spec_sq_dist(s[j]@, s[fullk[a]]@)).gt_spec(tol)
            &&& forall|j: int|
                fullk.last() < j < s.len() && i <= j ==> !spec_sq_dist(
                    s[j]@,
                    s[fullk.last()]@,
                ).gt_spec(tol)
        }),
    decreases s.len() - i,
{
    let w = radial_keep(s, tol, i, prev);
    let fullk = seq![prev] + w;
    if i < s.len() {
        if spec_sq_dist(s[i]@, s[prev]@).gt_spec(tol) {
            lemma_radial_walk_bound(s, tol, i + 1, i);
            lemma_radial_walk_shape(s, tol, i + 1, i);
            let fullr = seq![i] + radial_keep(s, tol, i + 1, i);
            assert(fullk =~= seq![prev] + fullr);
            assert forall|a: int, j: int|
                0 <= a < fullk.len() - 1 && fullk[a] < j < fullk[a + 1] && i <= j implies !(
            #[trigger] spec_sq_dist(s[j]@, s[fullk[a]]@)).gt_spec(tol) by {
                if a == 0 {
                    assert(fullk[1] == i);
                } else {
                    assert(fullk[a] == fullr[a - 1]);
                    assert(fullk[a + 1] == fullr[a]);
                }
            }
            assert(fullk.last() == fullr.last());
        } else {
            lemma_radial_walk_bound(s, tol, i + 1, prev);
            lemma_radial_walk_shape(s, tol, i + 1, prev);
            assert(radial_keep(s, tol, i + 1, prev) == w);
            assert forall|a: int, j: int|
                0 <= a < fullk.len() - 1 && fullk[a] < j < fullk[a + 1] && i <= j implies !(
            #[trigger] spec_sq_dist(s[j]@, s[fullk[a]]@)).gt_spec(tol) by {
                if j == i {
                    assert(a == 0);
                    assert(fullk[0] == prev);
                }
            }
            assert forall|j: int|
                fullk.last() < j < s.len() && i <= j implies !spec_sq_dist(
                s[j]@,
                s[fullk.last()]@,
            ).gt_spec(tol) by {
                if j == i {
                    assert(w.len() == 0);
                    assert(fullk.last() == prev);
                }
            }
        }
    }
}

/// The discard bound of the radial filter: every input point that the filter
/// does not keep lies within the squared tolerance of the kept point right
/// before it. The kept indices are the first index together with the indices
/// the walk keeps; the last input point, re-appended for endpoint
/// preservation, satisfies the same bound relative to the last kept index.
pub proof fn lemma_radial_discard_bound<const D: usize, T: ExtendedNumOps>(
    s: Seq<Point<D, T>>,
    tol: T,
)
    requires
        s.len() >= 1,
    ensures
        ({
            let kept = seq![0int] + radial_keep(s, tol, 1, 0);
            &&& forall|a: int, j: int|
                0 <= a < kept.len() - 1 && kept[a] < j < kept[a + 1] ==> !(#[trigger] spec_sq_dist(
                    s[j]@,
                    s[kept[a]]@,
                )).gt_spec(tol)
            &&& forall|j: int|
                kept.last() < j < s.len() ==> !spec_sq_dist(s[j]@, s[kept.last()]@).gt_spec(tol)
        }),
{
    lemma_radial_walk_bound(s, tol, 1, 0);
    lemma_radial_walk_shape(s, tol, 1, 0);
    let kept = seq![0int] + radial_keep(s, tol, 1, 0);
    assert forall|a: int, j: int|
        0 <= a < kept.len() - 1 && kept[a] < j < kept[a + 1] implies !(#[trigger] spec_sq_dist(
        s[j]@,
        s[kept[a]]@,
    )).gt_spec(tol) by {
        assert(kept[a] >= 0);
    }
}

/// Compares two deviation scans over the same range that differ only in
/// their starting thresholds: either the two scans agree exactly, or the
/// higher-threshold scan never moved off its initial state and its threshold
/// still dominates the other scan's running maximum.
proof fn lemma_scan_pair<const D: usize, T: ExtendedNumOps>(
    s: Seq<Point<D, T>>,
    f: int,
    l: int,
    i: int,
    m1: T,
    mi1: int,
    m2: T,
    mi2: int,
    t2: T,
)
    requires
        f + 1 <= i,
        (m1 == m2 && mi1 == mi2) || (m2 == t2 && mi2 == 0 && !m1.gt_spec(m2)),
    ensures
        ({
            let r1 = scan_max(s, f, l, i, m1, mi1);
            let r2 = scan_max(s, f, l, i, m2, mi2);
            (r1 == r2) || (r2.0 == t2 && r2.1 == 0 && !r1.0.gt_spec(r2.0))
        }),
    decreases (if i < l {
        l - i
    } else {
        0
    }),
{
    if i < l {
        let d = spec_dev(s, f, l, i);
        if m1 == m2 && mi1 == mi2 {
            if d.gt_spec(m1) {
                lemma_scan_pair(s, f, l, i + 1, d, i, d, i, t2);
            } else {
                lemma_scan_pair(s, f, l, i + 1, m1, mi1, m2, mi2, t2);
            }
        } else {
            if d.gt_spec(m2) {
                T::lemma_order_laws(m1, m2, d);
                T::lemma_order_laws(d, m2, m1);
                assert(d.gt_spec(m1));
                lemma_scan_pair(s, f, l, i + 1, d, i, d, i, t2);
            } else {
                if d.gt_spec(m1) {
                    lemma_scan_pair(s, f, l, i + 1, d, i, m2, mi2, t2);
                } else {
                    lemma_scan_pair(s, f, l, i + 1, m1, mi1, m2, mi2, t2);
                }
            }
        }
    }
}

/// Raising the squared tolerance can only shrink what the reducer keeps:
/// with `t2` at least `t1`, the reducer keeps at most as many indices of any
/// range under `t2` as it keeps under `t1`.
pub proof fn lemma_dp_monotone<const D: usize, T: ExtendedNumOps>(
    s: Seq<Point<D, T>>,
    f: int,
    l: int,
    t1: T,
    t2: T,
)
    requires
        0 <= f <= l < s.len(),
        t2 == t1 || t2.gt_spec(t1),
    ensures
        dp_keep(s, f, l, t2).len() <= dp_keep(s, f, l, t1).len(),
    decreases l - f,
{
    if f + 1 < l {
        let r1 = scan_max(s, f, l, f + 1, t1, 0);
        let r2 = scan_max(s, f, l, f + 1, t2, 0);
        lemma_scan_init(s, f, l, t1);
        lemma_scan_init(s, f, l, t2);
        if t2.gt_spec(t1) && t1.gt_spec(t2) {
            T::lemma_order_laws(t1, t2, t1);
            T::lemma_order_laws(t1, t1, t1);
            assert(false);
        }
        lemma_scan_pair(s, f, l, f + 1, t1, 0, t2, 0, t2);
        if r2.0.gt_spec(t2) {
            if !(r1 == r2) {
                T::lemma_order_laws(t2, t2, t2);
                assert(false);
            }
            let mi = r2.1;
            if t2.gt_spec(t1) {
                T::lemma_order_laws(r1.0, t2, t1);
            }
            assert(r1.0.gt_spec(t1));
            lemma_dp_monotone(s, f, mi, t1, t2);
            lemma_dp_monotone(s, mi, l, t1, t2);
        }
    }
}

/// Raising the tolerance cannot lengthen the high-quality output: when the
/// effective squared tolerance under `tol2` dominates the one under `tol1`,
/// the pipeline run with `tol2` returns at most as many points as the run
/// with `tol1` on the same input. The hypothesis speaks of the squared
/// tolerances because squaring itself need not be monotone on scalars whose
/// arithmetic wraps. The low-quality path makes no such promise: its radial
/// pre-filter can shift which point carries the maximum deviation.
pub proof fn lemma_tolerance_monotone<const D: usize, T: ExtendedNumOps>(
    s: Seq<Point<D, T>>,
    tol1: Option<T>,
    tol2: Option<T>,
    high_quality: bool,
)
    requires
        high_quality,
        ({
            let t1 = spec_eff_tolerance(tol1);
            let t2 = spec_eff_tolerance(tol2);
            t2.mul_spec(t2) == t1.mul_spec(t1) || t2.mul_spec(t2).gt_spec(t1.mul_spec(t1))
        }),
    ensures
        spec_simplify(s, tol2, high_quality).len() <= spec_simplify(s, tol1, high_quality).len(),
{
    if s.len() > 2 {
        let t1 = spec_eff_tolerance(tol1);
        let t2 = spec_eff_tolerance(tol2);
        lemma_dp_monotone(s, 0, s.len() - 1, t1.mul_spec(t1), t2.mul_spec(t2));
    }
}

/// The deviation bounds, instantiated with exactly the squared tolerance and
/// the intermediate sequence the pipeline works on: between any two
/// neighbouring points the reducer retains, every discarded point of the
/// intermediate sequence deviates from their chord by at most the squared
/// tolerance; and on the low-quality path, every input point the radial
/// filter discards lies within the squared tolerance of the kept point
/// before it.
pub proof fn lemma_simplify_deviation_bound<const D: usize, T: ExtendedNumOps>(
    s: Seq<Point<D, T>>,
    tolerance: Option<T>,
    high_quality: bool,
)
    requires
        s.len() > 2,
    ensures
        ({
            let t = spec_eff_tolerance(tolerance);
            let tsq = t.mul_spec(t);
            let mid = if high_quality {
                s
            } else {
                radial_spec(s, tsq)
            };
            let ks = seq![0int] + dp_keep(mid, 0, mid.len() - 1, tsq) + seq![mid.len() - 1];
            let kept = seq![0int] + radial_keep(s, tsq, 1, 0);
            &&& forall|a: int, j: int|
                0 <= a < ks.len() - 1 && ks[a] < j < ks[a + 1] ==> !(#[trigger] spec_dev(
                    mid,
                    ks[a],
                    ks[a + 1],
                    j,
                )).gt_spec(tsq)
            &&& !high_quality ==> forall|a: int, j: int|
                0 <= a < kept.len() - 1 && kept[a] < j < kept[a + 1] ==> !(#[trigger] spec_sq_dist(
                    s[j]@,
                    s[kept[a]]@,
                )).gt_spec(tsq)
            &&& !high_quality ==> forall|j: int|
                kept.last() < j < s.len() ==> !spec_sq_dist(s[j]@, s[kept.last()]@).gt_spec(tsq)
        }),
{
    let t = spec_eff_tolerance(tolerance);
    let tsq = t.mul_spec(t);
    let mid = if high_quality {
        s
    } else {
        radial_spec(s, tsq)
    };
    if !high_quality {
        lemma_radial_props(s, tsq);
        lemma_radial_discard_bound(s, tsq);
    }
    lemma_dp_deviation_bound(mid, 0, mid.len() - 1, tsq);
}

/// The output of the pipeline is never longer than its input, whatever the
/// tolerance and the quality flag.
pub proof fn lemma_simplify_len<const D: usize, T: ExtendedNumOps>(
    s: Seq<Point<D, T>>,
    tolerance: Option<T>,
    high_quality: bool,
)
    ensures
        spec_simplify(s, tolerance, high_quality).len() <= s.len(),
{
    if s.len() > 2 {
        let t = spec_eff_tolerance(tolerance);
        let tsq = t.mul_spec(t);
        let mid = if high_quality {
            s
        } else {
            radial_spec(s, tsq)
        };
        if !high_quality {
            lemma_radial_props(s, tsq);
        }
        if mid.len() >= 2 {
            lemma_dp_len(mid, 0, mid.len() - 1, tsq);
        } else {
            assert(dp_keep(mid, 0, mid.len() - 1, tsq) =~= Seq::<int>::empty());
        }
    }
}

/// Endpoint preservation: for a non-empty input the output is non-empty,
/// starts with the first input point, and ends with the value of the last
/// input point — whatever the tolerance and the quality flag.
pub proof fn lemma_simplify_endpoints<const D: usize, T: ExtendedNumOps>(
    s: Seq<Point<D, T>>,
    tolerance: Option<T>,
    high_quality: bool,
)
    requires
        s.len() >= 1,
    ensures
        ({
            let r = spec_simplify(s, tolerance, high_quality);
            &&& r.len() >= 1
            &&& r[0] == s[0]
            &&& r.last()@ == s[s.len() - 1]@
        }),
{
    if s.len() > 2 {
        let t = spec_eff_tolerance(tolerance);
        let tsq = t.mul_spec(t);
        let mid = if high_quality {
            s
        } else {
            radial_spec(s, tsq)
        };
        if !high_quality {
            lemma_radial_props(s, tsq);
        }
        let r = spec_simplify(s, tolerance, high_quality);
        assert(r[0] == mid[0]);
        assert(r.last() == mid.last());
    }
}

} // verus!
