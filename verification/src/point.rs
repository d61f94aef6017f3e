use crate::traits::ExtendedNumOps;
use vstd::prelude::*;

verus! {

/// The basic input type for constructing and simplifying a polyline: an
/// ordered, fixed-length tuple of `D` coordinates of scalar type `T`. Points
/// are plain values: copied freely, never mutated in place; every arithmetic
/// operation returns a new point. All points of one `simplify` call share `D`
/// and `T`, which the type parameters enforce at compile time.
#[derive(Clone, Copy, PartialEq, Eq, Debug)]
pub struct Point<const D: usize, T: ExtendedNumOps> {
    /// The components of the point.
    pub vec: [T; D],
}

impl<const D: usize, T: ExtendedNumOps> View for Point<D, T> {
    type V = Seq<T>;

    open spec fn view(&self) -> Seq<T> {
        self.vec@
    }
}

/// Componentwise sum of two coordinate tuples.
pub open spec fn seq_add<T: ExtendedNumOps>(a: Seq<T>, b: Seq<T>) -> Seq<T> {
    Seq::new(a.len(), |i: int| a[i].add_spec(b[i]))
}

/// Componentwise difference `a - b` of two coordinate tuples.
pub open spec fn seq_sub<T: ExtendedNumOps>(a: Seq<T>, b: Seq<T>) -> Seq<T> {
    Seq::new(a.len(), |i: int| a[i].sub_spec(b[i]))
}

/// Componentwise product of two coordinate tuples.
pub open spec fn seq_mul<T: ExtendedNumOps>(a: Seq<T>, b: Seq<T>) -> Seq<T> {
    Seq::new(a.len(), |i: int| a[i].mul_spec(b[i]))
}

/// Every component of `a` multiplied by the scalar `k`.
pub open spec fn seq_scale<T: ExtendedNumOps>(a: Seq<T>, k: T) -> Seq<T> {
    Seq::new(a.len(), |i: int| a[i].mul_spec(k))
}

/// The left-to-right sum of a coordinate tuple: the additive identity for an
/// empty tuple, and otherwise the fold of addition that starts from the first
/// component.
pub open spec fn seq_total<T: ExtendedNumOps>(s: Seq<T>) -> T
    decreases s.len(),
{
    if s.len() == 0 {
        T::zero_spec()
    } else if s.len() == 1 {
        s[0]
    } else {
        seq_total(s.drop_last()).add_spec(s.last())
    }
}

/// The tuple of squared differences `(b[i] - a[i])^2`.
pub open spec fn sq_diff_seq<T: ExtendedNumOps>(a: Seq<T>, b: Seq<T>) -> Seq<T> {
    Seq::new(a.len(), |i: int| b[i].sub_spec(a[i]).mul_spec(b[i].sub_spec(a[i])))
}

/// The squared distance between two coordinate tuples: the sum over the
/// dimensions of the squared componentwise differences.
pub open spec fn spec_sq_dist<T: ExtendedNumOps>(a: Seq<T>, b: Seq<T>) -> T {
    seq_total(sq_diff_seq(a, b))
}

/// The squared distance of a coordinate tuple from the origin: the sum of the
/// squares of its components.
pub open spec fn spec_sq_dist_origin<T: ExtendedNumOps>(a: Seq<T>) -> T {
    seq_total(Seq::new(a.len(), |i: int| a[i].mul_spec(a[i])))
}

/// Whether every component is the additive identity.
pub open spec fn spec_is_origin<T: ExtendedNumOps>(a: Seq<T>) -> bool {
    forall|i: int| 0 <= i < a.len() ==> a[i] == T::zero_spec()
}

impl<const D: usize, T: ExtendedNumOps> Point<D, T> {
    /// Computes the squared distance between two points.
    #[verifier::loop_isolation(false)]
    pub fn sq_dist(&self, other: &Point<D, T>) -> (r: T)
        ensures
            r == spec_sq_dist(self@, other@),
    {
        if D == 0 {
            let r = T::zero_val();
            return r;
        }
        let d0 = other.vec[0].sub_val(self.vec[0]);
        let mut acc = d0.mul_val(d0);
        let mut i: usize = 1;
        while i < D
            invariant
                1 <= i <= D,
                acc == seq_total(sq_diff_seq(self@, other@).take(i as int)),
            decreases D - i,
        {
            let di = other.vec[i].sub_val(self.vec[i]);
            acc = acc.add_val(di.mul_val(di));
            proof {
                let q = sq_diff_seq(self@, other@);
                assert(q.take(i + 1).drop_last() =~= q.take(i as int));
                assert(q.take(i + 1).last() == q[i as int]);
            }
            i = i + 1;
        }
        proof {
            assert(sq_diff_seq(self@, other@).take(D as int) =~= sq_diff_seq(self@, other@));
        }
        acc
    }

    /// Computes the squared distance between this point and the origin.
    #[verifier::loop_isolation(false)]
    pub fn sq_dist_origin(&self) -> (r: T)
        ensures
            r == spec_sq_dist_origin(self@),
    {
        if D == 0 {
            let r = T::zero_val();
            return r;
        }
        let mut acc = self.vec[0].mul_val(self.vec[0]);
        let mut i: usize = 1;
        while i < D
            invariant
                1 <= i <= D,
                acc == seq_total(Seq::new(self@.len(), |j: int| self@[j].mul_spec(self@[j])).take(i as int)),
            decreases D - i,
        {
            acc = acc.add_val(self.vec[i].mul_val(self.vec[i]));
            proof {
                let q = Seq::new(self@.len(), |j: int| self@[j].mul_spec(self@[j]));
                assert(q.take(i + 1).drop_last() =~= q.take(i as int));
                assert(q.take(i + 1).last() == q[i as int]);
            }
            i = i + 1;
        }
        proof {
            let q = Seq::new(self@.len(), |j: int| self@[j].mul_spec(self@[j]));
            assert(q.take(D as int) =~= q);
        }
        acc
    }

    /// Computes the sum of the components of the point.
    #[verifier::loop_isolation(false)]
    pub fn value_sum(&self) -> (r: T)
        ensures
            r == seq_total(self@),
    {
        if D == 0 {
            let r = T::zero_val();
            return r;
        }
        let mut acc = self.vec[0];
        let mut i: usize = 1;
        while i < D
            invariant
                1 <= i <= D,
                acc == seq_total(self@.take(i as int)),
            decreases D - i,
        {
            acc = acc.add_val(self.vec[i]);
            proof {
                assert(self@.take(i + 1).drop_last() =~= self@.take(i as int));
            }
            i = i + 1;
        }
        proof {
            assert(self@.take(D as int) =~= self@);
        }
        acc
    }

    /// Checks whether the point is the origin (every component at the
    /// additive identity).
    #[verifier::loop_isolation(false)]
    pub fn is_origin(&self) -> (r: bool)
        ensures
            r == spec_is_origin(self@),
    {
        let zero = T::zero_val();
        let mut i: usize = 0;
        while i < D
            invariant
                0 <= i <= D,
                forall|j: int| 0 <= j < i ==> self@[j] == T::zero_spec(),
            decreases D - i,
        {
            if !self.vec[i].eq_val(zero) {
                proof {
                    assert(self@[i as int] != T::zero_spec());
                }
                return false;
            }
            proof {
                assert(self@[i as int] == T::zero_spec());
            }
            i = i + 1;
        }
        true
    }

    /// Checks whether some component differs from the additive identity.
    #[verifier::loop_isolation(false)]
    pub fn is_not_origin(&self) -> (r: bool)
        ensures
            r == !spec_is_origin(self@),
    {
        !self.is_origin()
    }

    /// Componentwise addition; returns a new point.
    #[verifier::loop_isolation(false)]
    pub fn add(&self, other: &Point<D, T>) -> (r: Point<D, T>)
        ensures
            r@ == seq_add(self@, other@),
    {
        let zero = T::zero_val();
        let mut out: [T; D] = [zero; D];
        let mut i: usize = 0;
        while i < D
            invariant
                0 <= i <= D,
                out@.len() == D,
                forall|j: int| 0 <= j < i ==> out@[j] == self@[j].add_spec(other@[j]),
            decreases D - i,
        {
            out[i] = self.vec[i].add_val(other.vec[i]);
            i = i + 1;
        }
        proof {
            assert(out@ =~= seq_add(self@, other@));
        }
        Point { vec: out }
    }

    /// Componentwise subtraction `self - other`; returns a new point.
    #[verifier::loop_isolation(false)]
    pub fn sub(&self, other: &Point<D, T>) -> (r: Point<D, T>)
        ensures
            r@ == seq_sub(self@, other@),
    {
        let zero = T::zero_val();
        let mut out: [T; D] = [zero; D];
        let mut i: usize = 0;
        while i < D
            invariant
                0 <= i <= D,
                out@.len() == D,
                forall|j: int| 0 <= j < i ==> out@[j] == self@[j].sub_spec(other@[j]),
            decreases D - i,
        {
            out[i] = self.vec[i].sub_val(other.vec[i]);
            i = i + 1;
        }
        proof {
            assert(out@ =~= seq_sub(self@, other@));
        }
        Point { vec: out }
    }

    /// Componentwise multiplication; returns a new point.
    #[verifier::loop_isolation(false)]
    pub fn mul(&self, other: &Point<D, T>) -> (r: Point<D, T>)
        ensures
            r@ == seq_mul(self@, other@),
    {
        let zero = T::zero_val();
        let mut out: [T; D] = [zero; D];
        let mut i: usize = 0;
        while i < D
            invariant
                0 <= i <= D,
                out@.len() == D,
                forall|j: int| 0 <= j < i ==> out@[j] == self@[j].mul_spec(other@[j]),
            decreases D - i,
        {
            out[i] = self.vec[i].mul_val(other.vec[i]);
            i = i + 1;
        }
        proof {
            assert(out@ =~= seq_mul(self@, other@));
        }
        Point { vec: out }
    }

    /// Scalar multiplication: every component multiplied by `factor`.
    #[verifier::loop_isolation(false)]
    pub fn scale(&self, factor: T) -> (r: Point<D, T>)
        ensures
            r@ == seq_scale(self@, factor),
    {
        let zero = T::zero_val();
        let mut out: [T; D] = [zero; D];
        let mut i: usize = 0;
        while i < D
            invariant
                0 <= i <= D,
                out@.len() == D,
                forall|j: int| 0 <= j < i ==> out@[j] == self@[j].mul_spec(factor),
            decreases D - i,
        {
            out[i] = self.vec[i].mul_val(factor);
            i = i + 1;
        }
        proof {
            assert(out@ =~= seq_scale(self@, factor));
        }
        Point { vec: out }
    }

    /// Decides componentwise equality of two points.
    #[verifier::loop_isolation(false)]
    pub fn eq_components(&self, other: &Point<D, T>) -> (r: bool)
        ensures
            r == (self@ == other@),
    {
        let mut i: usize = 0;
        while i < D
            invariant
                0 <= i <= D,
                forall|j: int| 0 <= j < i ==> self@[j] == other@[j],
            decreases D - i,
        {
            if !self.vec[i].eq_val(other.vec[i]) {
                proof {
                    assert(self@[i as int] != other@[i as int]);
                }
                return false;
            }
            i = i + 1;
        }
        proof {
            assert(self@ =~= other@);
        }
        true
    }
}

} // verus!
