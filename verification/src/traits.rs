use vstd::prelude::*;

verus! {

/// The capability contract a scalar type must satisfy to serve as a point
/// coordinate: ring arithmetic (addition, subtraction, multiplication),
/// division, the additive and multiplicative identities, and a strict total
/// order. Each executable operation is pinned to a specification-level
/// counterpart, so the simplification pipeline is verified once for every
/// implementing type.
///
/// The integer implementations use wrapping arithmetic and wrapping
/// (truncating) division, so no coordinate operation can panic; whether
/// wrap-around or truncation inside the deviation math is acceptable for a
/// given domain is the caller's responsibility, exactly as truncation is for
/// integer coordinates generally.
pub trait ExtendedNumOps: Sized + Copy {
    /// The value an addition returns.
    spec fn add_spec(self, other: Self) -> Self;

    /// The value a subtraction returns.
    spec fn sub_spec(self, other: Self) -> Self;

    /// The value a multiplication returns.
    spec fn mul_spec(self, other: Self) -> Self;

    /// The value a division returns.
    spec fn div_spec(self, other: Self) -> Self;

    /// The strict order on scalars.
    spec fn gt_spec(self, other: Self) -> bool;

    /// The additive identity.
    spec fn zero_spec() -> Self;

    /// The multiplicative identity.
    spec fn one_spec() -> Self;

    /// Adds two scalars.
    fn add_val(self, other: Self) -> (r: Self)
        ensures
            r == self.add_spec(other),
    ;

    /// Subtracts `other` from `self`.
    fn sub_val(self, other: Self) -> (r: Self)
        ensures
            r == self.sub_spec(other),
    ;

    /// Multiplies two scalars.
    fn mul_val(self, other: Self) -> (r: Self)
        ensures
            r == self.mul_spec(other),
    ;

    /// Divides `self` by `other`, which must not be the additive identity.
    fn div_val(self, other: Self) -> (r: Self)
        requires
            other != Self::zero_spec(),
        ensures
            r == self.div_spec(other),
    ;

    /// Decides the strict order.
    fn gt_val(self, other: Self) -> (r: bool)
        ensures
            r == self.gt_spec(other),
    ;

    /// Decides equality of two scalars.
    fn eq_val(self, other: Self) -> (r: bool)
        ensures
            r == (self == other),
    ;

    /// Returns the additive identity.
    fn zero_val() -> (r: Self)
        ensures
            r == Self::zero_spec(),
    ;

    /// Returns the multiplicative identity.
    fn one_val() -> (r: Self)
        ensures
            r == Self::one_spec(),
    ;

    /// The strict order is irreflexive, transitive and total. The deviation
    /// scans of the reducer rely on these laws to locate a well-defined
    /// maximum.
    proof fn lemma_order_laws(a: Self, b: Self, c: Self)
        ensures
            !a.gt_spec(a),
            a.gt_spec(b) && b.gt_spec(c) ==> a.gt_spec(c),
            a.gt_spec(b) || b.gt_spec(a) || a == b,
    ;
}

impl ExtendedNumOps for i64 {
    open spec fn add_spec(self, other: i64) -> i64 {
        vstd::wrapping::i64_specs::wrapping_add(self, other)
    }

    open spec fn sub_spec(self, other: i64) -> i64 {
        vstd::wrapping::i64_specs::wrapping_sub(self, other)
    }

    open spec fn mul_spec(self, other: i64) -> i64 {
        vstd::wrapping::i64_specs::wrapping_mul(self, other)
    }

    open spec fn div_spec(self, other: i64) -> i64 {
        if other == 0 {
            0
        } else {
            let x = self as int;
            let d = other as int;
            let q = if x == 0 {
                0
            } else if x > 0 && d > 0 {
                x / d
            } else if x < 0 && d < 0 {
                (x * -1) / (d * -1)
            } else if x < 0 {
                ((x * -1) / d) * -1
            } else {
                (x / (d * -1)) * -1
            };
            if q < i64::MIN || q > i64::MAX {
                i64::MIN
            } else {
                q as i64
            }
        }
    }

    open spec fn gt_spec(self, other: i64) -> bool {
        self > other
    }

    open spec fn zero_spec() -> i64 {
        0
    }

    open spec fn one_spec() -> i64 {
        1
    }

    fn add_val(self, other: i64) -> i64 {
        self.wrapping_add(other)
    }

    fn sub_val(self, other: i64) -> i64 {
        self.wrapping_sub(other)
    }

    fn mul_val(self, other: i64) -> i64 {
        self.wrapping_mul(other)
    }

    fn div_val(self, other: i64) -> i64 {
        match self.checked_div(other) {
            Some(q) => q,
            None => i64::MIN,
        }
    }

    fn gt_val(self, other: i64) -> bool {
        self > other
    }

    fn eq_val(self, other: i64) -> bool {
        self == other
    }

    fn zero_val() -> i64 {
        0
    }

    fn one_val() -> i64 {
        1
    }

    proof fn lemma_order_laws(a: i64, b: i64, c: i64) {
    }
}

impl ExtendedNumOps for i32 {
    open spec fn add_spec(self, other: i32) -> i32 {
        vstd::wrapping::i32_specs::wrapping_add(self, other)
    }

    open spec fn sub_spec(self, other: i32) -> i32 {
        vstd::wrapping::i32_specs::wrapping_sub(self, other)
    }

    open spec fn mul_spec(self, other: i32) -> i32 {
        vstd::wrapping::i32_specs::wrapping_mul(self, other)
    }

    open spec fn div_spec(self, other: i32) -> i32 {
        if other == 0 {
            0
        } else {
            let x = self as int;
            let d = other as int;
            let q = if x == 0 {
                0
            } else if x > 0 && d > 0 {
                x / d
            } else if x < 0 && d < 0 {
                (x * -1) / (d * -1)
            } else if x < 0 {
                ((x * -1) / d) * -1
            } else {
                (x / (d * -1)) * -1
            };
            if q < i32::MIN || q > i32::MAX {
                i32::MIN
            } else {
                q as i32
            }
        }
    }

    open spec fn gt_spec(self, other: i32) -> bool {
        self > other
    }

    open spec fn zero_spec() -> i32 {
        0
    }

    open spec fn one_spec() -> i32 {
        1
    }

    fn add_val(self, other: i32) -> i32 {
        self.wrapping_add(other)
    }

    fn sub_val(self, other: i32) -> i32 {
        self.wrapping_sub(other)
    }

    fn mul_val(self, other: i32) -> i32 {
        self.wrapping_mul(other)
    }

    fn div_val(self, other: i32) -> i32 {
        match self.checked_div(other) {
            Some(q) => q,
            None => i32::MIN,
        }
    }

    fn gt_val(self, other: i32) -> bool {
        self > other
    }

    fn eq_val(self, other: i32) -> bool {
        self == other
    }

    fn zero_val() -> i32 {
        0
    }

    fn one_val() -> i32 {
        1
    }

    proof fn lemma_order_laws(a: i32, b: i32, c: i32) {
    }
}

} // verus!
