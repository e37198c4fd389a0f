//! The scalar contract that matrix and vector elements satisfy.
use vstd::prelude::*;

verus! {

/// A numeric element type: identities, the four operations and negation.
///
/// Each operation is described by a spec function, so that the containers can
/// state their results exactly; the few algebraic facts the containers rely on
/// are proof obligations of every implementation.
pub trait Num: Sized + Copy {
    spec fn zero_s() -> Self;

    spec fn one_s() -> Self;

    spec fn add_s(a: Self, b: Self) -> Self;

    spec fn sub_s(a: Self, b: Self) -> Self;

    spec fn mul_s(a: Self, b: Self) -> Self;

    spec fn div_s(a: Self, b: Self) -> Self;

    spec fn neg_s(a: Self) -> Self;

    fn zero() -> (r: Self)
        ensures
            r == Self::zero_s(),
    ;

    fn one() -> (r: Self)
        ensures
            r == Self::one_s(),
    ;

    fn add(self, b: Self) -> (r: Self)
        ensures
            r == Self::add_s(self, b),
    ;

    fn sub(self, b: Self) -> (r: Self)
        ensures
            r == Self::sub_s(self, b),
    ;

    fn mul(self, b: Self) -> (r: Self)
        ensures
            r == Self::mul_s(self, b),
    ;

    fn div(self, b: Self) -> (r: Self)
        requires
            b != Self::zero_s(),
        ensures
            r == Self::div_s(self, b),
    ;

    fn neg(self) -> (r: Self)
        ensures
            r == Self::neg_s(self),
    ;

    /// Whether `self` is the additive identity.
    fn is_zero(&self) -> (r: bool)
        ensures
            r == (*self == Self::zero_s()),
    ;

    /// Zero is neutral for addition and subtraction and absorbing for
    /// multiplication; one is neutral for multiplication.
    proof fn lemma_identities(a: Self)
        ensures
            Self::add_s(Self::zero_s(), a) == a,
            Self::add_s(a, Self::zero_s()) == a,
            Self::sub_s(a, Self::zero_s()) == a,
            Self::mul_s(Self::zero_s(), a) == Self::zero_s(),
            Self::mul_s(a, Self::zero_s()) == Self::zero_s(),
            Self::mul_s(Self::one_s(), a) == a,
            Self::mul_s(a, Self::one_s()) == a,
    ;

    /// Products commute, and a value minus itself is zero.
    proof fn lemma_commute(a: Self, b: Self)
        ensures
            Self::mul_s(a, b) == Self::mul_s(b, a),
            Self::sub_s(a, a) == Self::zero_s(),
    ;
}

/// Two's-complement integers: every operation wraps, and a quotient that does
/// not fit (`MIN / -1`) is the dividend itself.
impl Num for i64 {
    open spec fn zero_s() -> i64 {
        0
    }

    open spec fn one_s() -> i64 {
        1
    }

    open spec fn add_s(a: i64, b: i64) -> i64 {
        vstd::wrapping::i64_specs::wrapping_add(a, b)
    }

    open spec fn sub_s(a: i64, b: i64) -> i64 {
        vstd::wrapping::i64_specs::wrapping_sub(a, b)
    }

    open spec fn mul_s(a: i64, b: i64) -> i64 {
        vstd::wrapping::i64_specs::wrapping_mul(a, b)
    }

    open spec fn div_s(a: i64, b: i64) -> i64 {
        match a.checked_div(b) {
            Some(q) => q,
            None => a,
        }
    }

    open spec fn neg_s(a: i64) -> i64 {
        vstd::wrapping::i64_specs::wrapping_sub(0, a)
    }

    fn zero() -> (r: i64) {
        0
    }

    fn one() -> (r: i64) {
        1
    }

    fn add(self, b: i64) -> (r: i64) {
        self.wrapping_add(b)
    }

    fn sub(self, b: i64) -> (r: i64) {
        self.wrapping_sub(b)
    }

    fn mul(self, b: i64) -> (r: i64) {
        self.wrapping_mul(b)
    }

    fn div(self, b: i64) -> (r: i64) {
        match self.checked_div(b) {
            Some(q) => q,
            None => self,
        }
    }

    fn neg(self) -> (r: i64) {
        0i64.wrapping_sub(self)
    }

    fn is_zero(&self) -> (r: bool) {
        *self == 0
    }

    proof fn lemma_commute(a: i64, b: i64) {
        assert(a * b == b * a) by (nonlinear_arith);
    }

    proof fn lemma_identities(a: i64) {
        let m: int = 0x1_0000_0000_0000_0000;
        assert(0 * a == 0) by (nonlinear_arith);
        assert(1 * a == a) by (nonlinear_arith);
        assert(a * 0 == 0) by (nonlinear_arith);
        assert(a * 1 == a) by (nonlinear_arith);
        if a >= 0 {
            assert((a as int) % m == a) by (nonlinear_arith)
                requires 0 <= a < m;
        } else {
            assert((a as int) % m == a + m) by (nonlinear_arith)
                requires -m < a < 0;
        }
    }
}

} // verus!
