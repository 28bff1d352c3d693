//! The scalar types that vectors and matrices hold.
use crate::modular::{
    lemma_wrap_add_sub, lemma_wrap_mul_assoc, lemma_wrap_near, lemma_wrap_of_rem, wrap,
};
use vstd::prelude::*;

verus! {

/// A scalar: a copyable value with a zero, a one, and addition, subtraction
/// and multiplication that always return.
///
/// The spec functions give the meaning of each operation; the proof
/// functions are the algebraic laws that the vector and matrix laws rest on.
pub trait Scalar: Copy + Sized {
    spec fn spec_zero() -> Self;

    spec fn spec_one() -> Self;

    spec fn spec_plus(a: Self, b: Self) -> Self;

    spec fn spec_minus(a: Self, b: Self) -> Self;

    spec fn spec_times(a: Self, b: Self) -> Self;

    fn zero() -> (r: Self)
        ensures
            r == Self::spec_zero(),
    ;

    fn plus(self, rhs: Self) -> (r: Self)
        ensures
            r == Self::spec_plus(self, rhs),
    ;

    fn minus(self, rhs: Self) -> (r: Self)
        ensures
            r == Self::spec_minus(self, rhs),
    ;

    fn times(self, rhs: Self) -> (r: Self)
        ensures
            r == Self::spec_times(self, rhs),
    ;

    /// Subtracting what was added gives the first operand back.
    proof fn lemma_plus_minus(a: Self, b: Self)
        ensures
            Self::spec_minus(Self::spec_plus(a, b), b) == a,
    ;

    /// One is neutral for multiplication.
    proof fn lemma_times_one(a: Self)
        ensures
            Self::spec_times(a, Self::spec_one()) == a,
    ;

    proof fn lemma_times_commutative(a: Self, b: Self)
        ensures
            Self::spec_times(a, b) == Self::spec_times(b, a),
    ;

    proof fn lemma_times_associative(a: Self, b: Self, c: Self)
        ensures
            Self::spec_times(Self::spec_times(a, b), c) == Self::spec_times(
                a,
                Self::spec_times(b, c),
            ),
    ;
}

/// `i32` arithmetic wraps around modulo 2^32, as `wrapping_add` and its
/// siblings do.
impl Scalar for i32 {
    open spec fn spec_zero() -> i32 {
        0
    }

    open spec fn spec_one() -> i32 {
        1
    }

    open spec fn spec_plus(a: i32, b: i32) -> i32 {
        wrap(a + b, i32::MIN as int, 0x1_0000_0000) as i32
    }

    open spec fn spec_minus(a: i32, b: i32) -> i32 {
        wrap(a - b, i32::MIN as int, 0x1_0000_0000) as i32
    }

    open spec fn spec_times(a: i32, b: i32) -> i32 {
        wrap(a * b, i32::MIN as int, 0x1_0000_0000) as i32
    }

    fn zero() -> (r: i32) {
        0
    }

    fn plus(self, rhs: i32) -> (r: i32) {
        let r = self.wrapping_add(rhs);
        proof {
            lemma_wrap_near(self + rhs, r as int, i32::MIN as int, 0x1_0000_0000);
        }
        r
    }

    fn minus(self, rhs: i32) -> (r: i32) {
        let r = self.wrapping_sub(rhs);
        proof {
            lemma_wrap_near(self - rhs, r as int, i32::MIN as int, 0x1_0000_0000);
        }
        r
    }

    fn times(self, rhs: i32) -> (r: i32) {
        let r = self.wrapping_mul(rhs);
        proof {
            lemma_wrap_of_rem(self * rhs, r as int, i32::MIN as int, 0x1_0000_0000);
        }
        r
    }

    proof fn lemma_plus_minus(a: i32, b: i32) {
        lemma_wrap_add_sub(a as int, b as int, i32::MIN as int, 0x1_0000_0000);
    }

    proof fn lemma_times_one(a: i32) {
        lemma_wrap_near(a as int, a as int, i32::MIN as int, 0x1_0000_0000);
    }

    proof fn lemma_times_commutative(a: i32, b: i32) {
        assert(a * b == b * a) by (nonlinear_arith);
    }

    proof fn lemma_times_associative(a: i32, b: i32, c: i32) {
        lemma_wrap_mul_assoc(a as int, b as int, c as int, i32::MIN as int, 0x1_0000_0000);
    }
}

/// `i64` arithmetic wraps around modulo 2^64, as `wrapping_add` and its
/// siblings do.
impl Scalar for i64 {
    open spec fn spec_zero() -> i64 {
        0
    }

    open spec fn spec_one() -> i64 {
        1
    }

    open spec fn spec_plus(a: i64, b: i64) -> i64 {
        wrap(a + b, i64::MIN as int, 0x1_0000_0000_0000_0000) as i64
    }

    open spec fn spec_minus(a: i64, b: i64) -> i64 {
        wrap(a - b, i64::MIN as int, 0x1_0000_0000_0000_0000) as i64
    }

    open spec fn spec_times(a: i64, b: i64) -> i64 {
        wrap(a * b, i64::MIN as int, 0x1_0000_0000_0000_0000) as i64
    }

    fn zero() -> (r: i64) {
        0
    }

    fn plus(self, rhs: i64) -> (r: i64) {
        let r = self.wrapping_add(rhs);
        proof {
            lemma_wrap_near(self + rhs, r as int, i64::MIN as int, 0x1_0000_0000_0000_0000);
        }
        r
    }

    fn minus(self, rhs: i64) -> (r: i64) {
        let r = self.wrapping_sub(rhs);
        proof {
            lemma_wrap_near(self - rhs, r as int, i64::MIN as int, 0x1_0000_0000_0000_0000);
        }
        r
    }

    fn times(self, rhs: i64) -> (r: i64) {
        let r = self.wrapping_mul(rhs);
        proof {
            lemma_wrap_of_rem(self * rhs, r as int, i64::MIN as int, 0x1_0000_0000_0000_0000);
        }
        r
    }

    proof fn lemma_plus_minus(a: i64, b: i64) {
        lemma_wrap_add_sub(a as int, b as int, i64::MIN as int, 0x1_0000_0000_0000_0000);
    }

    proof fn lemma_times_one(a: i64) {
        lemma_wrap_near(a as int, a as int, i64::MIN as int, 0x1_0000_0000_0000_0000);
    }

    proof fn lemma_times_commutative(a: i64, b: i64) {
        assert(a * b == b * a) by (nonlinear_arith);
    }

    proof fn lemma_times_associative(a: i64, b: i64, c: i64) {
        lemma_wrap_mul_assoc(a as int, b as int, c as int, i64::MIN as int, 0x1_0000_0000_0000_0000);
    }
}

/// `u32` arithmetic wraps around modulo 2^32, as `wrapping_add` and its
/// siblings do.
impl Scalar for u32 {
    open spec fn spec_zero() -> u32 {
        0
    }

    open spec fn spec_one() -> u32 {
        1
    }

    open spec fn spec_plus(a: u32, b: u32) -> u32 {
        wrap(a + b, 0, 0x1_0000_0000) as u32
    }

    open spec fn spec_minus(a: u32, b: u32) -> u32 {
        wrap(a - b, 0, 0x1_0000_0000) as u32
    }

    open spec fn spec_times(a: u32, b: u32) -> u32 {
        wrap(a * b, 0, 0x1_0000_0000) as u32
    }

    fn zero() -> (r: u32) {
        0
    }

    fn plus(self, rhs: u32) -> (r: u32) {
        let r = self.wrapping_add(rhs);
        proof {
            lemma_wrap_near(self + rhs, r as int, 0, 0x1_0000_0000);
        }
        r
    }

    fn minus(self, rhs: u32) -> (r: u32) {
        let r = self.wrapping_sub(rhs);
        proof {
            lemma_wrap_near(self - rhs, r as int, 0, 0x1_0000_0000);
        }
        r
    }

    fn times(self, rhs: u32) -> (r: u32) {
        let r = self.wrapping_mul(rhs);
        proof {
            lemma_wrap_of_rem(self * rhs, r as int, 0, 0x1_0000_0000);
        }
        r
    }

    proof fn lemma_plus_minus(a: u32, b: u32) {
        lemma_wrap_add_sub(a as int, b as int, 0, 0x1_0000_0000);
    }

    proof fn lemma_times_one(a: u32) {
        lemma_wrap_near(a as int, a as int, 0, 0x1_0000_0000);
    }

    proof fn lemma_times_commutative(a: u32, b: u32) {
        assert(a * b == b * a) by (nonlinear_arith);
    }

    proof fn lemma_times_associative(a: u32, b: u32, c: u32) {
        lemma_wrap_mul_assoc(a as int, b as int, c as int, 0, 0x1_0000_0000);
    }
}

/// `u64` arithmetic wraps around modulo 2^64, as `wrapping_add` and its
/// siblings do.
impl Scalar for u64 {
    open spec fn spec_zero() -> u64 {
        0
    }

    open spec fn spec_one() -> u64 {
        1
    }

    open spec fn spec_plus(a: u64, b: u64) -> u64 {
        wrap(a + b, 0, 0x1_0000_0000_0000_0000) as u64
    }

    open spec fn spec_minus(a: u64, b: u64) -> u64 {
        wrap(a - b, 0, 0x1_0000_0000_0000_0000) as u64
    }

    open spec fn spec_times(a: u64, b: u64) -> u64 {
        wrap(a * b, 0, 0x1_0000_0000_0000_0000) as u64
    }

    fn zero() -> (r: u64) {
        0
    }

    fn plus(self, rhs: u64) -> (r: u64) {
        let r = self.wrapping_add(rhs);
        proof {
            lemma_wrap_near(self + rhs, r as int, 0, 0x1_0000_0000_0000_0000);
        }
        r
    }

    fn minus(self, rhs: u64) -> (r: u64) {
        let r = self.wrapping_sub(rhs);
        proof {
            lemma_wrap_near(self - rhs, r as int, 0, 0x1_0000_0000_0000_0000);
        }
        r
    }

    fn times(self, rhs: u64) -> (r: u64) {
        let r = self.wrapping_mul(rhs);
        proof {
            lemma_wrap_of_rem(self * rhs, r as int, 0, 0x1_0000_0000_0000_0000);
        }
        r
    }

    proof fn lemma_plus_minus(a: u64, b: u64) {
        lemma_wrap_add_sub(a as int, b as int, 0, 0x1_0000_0000_0000_0000);
    }

    proof fn lemma_times_one(a: u64) {
        lemma_wrap_near(a as int, a as int, 0, 0x1_0000_0000_0000_0000);
    }

    proof fn lemma_times_commutative(a: u64, b: u64) {
        assert(a * b == b * a) by (nonlinear_arith);
    }

    proof fn lemma_times_associative(a: u64, b: u64, c: u64) {
        lemma_wrap_mul_assoc(a as int, b as int, c as int, 0, 0x1_0000_0000_0000_0000);
    }
}

} // verus!
