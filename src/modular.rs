//! Arithmetic modulo `r` on a window of `r` consecutive integers, the model of
//! machine integers that wrap on overflow.
use vstd::arithmetic::div_mod::{
    lemma_fundamental_div_mod, lemma_fundamental_div_mod_converse, lemma_mod_bound,
    lemma_mod_multiples_basic, lemma_mul_mod_noop_left, lemma_small_mod,
};
use vstd::prelude::*;

verus! {

/// The representative of `x` in the window `[lo, lo + r)`, modulo `r`.
pub open spec fn wrap(x: int, lo: int, r: int) -> int
    recommends
        r > 0,
{
    lo + (x - lo) % r
}

/// `x` and `y` differ by a multiple of `r`.
pub open spec fn congruent(x: int, y: int, r: int) -> bool
    recommends
        r > 0,
{
    (x - y) % r == 0
}

pub proof fn lemma_wrap_range(x: int, lo: int, r: int)
    requires
        r > 0,
    ensures
        lo <= wrap(x, lo, r) < lo + r,
{
    lemma_mod_bound(x - lo, r);
}

pub proof fn lemma_multiple_congruent(x: int, y: int, k: int, r: int)
    requires
        r > 0,
        x - y == k * r,
    ensures
        congruent(x, y, r),
{
    lemma_mod_multiples_basic(k, r);
}

pub proof fn lemma_wrap_congruent(x: int, lo: int, r: int)
    requires
        r > 0,
    ensures
        congruent(wrap(x, lo, r), x, r),
{
    lemma_fundamental_div_mod(x - lo, r);
    let q = (x - lo) / r;
    assert(wrap(x, lo, r) - x == (-q) * r) by (nonlinear_arith)
        requires
            x - lo == r * q + (x - lo) % r,
            wrap(x, lo, r) == lo + (x - lo) % r,
    ;
    lemma_multiple_congruent(wrap(x, lo, r), x, -q, r);
}

/// A value of the window that is congruent to `x` is the representative of `x`.
pub proof fn lemma_wrap_unique(x: int, v: int, lo: int, r: int)
    requires
        r > 0,
        lo <= v < lo + r,
        congruent(x, v, r),
    ensures
        wrap(x, lo, r) == v,
{
    lemma_fundamental_div_mod(x - v, r);
    let k = (x - v) / r;
    assert(x - lo == k * r + (v - lo)) by (nonlinear_arith)
        requires
            x - v == r * k + (x - v) % r,
            (x - v) % r == 0,
    ;
    lemma_small_mod((v - lo) as nat, r as nat);
    lemma_fundamental_div_mod_converse(x - lo, r, k, v - lo);
}

/// A value of the window that is `x`, or `x` moved by `r` once, represents `x`.
pub proof fn lemma_wrap_near(x: int, v: int, lo: int, r: int)
    requires
        r > 0,
        lo <= v < lo + r,
        x == v || x == v + r || x == v - r,
    ensures
        wrap(x, lo, r) == v,
{
    if x == v {
        lemma_multiple_congruent(x, v, 0, r);
    } else if x == v + r {
        lemma_multiple_congruent(x, v, 1, r);
    } else {
        lemma_multiple_congruent(x, v, -1, r);
    }
    lemma_wrap_unique(x, v, lo, r);
}

/// The remainder of `x` by `r`, or that remainder less `r`, represents `x`
/// wherever it falls in the window.
pub proof fn lemma_wrap_of_rem(x: int, v: int, lo: int, r: int)
    requires
        r > 0,
        lo <= v < lo + r,
        v == x % r || v == x % r - r,
    ensures
        wrap(x, lo, r) == v,
{
    lemma_fundamental_div_mod(x, r);
    let q = x / r;
    if v == x % r {
        assert(x - v == q * r) by (nonlinear_arith)
            requires
                x == r * q + x % r,
                v == x % r,
        ;
        lemma_multiple_congruent(x, v, q, r);
    } else {
        assert(x - v == (q + 1) * r) by (nonlinear_arith)
            requires
                x == r * q + x % r,
                v == x % r - r,
        ;
        lemma_multiple_congruent(x, v, q + 1, r);
    }
    lemma_wrap_unique(x, v, lo, r);
}

pub proof fn lemma_congruent_symmetric(x: int, y: int, r: int)
    requires
        r > 0,
        congruent(x, y, r),
    ensures
        congruent(y, x, r),
{
    lemma_fundamental_div_mod(x - y, r);
    let k = (x - y) / r;
    assert(y - x == (-k) * r) by (nonlinear_arith)
        requires
            x - y == r * k + (x - y) % r,
            (x - y) % r == 0,
    ;
    lemma_multiple_congruent(y, x, -k, r);
}

pub proof fn lemma_congruent_transitive(x: int, y: int, z: int, r: int)
    requires
        r > 0,
        congruent(x, y, r),
        congruent(y, z, r),
    ensures
        congruent(x, z, r),
{
    lemma_fundamental_div_mod(x - y, r);
    lemma_fundamental_div_mod(y - z, r);
    let k1 = (x - y) / r;
    let k2 = (y - z) / r;
    assert(x - z == (k1 + k2) * r) by (nonlinear_arith)
        requires
            x - y == r * k1 + (x - y) % r,
            (x - y) % r == 0,
            y - z == r * k2 + (y - z) % r,
            (y - z) % r == 0,
    ;
    lemma_multiple_congruent(x, z, k1 + k2, r);
}

/// Congruent integers have one representative.
pub proof fn lemma_wrap_congruent_eq(x: int, y: int, lo: int, r: int)
    requires
        r > 0,
        congruent(x, y, r),
    ensures
        wrap(x, lo, r) == wrap(y, lo, r),
{
    lemma_wrap_range(y, lo, r);
    lemma_wrap_congruent(y, lo, r);
    lemma_congruent_symmetric(wrap(y, lo, r), y, r);
    lemma_congruent_transitive(x, y, wrap(y, lo, r), r);
    lemma_wrap_unique(x, wrap(y, lo, r), lo, r);
}

/// Multiplying both sides by the same integer keeps a congruence.
pub proof fn lemma_congruent_mul(x: int, y: int, c: int, r: int)
    requires
        r > 0,
        congruent(x, y, r),
    ensures
        congruent(x * c, y * c, r),
{
    lemma_mul_mod_noop_left(x - y, c, r);
    assert((x - y) * c == x * c - y * c) by (nonlinear_arith);
    assert(((x - y) % r) * c == 0) by (nonlinear_arith)
        requires
            (x - y) % r == 0,
    ;
    lemma_small_mod(0, r as nat);
    assert(((x - y) * c) % r == 0);
}

/// Wrapping after each step of `a + b - b` gives `a` back.
pub proof fn lemma_wrap_add_sub(a: int, b: int, lo: int, r: int)
    requires
        r > 0,
        lo <= a < lo + r,
    ensures
        wrap(wrap(a + b, lo, r) - b, lo, r) == a,
{
    let s = wrap(a + b, lo, r);
    lemma_wrap_congruent(a + b, lo, r);
    assert(s - b - a == s - (a + b));
    lemma_wrap_unique(s - b, a, lo, r);
}

/// Wrapping after each product gives the same result however three factors
/// are grouped.
pub proof fn lemma_wrap_mul_assoc(a: int, b: int, c: int, lo: int, r: int)
    requires
        r > 0,
    ensures
        wrap(wrap(a * b, lo, r) * c, lo, r) == wrap(a * wrap(b * c, lo, r), lo, r),
{
    let p = wrap(a * b, lo, r);
    let q = wrap(b * c, lo, r);
    lemma_wrap_congruent(a * b, lo, r);
    lemma_wrap_congruent(b * c, lo, r);
    lemma_congruent_mul(p, a * b, c, r);
    lemma_congruent_mul(q, b * c, a, r);
    assert(a * b * c == b * c * a) by (nonlinear_arith);
    assert(q * a == a * q) by (nonlinear_arith);
    lemma_congruent_symmetric(a * q, b * c * a, r);
    lemma_congruent_transitive(p * c, a * b * c, a * q, r);
    lemma_wrap_congruent_eq(p * c, a * q, lo, r);
}

} // verus!
