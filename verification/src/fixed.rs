//! Fixed-point fractions.
//!
//! Every fractional quantity of this crate (a weight, a confidence, a
//! quality sample, a score) is an integer number of millionths: the
//! integer `1_000_000` stands for 1.0. Fractions handed in by a caller
//! are `u32`, computed scores are `u64`, and averages that have no
//! upper bound are `u128`. Divisions round down.

use vstd::prelude::*;
use vstd::arithmetic::div_mod::lemma_fundamental_div_mod;
use vstd::arithmetic::div_mod::lemma_mod_bound;

verus! {

/// The fixed-point representation of 1.0.
pub const ONE: u64 = 1_000_000;

/// The fixed-point representation of 0.5.
pub const HALF: u64 = 500_000;

/// `num / den` in millionths, rounded down.
pub open spec fn ratio(num: int, den: int) -> int
    recommends
        den > 0,
{
    (ONE * num) / den
}

/// `min(1, num / den)` in millionths, rounded down.
pub open spec fn capped_ratio(num: int, den: int) -> int
    recommends
        den > 0,
{
    if ratio(num, den) >= ONE {
        ONE as int
    } else {
        ratio(num, den)
    }
}

/// The sum of four sub-scores, each multiplied by its weight.
pub open spec fn blend(w: (int, int, int, int), s: (int, int, int, int)) -> int {
    (w.0 * s.0 + w.1 * s.1 + w.2 * s.2 + w.3 * s.3) / (ONE as int)
}

/// A quotient of non-negative numbers is at least 1 exactly when the
/// numerator is at least the denominator.
pub proof fn lemma_ratio_reaches_one(num: int, den: int)
    requires
        0 <= num,
        0 < den,
    ensures
        ratio(num, den) >= ONE <==> num >= den,
        0 <= ratio(num, den),
{
    let one = ONE as int;
    assert(one * num >= 0) by (nonlinear_arith)
        requires
            one == 1_000_000,
            num >= 0,
    ;
    lemma_fundamental_div_mod(one * num, den);
    lemma_mod_bound(one * num, den);
    let q = (one * num) / den;
    assert(q >= 0) by (nonlinear_arith)
        requires
            den * q + (one * num) % den == one * num,
            0 <= (one * num) % den < den,
            one * num >= 0,
            den > 0,
    ;
    if num >= den {
        assert(q >= one) by (nonlinear_arith)
            requires
                den * q + (one * num) % den == one * num,
                0 <= (one * num) % den < den,
                num >= den,
                den > 0,
                one == 1_000_000,
        ;
    } else {
        assert(q < one) by (nonlinear_arith)
            requires
                den * q + (one * num) % den == one * num,
                0 <= (one * num) % den < den,
                num < den,
                den > 0,
                one == 1_000_000,
        ;
    }
}

/// A quotient grows with its numerator and shrinks with its
/// denominator: `a / b <= c / d` whenever `a * d <= c * b`.
pub proof fn lemma_ratio_monotone(a: int, b: int, c: int, d: int)
    requires
        0 <= a,
        0 <= c,
        0 < b,
        0 < d,
        a * d <= c * b,
    ensures
        ratio(a, b) <= ratio(c, d),
        capped_ratio(a, b) <= capped_ratio(c, d),
{
    let one = ONE as int;
    let x = one * a;
    let y = one * c;
    assert(x >= 0 && y >= 0 && x * d <= y * b) by (nonlinear_arith)
        requires
            x == one * a,
            y == one * c,
            one == 1_000_000,
            a >= 0,
            c >= 0,
            a * d <= c * b,
    ;
    lemma_fundamental_div_mod(x, b);
    lemma_mod_bound(x, b);
    lemma_fundamental_div_mod(y, d);
    lemma_mod_bound(y, d);
    let q = x / b;
    let p = y / d;
    assert(q <= p) by (nonlinear_arith)
        requires
            b * q + x % b == x,
            0 <= x % b < b,
            d * p + y % d == y,
            0 <= y % d < d,
            x * d <= y * b,
            b > 0,
            d > 0,
            x >= 0,
            y >= 0,
    ;
}

/// `min(1, num / den)` in millionths.
pub fn capped_ratio_of(num: u128, den: u128) -> (r: u64)
    requires
        0 < den,
        den * ONE <= u128::MAX,
    ensures
        r == capped_ratio(num as int, den as int),
        r <= ONE,
{
    proof {
        lemma_ratio_reaches_one(num as int, den as int);
    }
    if num >= den {
        ONE
    } else {
        assert(ONE * num <= ONE * den) by (nonlinear_arith)
            requires
                num < den,
        ;
        let scaled: u128 = (ONE as u128) * num;
        let q: u128 = scaled / den;
        q as u64
    }
}

/// `num / den` in millionths, for 64-bit operands.
pub fn ratio_of(num: u64, den: u64) -> (r: u128)
    requires
        0 < den,
    ensures
        r == ratio(num as int, den as int),
{
    assert(ONE * num <= 1_000_000 * 0xffff_ffff_ffff_ffff) by (nonlinear_arith)
        requires
            num <= 0xffff_ffff_ffff_ffff,
    ;
    let scaled: u128 = (ONE as u128) * (num as u128);
    scaled / (den as u128)
}

} // verus!
