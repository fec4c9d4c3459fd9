//! Operand splitting: an integer decomposed into three limbs over a base.
//!
//! The limbs are taken with truncating remainder and quotient, exactly as
//! `%` and `/` behave on Rust's signed integers: for a negative operand every
//! limb is non-positive.  For any positive base the decomposition satisfies
//! `low + mid * base + high * base^2 == value` exactly.

use vstd::prelude::*;

use crate::mag;

verus! {

/// Truncating quotient (rounds toward zero), the semantics of `/` on signed
/// machine integers.  In spec position, `/` on `int` is Euclidean, so the
/// negative side is spelled out through the magnitude.
pub open spec fn trunc_div(x: int, d: int) -> int
    recommends
        d > 0,
{
    if x >= 0 {
        x / d
    } else {
        -((-x) / d)
    }
}

/// Truncating remainder, the semantics of `%` on signed machine integers:
/// what the truncating quotient leaves over, carrying the dividend's sign.
pub open spec fn trunc_rem(x: int, d: int) -> int
    recommends
        d > 0,
{
    x - d * trunc_div(x, d)
}

/// The truncating quotient and remainder recompose the dividend, the
/// remainder stays below the divisor in magnitude, and both results carry
/// the dividend's sign.
pub proof fn lemma_trunc_div_rem(x: int, d: int)
    requires
        d > 0,
    ensures
        d * trunc_div(x, d) + trunc_rem(x, d) == x,
        mag(trunc_rem(x, d)) < d,
        mag(trunc_div(x, d)) * d <= mag(x),
        x >= 0 ==> trunc_div(x, d) >= 0 && trunc_rem(x, d) >= 0,
        x <= 0 ==> trunc_div(x, d) <= 0 && trunc_rem(x, d) <= 0,
        x >= 0 ==> trunc_div(x, d) == x / d && trunc_rem(x, d) == x % d,
        x < 0 ==> trunc_div(x, d) == ((x * -1) / d) * -1 && trunc_rem(x, d) == ((x * -1) % d) * -1,
{
    broadcast use vstd::arithmetic::mul::group_mul_is_commutative_and_distributive;
    broadcast use vstd::arithmetic::mul::lemma_mul_unary_negation;

    if x >= 0 {
        vstd::arithmetic::div_mod::lemma_fundamental_div_mod(x, d);
        vstd::arithmetic::div_mod::lemma_mod_division_less_than_divisor(x, d);
        vstd::arithmetic::div_mod::lemma_div_pos_is_pos(x, d);
        if x == 0 {
            vstd::arithmetic::div_mod::lemma_div_of0(d);
        }
        assert(trunc_div(x, d) * d <= x);
    } else {
        vstd::arithmetic::div_mod::lemma_fundamental_div_mod(-x, d);
        vstd::arithmetic::div_mod::lemma_mod_division_less_than_divisor(-x, d);
        vstd::arithmetic::div_mod::lemma_div_pos_is_pos(-x, d);
        assert(d * trunc_div(x, d) == -(d * ((-x) / d)));
        assert(((-x) / d) * d <= -x);
        assert(x * -1 == -x);
    }
}

/// Splits `number` into the limb triple `[low, mid, high]` over `base`,
/// with truncating remainder and quotient at each step:
/// `low = number % base`, then `mid` and `high` from the shifted quotients.
///
/// The triple recomposes exactly: `low + mid*base + high*base^2 == number`.
/// Low and mid are below the base in magnitude, the high limb carries
/// whatever is left, and all three limbs have the sign of `number`.
pub fn split(number: i128, base: i128) -> (parts: [i128; 3])
    requires
        2 <= base,
    ensures
        parts[0] + parts[1] * base + parts[2] * (base * base) == number,
        parts[0] == trunc_rem(number as int, base as int),
        parts[1] == trunc_rem(trunc_div(number as int, base as int), base as int),
        parts[2] == trunc_div(trunc_div(number as int, base as int), base as int),
        mag(parts[0] as int) < base,
        mag(parts[1] as int) < base,
        mag(parts[2] as int) * (base * base) <= mag(number as int),
        number >= 0 ==> parts[0] >= 0 && parts[1] >= 0 && parts[2] >= 0,
        number <= 0 ==> parts[0] <= 0 && parts[1] <= 0 && parts[2] <= 0,
{
    proof {
        lemma_trunc_div_rem(number as int, base as int);
        lemma_trunc_div_rem(trunc_div(number as int, base as int), base as int);
        let n = number as int;
        let b = base as int;
        let q = trunc_div(n, b);
        let h = trunc_div(q, b);
        // Quotient magnitudes shrink, so every checked step stays in range.
        assert(mag(q) * 2 <= mag(q) * b) by (nonlinear_arith)
            requires
                b >= 2,
                mag(q) >= 0,
        ;
        assert(mag(h) * 2 <= mag(h) * b) by (nonlinear_arith)
            requires
                b >= 2,
                mag(h) >= 0,
        ;
    }
    let part0 = number.checked_rem(base).unwrap();
    let rest = number.checked_div(base).unwrap();
    let part1 = rest.checked_rem(base).unwrap();
    let part2 = rest.checked_div(base).unwrap();
    proof {
        let n = number as int;
        let b = base as int;
        let q = trunc_div(n, b);
        let h = trunc_div(q, b);
        let r1 = trunc_rem(q, b);
        assert(rest == q);
        // Recomposition: substitute the inner identity q == b*h + r1 into
        // the outer one n == b*q + r0.
        assert(b * (b * h + r1) == h * (b * b) + r1 * b) by (nonlinear_arith);
        assert(part0 + part1 * b + part2 * (b * b) == n);
        // The high limb against the whole operand: |high| * b <= |q| and
        // |q| * b <= |n| combine into |high| * b^2 <= |n|.
        assert(mag(h) * (b * b) <= mag(n)) by (nonlinear_arith)
            requires
                b >= 2,
                mag(h) * b <= mag(q),
                mag(q) * b <= mag(n),
                mag(q) >= 0,
                mag(h) >= 0,
        ;
    }
    [part0, part1, part2]
}

} // verus!
