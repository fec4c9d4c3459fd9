//! Base selection: the splitting radix-power for one recursion level.
//!
//! The base is the smallest power of ten whose cube reaches the larger
//! operand magnitude, which is exactly `10^ceil(d / 3)` for `d` the number
//! of decimal digits `ceil(log10(magnitude))` of that operand.  Splitting by
//! it therefore cuts an operand into three limbs of roughly a third of its
//! digits each.

use vstd::prelude::*;

use crate::mag;
use crate::max_mag;

verus! {

/// `10^e`, the candidate splitting bases.
pub open spec fn pow10(e: nat) -> int
    decreases e,
{
    if e == 0 {
        1
    } else {
        10 * pow10((e - 1) as nat)
    }
}

/// Powers of ten are positive and grow with the exponent.
pub proof fn lemma_pow10_monotone(i: nat, j: nat)
    requires
        i <= j,
    ensures
        1 <= pow10(i) <= pow10(j),
    decreases j,
{
    if j == 0 {
    } else if i == j {
        lemma_pow10_monotone(0, (j - 1) as nat);
    } else {
        lemma_pow10_monotone(i, (j - 1) as nat);
    }
}

/// Magnitude of an `i128`, total for the whole range including `i128::MIN`.
fn magnitude(x: i128) -> (m: u128)
    ensures
        m == mag(x as int),
{
    if x >= 0 {
        x as u128
    } else if x == i128::MIN {
        170141183460469231731687303715884105728u128
    } else {
        (-x) as u128
    }
}

/// Selects the splitting base for the operand pair `(a, b)`: the smallest
/// power of ten whose cube reaches the larger of the two magnitudes, so that
/// both operands split into three limbs below the base (the high limb can
/// reach the base itself when the magnitude is an exact cube).
///
/// Callers guarantee through the recursion's base-case guards that both
/// operands have at least two digits, so the digit count is never taken of
/// zero.
pub fn calculate_base(a: i128, b: i128) -> (base: i128)
    requires
        10 <= mag(a as int),
        10 <= mag(b as int),
    ensures
        10 <= base <= 10_000_000_000_000i128,
        exists|p: nat| 1 <= p <= 13 && base == pow10(p),
        max_mag(a as int, b as int) <= base * base * base,
        base * base * base < 1000 * max_mag(a as int, b as int),
        base <= max_mag(a as int, b as int),
{
    let ma = magnitude(a);
    let mb = magnitude(b);
    let m: u128 = if ma >= mb {
        ma
    } else {
        mb
    };
    assert(m == max_mag(a as int, b as int));
    if m > 1_000_000_000_000_000_000_000_000_000_000_000_000u128 {
        // Only the largest base covers a magnitude beyond 10^36; its cube
        // 10^39 exceeds every i128 magnitude.
        proof {
            assert(pow10(13) == 10_000_000_000_000) by {
                reveal_with_fuel(pow10, 14);
            }
        }
        return 10_000_000_000_000i128;
    }
    let mut b_cur: u128 = 10;
    let mut cube: u128 = 1000;
    let ghost mut k: nat = 1nat;
    proof {
        assert(pow10(1) == 10) by {
            reveal_with_fuel(pow10, 2);
        }
    }
    while cube < m
        invariant
            10 <= b_cur <= 1_000_000_000_000u128,
            cube == b_cur * b_cur * b_cur,
            cube <= 1_000_000_000_000_000_000_000_000_000_000_000_000u128,
            m <= 1_000_000_000_000_000_000_000_000_000_000_000_000u128,
            10 <= m,
            1 <= k <= 12,
            b_cur == pow10(k),
            b_cur == 10 || cube < 1000 * m,
        decreases 1_000_000_000_000 - b_cur,
    {
        proof {
            // The loop cannot pass 10^12: its cube 10^36 already covers m.
            assert(pow10(12) == 1_000_000_000_000) by {
                reveal_with_fuel(pow10, 13);
            }
            assert(pow10(11) == 100_000_000_000) by {
                reveal_with_fuel(pow10, 12);
            }
            if k == 12 {
                assert(cube >= m);
                assert(false);
            }
            lemma_pow10_monotone(k, 11);
            assert(b_cur <= 100_000_000_000);
            assert((10 * b_cur) * (10 * b_cur) * (10 * b_cur) == 1000 * (b_cur * b_cur * b_cur))
                by (nonlinear_arith);
            assert(b_cur * b_cur * b_cur <= 100_000_000_000u128 * 100_000_000_000u128
                * 100_000_000_000u128) by (nonlinear_arith)
                requires
                    10 <= b_cur <= 100_000_000_000u128,
            ;
            k = k + 1nat;
        }
        b_cur = b_cur * 10;
        cube = cube * 1000;
    }
    proof {
        assert(m <= b_cur * b_cur * b_cur);
        if b_cur == 10 {
            assert(b_cur * b_cur * b_cur < 1000 * m);
        } else {
            // Minimality gives the cube's upper bound, and with it base <= m.
            assert(b_cur >= 100) by {
                assert(pow10(2) == 100) by {
                    reveal_with_fuel(pow10, 3);
                }
                lemma_pow10_monotone(2, k);
            }
            assert(b_cur < m) by (nonlinear_arith)
                requires
                    100 <= b_cur,
                    b_cur * b_cur * b_cur < 1000 * m,
            ;
        }
        assert(b_cur <= m);
    }
    b_cur as i128
}

} // verus!
