//! The recursive Toom-3 multiplication.
//!
//! `multiply` splits each operand into three limbs over a shared base,
//! samples the product polynomial at the five points `0, 1, -1, 2, infinity`
//! by five recursive multiplications, recovers the five coefficients by
//! exact integer interpolation (the divisions by 2 and by 6 never leave a
//! remainder), and recombines them at the base.  Every arithmetic step is
//! checked: the result is the exact product, or `None` on overflow.

use vstd::prelude::*;

use crate::base::calculate_base;
use crate::interp::combine;
use crate::interp::poly5;
use crate::interp::poly5_fits;
use crate::mag;
use crate::max_mag;
use crate::split::split;

verus! {

/// Operands up to this magnitude (`10^18`) are guaranteed to multiply
/// without overflowing any intermediate value, so `multiply` promises a
/// `Some` result whenever both stay inside the window.
pub const SAFE_LIMIT: i128 = 1_000_000_000_000_000_000;

/// Both operands within [`SAFE_LIMIT`]: the window in which `multiply`
/// owes a successful result.
pub open spec fn safe_window(a: int, b: int) -> bool {
    mag(a) <= SAFE_LIMIT && mag(b) <= SAFE_LIMIT
}

/// Magnitudes are multiplicative.
proof fn lemma_mag_mul(a: int, b: int)
    ensures
        mag(a * b) == mag(a) * mag(b),
{
    assert(mag(a * b) == mag(a) * mag(b)) by (nonlinear_arith);
}

/// A product's magnitude is bounded by the product of bounds.
proof fn lemma_mag_mul_le(a: int, b: int, ca: int, cb: int)
    requires
        mag(a) <= ca,
        mag(b) <= cb,
    ensures
        mag(a * b) <= ca * cb,
{
    lemma_mag_mul(a, b);
    assert(mag(a) * mag(b) <= ca * cb) by (nonlinear_arith)
        requires
            0 <= mag(a) <= ca,
            0 <= mag(b) <= cb,
    ;
}

/// Magnitude bounds for the five limb combinations that one splitting level
/// feeds to its recursive multiplications: every combination stays within
/// the operand's own magnitude, strictly below it once the operand reaches
/// the base, and the high limb is always strictly smaller.
pub proof fn lemma_combo_bounds(v: int, b: int, low: int, mid: int, high: int)
    requires
        10 <= b,
        v != 0,
        low + mid * b + high * (b * b) == v,
        mag(low) < b,
        mag(mid) < b,
        mag(high) * (b * b) <= mag(v),
        v >= 0 ==> low >= 0 && mid >= 0 && high >= 0,
        v <= 0 ==> low <= 0 && mid <= 0 && high <= 0,
    ensures
        mag(low) <= mag(v),
        mag(low + mid + high) <= mag(v),
        mag(low - mid + high) <= mag(v),
        mag(low + 2 * mid + 4 * high) <= mag(v),
        mag(high) < mag(v),
        b <= mag(v) ==> mag(low) < mag(v),
        b <= mag(v) ==> mag(low + mid + high) < mag(v),
        b <= mag(v) ==> mag(low - mid + high) < mag(v),
        b <= mag(v) ==> mag(low + 2 * mid + 4 * high) < mag(v),
    decreases (if v < 0 {
        1int
    } else {
        0int
    }),
{
    if v < 0 {
        assert((-mid) * b == -(mid * b)) by (nonlinear_arith);
        assert((-high) * (b * b) == -(high * (b * b))) by (nonlinear_arith);
        lemma_combo_bounds(-v, b, -low, -mid, -high);
    } else {
        assert(low <= v && 0 <= low + mid + high <= v && -v <= low - mid + high <= v && 0 <= low
            + 2 * mid + 4 * high <= v && high < v) by (nonlinear_arith)
            requires
                10 <= b,
                0 < v,
                0 <= low < b,
                0 <= mid < b,
                0 <= high,
                high * (b * b) <= v,
                low + mid * b + high * (b * b) == v,
        ;
        assert(b <= v ==> (low < v && low + mid + high < v && -v < low - mid + high < v && low + 2
            * mid + 4 * high < v)) by (nonlinear_arith)
            requires
                10 <= b,
                0 < v,
                0 <= low < b,
                0 <= mid < b,
                0 <= high,
                high * (b * b) <= v,
                low + mid * b + high * (b * b) == v,
        ;
    }
}

/// The five evaluations of the product polynomial, written out over the
/// limbs: sampling `A(x) * B(x)` at `1`, `-1` and `2` equals the
/// corresponding signed sum of the product's coefficients, and evaluating
/// the coefficient polynomial at the base recovers the full product.
#[verifier::rlimit(100)]
pub proof fn lemma_toom_identities(a0: int, a1: int, a2: int, b0: int, b1: int, b2: int, x: int)
    ensures
        (a0 + a1 + a2) * (b0 + b1 + b2) == a0 * b0 + (a0 * b1 + a1 * b0) + (a0 * b2 + a1 * b1 + a2
            * b0) + (a1 * b2 + a2 * b1) + a2 * b2,
        (a0 - a1 + a2) * (b0 - b1 + b2) == a0 * b0 - (a0 * b1 + a1 * b0) + (a0 * b2 + a1 * b1 + a2
            * b0) - (a1 * b2 + a2 * b1) + a2 * b2,
        (a0 + 2 * a1 + 4 * a2) * (b0 + 2 * b1 + 4 * b2) == a0 * b0 + 2 * (a0 * b1 + a1 * b0) + 4 * (
        a0 * b2 + a1 * b1 + a2 * b0) + 8 * (a1 * b2 + a2 * b1) + 16 * (a2 * b2),
        (a0 + a1 * x + a2 * (x * x)) * (b0 + b1 * x + b2 * (x * x)) == poly5(
            a0 * b0,
            a0 * b1 + a1 * b0,
            a0 * b2 + a1 * b1 + a2 * b0,
            a1 * b2 + a2 * b1,
            a2 * b2,
            x,
        ),
{
    assert((a0 + a1 + a2) * (b0 + b1 + b2) == a0 * b0 + (a0 * b1 + a1 * b0) + (a0 * b2 + a1 * b1
        + a2 * b0) + (a1 * b2 + a2 * b1) + a2 * b2) by (nonlinear_arith);
    assert((a0 - a1 + a2) * (b0 - b1 + b2) == a0 * b0 - (a0 * b1 + a1 * b0) + (a0 * b2 + a1 * b1
        + a2 * b0) - (a1 * b2 + a2 * b1) + a2 * b2) by (nonlinear_arith);
    assert((a0 + 2 * a1 + 4 * a2) * (b0 + 2 * b1 + 4 * b2) == a0 * b0 + 2 * (a0 * b1 + a1 * b0) + 4
        * (a0 * b2 + a1 * b1 + a2 * b0) + 8 * (a1 * b2 + a2 * b1) + 16 * (a2 * b2))
        by (nonlinear_arith);
    // The full product, distributed one factor limb at a time.
    let pa = a0 + a1 * x + a2 * (x * x);
    assert(pa * (b0 + b1 * x + b2 * (x * x)) == pa * b0 + pa * (b1 * x) + pa * (b2 * (x * x)))
        by (nonlinear_arith);
    assert(pa * b0 == a0 * b0 + (a1 * b0) * x + (a2 * b0) * (x * x)) by (nonlinear_arith)
        requires
            pa == a0 + a1 * x + a2 * (x * x),
    ;
    assert(pa * (b1 * x) == (a0 * b1) * x + (a1 * b1) * (x * x) + (a2 * b1) * (x * x * x))
        by (nonlinear_arith)
        requires
            pa == a0 + a1 * x + a2 * (x * x),
    ;
    assert(pa * (b2 * (x * x)) == (a0 * b2) * (x * x) + (a1 * b2) * (x * x * x) + (a2 * b2) * (x * x
        * x * x)) by (nonlinear_arith)
        requires
            pa == a0 + a1 * x + a2 * (x * x),
    ;
    assert((a0 * b1) * x + (a1 * b0) * x == (a0 * b1 + a1 * b0) * x) by (nonlinear_arith);
    assert((a0 * b2) * (x * x) + (a1 * b1) * (x * x) + (a2 * b0) * (x * x) == (a0 * b2 + a1 * b1
        + a2 * b0) * (x * x)) by (nonlinear_arith);
    assert((a1 * b2) * (x * x * x) + (a2 * b1) * (x * x * x) == (a1 * b2 + a2 * b1) * (x * x * x))
        by (nonlinear_arith);
}

/// Inside the promised operand window, every value the interpolation and
/// recombination chain computes stays in the 128-bit range: the five
/// samples are below `10^36`, the middle coefficients are small multiples
/// of the squared base, and the recombination sum fits.
proof fn lemma_safe_window(
    va: int,
    vb: int,
    bs: int,
    a0: int,
    a1: int,
    a2: int,
    b0: int,
    b1: int,
    b2: int,
    sa1: int,
    sa2: int,
    sa3: int,
    sb1: int,
    sb2: int,
    sb3: int,
)
    requires
        safe_window(va, vb),
        10 <= bs,
        bs * bs * bs < 1000 * max_mag(va, vb),
        mag(a0) <= bs,
        mag(a1) <= bs,
        mag(a2) <= bs,
        mag(b0) <= bs,
        mag(b1) <= bs,
        mag(b2) <= bs,
        mag(a2) * (bs * bs) <= mag(va),
        mag(b2) * (bs * bs) <= mag(vb),
        mag(a0) <= mag(va),
        mag(sa1) <= mag(va),
        mag(sa2) <= mag(va),
        mag(sa3) <= mag(va),
        mag(a2) <= mag(va),
        mag(b0) <= mag(vb),
        mag(sb1) <= mag(vb),
        mag(sb2) <= mag(vb),
        mag(sb3) <= mag(vb),
        mag(b2) <= mag(vb),
    ensures
        10 <= bs < 10_000_000,
        bs * bs <= 100_000_000_000_000,
        mag(a0 * b0) <= 1_000_000_000_000_000_000_000_000_000_000_000_000,
        mag(sa1 * sb1) <= 1_000_000_000_000_000_000_000_000_000_000_000_000,
        mag(sa2 * sb2) <= 1_000_000_000_000_000_000_000_000_000_000_000_000,
        mag(sa3 * sb3) <= 1_000_000_000_000_000_000_000_000_000_000_000_000,
        mag(a2 * b2) <= 1_000_000_000_000_000_000_000_000_000_000_000_000,
        mag(a0 * b1 + a1 * b0) <= 2 * (bs * bs),
        mag(a0 * b2 + a1 * b1 + a2 * b0) <= 3 * (bs * bs),
        mag(a1 * b2 + a2 * b1) <= 2 * (bs * bs),
        poly5_fits(
            a0 * b0,
            a0 * b1 + a1 * b0,
            a0 * b2 + a1 * b1 + a2 * b0,
            a1 * b2 + a2 * b1,
            a2 * b2,
            bs,
        ),
{
    let lim = 1_000_000_000_000_000_000int;
    assert(bs < 10_000_000) by (nonlinear_arith)
        requires
            10 <= bs,
            bs * bs * bs < 1000 * max_mag(va, vb),
            max_mag(va, vb) <= 1_000_000_000_000_000_000,
    ;
    assert(bs * bs <= 100_000_000_000_000 && bs * bs * bs <= 1_000_000_000_000_000_000_000 && (bs
        * bs) * (bs * bs) <= 10_000_000_000_000_000_000_000_000_000 && bs * bs * bs * bs
        <= 10_000_000_000_000_000_000_000_000_000) by (nonlinear_arith)
        requires
            10 <= bs < 10_000_000,
    ;
    lemma_mag_mul_le(a0, b0, lim, lim);
    lemma_mag_mul_le(sa1, sb1, lim, lim);
    lemma_mag_mul_le(sa2, sb2, lim, lim);
    lemma_mag_mul_le(sa3, sb3, lim, lim);
    lemma_mag_mul_le(a2, b2, lim, lim);
    lemma_mag_mul_le(a0, b1, bs, bs);
    lemma_mag_mul_le(a1, b0, bs, bs);
    lemma_mag_mul_le(a0, b2, bs, bs);
    lemma_mag_mul_le(a1, b1, bs, bs);
    lemma_mag_mul_le(a2, b0, bs, bs);
    lemma_mag_mul_le(a1, b2, bs, bs);
    lemma_mag_mul_le(a2, b1, bs, bs);
    lemma_mag_mul_le(a0, b0, bs, bs);
    // The top coefficient scaled by the fourth power of the base folds
    // back into the operands themselves: `|a2| * bs^2 <= |va|` on each side.
    lemma_mag_mul(a2, b2);
    assert(mag(a2 * b2) * ((bs * bs) * (bs * bs))
        <= 1_000_000_000_000_000_000_000_000_000_000_000_000) by (nonlinear_arith)
        requires
            mag(a2 * b2) == mag(a2) * mag(b2),
            mag(a2) * (bs * bs) <= mag(va),
            mag(b2) * (bs * bs) <= mag(vb),
            0 <= mag(a2),
            0 <= mag(b2),
            0 <= bs,
            0 <= mag(va) <= 1_000_000_000_000_000_000,
            0 <= mag(vb) <= 1_000_000_000_000_000_000,
    ;
    // Each recombination term, bounded with the powers of the base.
    let g1 = a0 * b1 + a1 * b0;
    let g2 = a0 * b2 + a1 * b1 + a2 * b0;
    let g3 = a1 * b2 + a2 * b1;
    assert(mag(g1) * bs <= (2 * (bs * bs)) * bs && mag(g2) * (bs * bs) <= (3 * (bs * bs)) * (bs
        * bs) && mag(g3) * (bs * bs * bs) <= (2 * (bs * bs)) * (bs * bs * bs))
        by (nonlinear_arith)
        requires
            0 <= mag(g1) <= 2 * (bs * bs),
            0 <= mag(g2) <= 3 * (bs * bs),
            0 <= mag(g3) <= 2 * (bs * bs),
            0 <= bs,
    ;
    assert((2 * (bs * bs)) * bs <= 2_000_000_000_000_000_000_000 && (3 * (bs * bs)) * (bs * bs)
        <= 30_000_000_000_000_000_000_000_000_000 && (2 * (bs * bs)) * (bs * bs * bs)
        <= 200_000_000_000_000_000_000_000_000_000_000_000) by (nonlinear_arith)
        requires
            10 <= bs < 10_000_000,
    ;
    assert(mag(g3) * (bs * bs * bs) <= 200_000_000_000_000_000_000_000_000_000_000_000);
    assert((bs * bs) * (bs * bs) == bs * bs * bs * bs) by (nonlinear_arith);
    assert(poly5_fits(a0 * b0, g1, g2, g3, a2 * b2, bs));
}

/// All values that the interpolation and recombination chain computes stay
/// in the 128-bit range: the five samples are below `10^36`, the two middle
/// coefficients are small multiples of the squared base, and the
/// recombination sum fits.
pub open spec fn interp_fits(g0: int, g1: int, g2: int, g3: int, g4: int, bs: int) -> bool {
    &&& mag(g0) <= 1_000_000_000_000_000_000_000_000_000_000_000_000
    &&& mag(g0 + g1 + g2 + g3 + g4) <= 1_000_000_000_000_000_000_000_000_000_000_000_000
    &&& mag(g0 - g1 + g2 - g3 + g4) <= 1_000_000_000_000_000_000_000_000_000_000_000_000
    &&& mag(g0 + 2 * g1 + 4 * g2 + 8 * g3 + 16 * g4)
        <= 1_000_000_000_000_000_000_000_000_000_000_000_000
    &&& mag(g4) <= 1_000_000_000_000_000_000_000_000_000_000_000_000
    &&& mag(g2) <= 3 * (bs * bs)
    &&& mag(g3) <= 2 * (bs * bs)
    &&& bs * bs <= 100_000_000_000_000
    &&& poly5_fits(g0, g1, g2, g3, g4, bs)
}

/// Recovers the five coefficients of the product polynomial from its five
/// samples (the coefficients `g0..g4` name the exact values the samples
/// stand for) and evaluates the polynomial at the base.  The divisions by 2
/// and by 6 are exact by the sampling algebra; every other step is checked.
#[verifier::rlimit(100)]
fn interpolate_combine(
    x0: i128,
    x1: i128,
    x2: i128,
    x3: i128,
    x4: i128,
    base: i128,
    Ghost(g0): Ghost<int>,
    Ghost(g1): Ghost<int>,
    Ghost(g2): Ghost<int>,
    Ghost(g3): Ghost<int>,
    Ghost(g4): Ghost<int>,
) -> (r: Option<i128>)
    requires
        1 <= base,
        x0 == g0,
        x1 == g0 + g1 + g2 + g3 + g4,
        x2 == g0 - g1 + g2 - g3 + g4,
        x3 == g0 + 2 * g1 + 4 * g2 + 8 * g3 + 16 * g4,
        x4 == g4,
    ensures
        r is Some ==> r->0 == poly5(g0, g1, g2, g3, g4, base as int),
        interp_fits(g0, g1, g2, g3, g4, base as int) ==> r is Some,
{
    let ghost bs = base as int;
    let s12 = match x1.checked_add(x2) {
        Some(v) => v,
        None => {
            proof {
                if interp_fits(g0, g1, g2, g3, g4, bs) {
                    assert(false);
                }
            }
            return None;
        },
    };
    proof {
        // The first interpolation division is exact: C(1) + C(-1) doubles
        // the even coefficients, so halving recovers g0 + g2 + g4.
        assert(s12 == 2 * (g0 + g2 + g4));
        vstd::arithmetic::div_mod::lemma_div_multiples_vanish(g0 + g2 + g4, 2);
        vstd::arithmetic::div_mod::lemma_div_multiples_vanish(-(g0 + g2 + g4), 2);
        assert((s12 as int) * -1 == 2 * (-(g0 + g2 + g4)));
        assert(s12.checked_div(2) == Some((g0 + g2 + g4) as i128));
    }
    let c2v = s12.checked_div(2).unwrap();
    let d1 = match c2v.checked_sub(x0) {
        Some(v) => v,
        None => {
            proof {
                if interp_fits(g0, g1, g2, g3, g4, bs) {
                    assert(false);
                }
            }
            return None;
        },
    };
    let c2 = match d1.checked_sub(x4) {
        Some(v) => v,
        None => {
            proof {
                if interp_fits(g0, g1, g2, g3, g4, bs) {
                    assert(false);
                }
            }
            return None;
        },
    };
    let two_x1 = match x1.checked_mul(2) {
        Some(v) => v,
        None => {
            proof {
                if interp_fits(g0, g1, g2, g3, g4, bs) {
                    assert(false);
                }
            }
            return None;
        },
    };
    let n1 = match x3.checked_sub(two_x1) {
        Some(v) => v,
        None => {
            proof {
                if interp_fits(g0, g1, g2, g3, g4, bs) {
                    assert(false);
                }
            }
            return None;
        },
    };
    let n2 = match n1.checked_add(x0) {
        Some(v) => v,
        None => {
            proof {
                if interp_fits(g0, g1, g2, g3, g4, bs) {
                    assert(false);
                }
            }
            return None;
        },
    };
    let two_c2 = match c2.checked_mul(2) {
        Some(v) => v,
        None => {
            proof {
                if interp_fits(g0, g1, g2, g3, g4, bs) {
                    assert(false);
                }
            }
            return None;
        },
    };
    let n3 = match n2.checked_sub(two_c2) {
        Some(v) => v,
        None => {
            proof {
                if interp_fits(g0, g1, g2, g3, g4, bs) {
                    assert(false);
                }
            }
            return None;
        },
    };
    let c4x14 = match x4.checked_mul(14) {
        Some(v) => v,
        None => {
            proof {
                if interp_fits(g0, g1, g2, g3, g4, bs) {
                    assert(false);
                }
            }
            return None;
        },
    };
    let n4 = match n3.checked_sub(c4x14) {
        Some(v) => v,
        None => {
            proof {
                if interp_fits(g0, g1, g2, g3, g4, bs) {
                    assert(false);
                }
            }
            return None;
        },
    };
    proof {
        // The second interpolation division is exact: what is left of
        // C(2) - 2*C(1) after removing the even coefficients is 6 * g3.
        assert(n4 == 6 * g3);
        vstd::arithmetic::div_mod::lemma_div_multiples_vanish(g3, 6);
        vstd::arithmetic::div_mod::lemma_div_multiples_vanish(-g3, 6);
        assert((n4 as int) * -1 == 6 * (-g3));
        assert(n4.checked_div(6) == Some(g3 as i128));
    }
    let c3 = n4.checked_div(6).unwrap();
    let e1 = match x1.checked_sub(x0) {
        Some(v) => v,
        None => {
            proof {
                if interp_fits(g0, g1, g2, g3, g4, bs) {
                    assert(false);
                }
            }
            return None;
        },
    };
    let e2 = match e1.checked_sub(c2) {
        Some(v) => v,
        None => {
            proof {
                if interp_fits(g0, g1, g2, g3, g4, bs) {
                    assert(false);
                }
            }
            return None;
        },
    };
    let e3 = match e2.checked_sub(c3) {
        Some(v) => v,
        None => {
            proof {
                if interp_fits(g0, g1, g2, g3, g4, bs) {
                    assert(false);
                }
            }
            return None;
        },
    };
    let c1 = match e3.checked_sub(x4) {
        Some(v) => v,
        None => {
            proof {
                if interp_fits(g0, g1, g2, g3, g4, bs) {
                    assert(false);
                }
            }
            return None;
        },
    };
    let parts = [x0, c1, c2, c3, x4];
    let result = combine(parts, base);
    proof {
        assert(c1 == g1 && c2 == g2 && c3 == g3);
        if interp_fits(g0, g1, g2, g3, g4, bs) {
            assert(poly5_fits(
                parts[0] as int,
                parts[1] as int,
                parts[2] as int,
                parts[3] as int,
                parts[4] as int,
                bs,
            ));
            assert(result is Some);
        }
    }
    result
}

/// Multiplies `a` and `b` exactly by Toom-3 recursion.
///
/// A zero operand short-circuits to zero; a single-digit operand falls back
/// to one checked machine multiplication; otherwise both operands are split
/// over the selected base, the product polynomial is sampled at five points
/// recursively, and interpolation plus recombination produce the product.
///
/// `Some(p)` always carries the exact mathematical product.  `None` reports
/// that an intermediate value or the product itself left the `i128` range;
/// it never occurs inside [`safe_window`], and on the single-digit fast
/// path it occurs exactly when the product itself does not fit.
#[verifier::rlimit(100)]
pub fn multiply(a: i128, b: i128) -> (r: Option<i128>)
    ensures
        r is Some ==> r->0 == a * b,
        a == 0 || b == 0 ==> r == Some(0i128),
        mag(a as int) < 10 || mag(b as int) < 10 ==> (r is Some <==> i128::MIN <= a * b
            <= i128::MAX),
        safe_window(a as int, b as int) ==> r is Some,
    decreases mag(a as int) + mag(b as int),
{
    if a == 0 || b == 0 {
        return Some(0);
    }
    if (-9 <= a && a <= 9) || (-9 <= b && b <= 9) {
        proof {
            lemma_mag_mul(a as int, b as int);
            assert(safe_window(a as int, b as int) ==> mag(a as int) * mag(b as int) <= 9
                * 1_000_000_000_000_000_000) by (nonlinear_arith)
                requires
                    mag(a as int) <= 9 || mag(b as int) <= 9,
                    mag(a as int) >= 0,
                    mag(b as int) >= 0,
                    safe_window(a as int, b as int) ==> (mag(a as int) <= 1_000_000_000_000_000_000
                        && mag(b as int) <= 1_000_000_000_000_000_000),
            ;
        }
        return a.checked_mul(b);
    }
    let base = calculate_base(a, b);
    let ap = split(a, base);
    let bp = split(b, base);
    let a0 = ap[0];
    let a1 = ap[1];
    let a2 = ap[2];
    let b0 = bp[0];
    let b1 = bp[1];
    let b2 = bp[2];
    let ghost bs = base as int;
    proof {
        // The high limbs stay within the base because the base's cube
        // covers both operands.
        assert(mag(a2 as int) <= bs) by (nonlinear_arith)
            requires
                mag(a2 as int) * (bs * bs) <= mag(a as int),
                mag(a as int) <= bs * bs * bs,
                10 <= bs,
                mag(a2 as int) >= 0,
        ;
        assert(mag(b2 as int) <= bs) by (nonlinear_arith)
            requires
                mag(b2 as int) * (bs * bs) <= mag(b as int),
                mag(b as int) <= bs * bs * bs,
                10 <= bs,
                mag(b2 as int) >= 0,
        ;
        lemma_combo_bounds(a as int, bs, a0 as int, a1 as int, a2 as int);
        lemma_combo_bounds(b as int, bs, b0 as int, b1 as int, b2 as int);
    }
    let sa1 = a0 + a1 + a2;
    let sa2 = a0 - a1 + a2;
    let sa3 = a0 + 2 * a1 + 4 * a2;
    let sb1 = b0 + b1 + b2;
    let sb2 = b0 - b1 + b2;
    let sb3 = b0 + 2 * b1 + 4 * b2;
    proof {
        // One operand reaches the base, so each recursive argument pair
        // shrinks strictly in combined magnitude.
        assert(base <= mag(a as int) || base <= mag(b as int));
        assert(mag(a0 as int) + mag(b0 as int) < mag(a as int) + mag(b as int));
        assert(mag(sa1 as int) + mag(sb1 as int) < mag(a as int) + mag(b as int));
        assert(mag(sa2 as int) + mag(sb2 as int) < mag(a as int) + mag(b as int));
        assert(mag(sa3 as int) + mag(sb3 as int) < mag(a as int) + mag(b as int));
        assert(mag(a2 as int) + mag(b2 as int) < mag(a as int) + mag(b as int));
    }
    let x0 = match multiply(a0, b0) {
        Some(v) => v,
        None => {
            proof {
                if safe_window(a as int, b as int) {
                    assert(false);
                }
            }
            return None;
        },
    };
    let x1 = match multiply(sa1, sb1) {
        Some(v) => v,
        None => {
            proof {
                if safe_window(a as int, b as int) {
                    assert(false);
                }
            }
            return None;
        },
    };
    let x2 = match multiply(sa2, sb2) {
        Some(v) => v,
        None => {
            proof {
                if safe_window(a as int, b as int) {
                    assert(false);
                }
            }
            return None;
        },
    };
    let x3 = match multiply(sa3, sb3) {
        Some(v) => v,
        None => {
            proof {
                if safe_window(a as int, b as int) {
                    assert(false);
                }
            }
            return None;
        },
    };
    let x4 = match multiply(a2, b2) {
        Some(v) => v,
        None => {
            proof {
                if safe_window(a as int, b as int) {
                    assert(false);
                }
            }
            return None;
        },
    };
    let ghost g0 = (a0 as int) * (b0 as int);
    let ghost g1 = (a0 as int) * (b1 as int) + (a1 as int) * (b0 as int);
    let ghost g2 = (a0 as int) * (b2 as int) + (a1 as int) * (b1 as int) + (a2 as int) * (
    b0 as int);
    let ghost g3 = (a1 as int) * (b2 as int) + (a2 as int) * (b1 as int);
    let ghost g4 = (a2 as int) * (b2 as int);
    proof {
        lemma_toom_identities(
            a0 as int,
            a1 as int,
            a2 as int,
            b0 as int,
            b1 as int,
            b2 as int,
            bs,
        );
        assert(x0 == g0);
        assert(x1 == g0 + g1 + g2 + g3 + g4);
        assert(x2 == g0 - g1 + g2 - g3 + g4);
        assert(x3 == g0 + 2 * g1 + 4 * g2 + 8 * g3 + 16 * g4);
        assert(x4 == g4);
        if safe_window(a as int, b as int) {
            lemma_safe_window(
                a as int,
                b as int,
                bs,
                a0 as int,
                a1 as int,
                a2 as int,
                b0 as int,
                b1 as int,
                b2 as int,
                sa1 as int,
                sa2 as int,
                sa3 as int,
                sb1 as int,
                sb2 as int,
                sb3 as int,
            );
        }
    }
    let result = interpolate_combine(
        x0,
        x1,
        x2,
        x3,
        x4,
        base,
        Ghost(g0),
        Ghost(g1),
        Ghost(g2),
        Ghost(g3),
        Ghost(g4),
    );
    proof {
        if result is Some {
            assert(result->0 == poly5(g0, g1, g2, g3, g4, bs));
            assert(result->0 == a * b);
        }
        if safe_window(a as int, b as int) {
            assert(interp_fits(g0, g1, g2, g3, g4, bs));
            assert(result is Some);
        }
    }
    result
}

/// Sign correctness: any results meeting `multiply`'s contract flip sign
/// with one negated operand and keep it with both negated.
pub proof fn lemma_sign_correctness(
    a: i128,
    b: i128,
    r_ab: Option<i128>,
    r_nab: Option<i128>,
    r_nanb: Option<i128>,
)
    requires
        r_ab is Some ==> r_ab->0 == a * b,
        r_nab is Some ==> r_nab->0 == (-(a as int)) * b,
        r_nanb is Some ==> r_nanb->0 == (-(a as int)) * (-(b as int)),
    ensures
        r_ab is Some && r_nab is Some ==> r_nab->0 == -(r_ab->0 as int),
        r_ab is Some && r_nanb is Some ==> r_nanb->0 == r_ab->0,
{
    assert((-(a as int)) * (b as int) == -((a as int) * (b as int))) by (nonlinear_arith);
    assert((-(a as int)) * (-(b as int)) == (a as int) * (b as int)) by (nonlinear_arith);
}

/// Interpolation exactness: for any limb triples, the two division steps of
/// the coefficient recovery (by 2 and by 6) leave no remainder.
pub proof fn lemma_interpolation_exact(a0: int, a1: int, a2: int, b0: int, b1: int, b2: int)
    ensures
        ((a0 + a1 + a2) * (b0 + b1 + b2) + (a0 - a1 + a2) * (b0 - b1 + b2)) % 2 == 0,
        ({
            let x0 = a0 * b0;
            let x1 = (a0 + a1 + a2) * (b0 + b1 + b2);
            let x2 = (a0 - a1 + a2) * (b0 - b1 + b2);
            let x3 = (a0 + 2 * a1 + 4 * a2) * (b0 + 2 * b1 + 4 * b2);
            let x4 = a2 * b2;
            let c2 = (x1 + x2) / 2 - x0 - x4;
            (x3 - 2 * x1 + x0 - 2 * c2 - 14 * x4) % 6 == 0
        }),
{
    lemma_toom_identities(a0, a1, a2, b0, b1, b2, 1);
    let g0 = a0 * b0;
    let g1 = a0 * b1 + a1 * b0;
    let g2 = a0 * b2 + a1 * b1 + a2 * b0;
    let g3 = a1 * b2 + a2 * b1;
    let g4 = a2 * b2;
    let x1 = (a0 + a1 + a2) * (b0 + b1 + b2);
    let x2 = (a0 - a1 + a2) * (b0 - b1 + b2);
    let x3 = (a0 + 2 * a1 + 4 * a2) * (b0 + 2 * b1 + 4 * b2);
    assert(x1 + x2 == (g0 + g2 + g4) * 2);
    vstd::arithmetic::div_mod::lemma_mod_multiples_basic(g0 + g2 + g4, 2);
    assert(x1 + x2 == 2 * (g0 + g2 + g4));
    vstd::arithmetic::div_mod::lemma_div_multiples_vanish(g0 + g2 + g4, 2);
    let c2 = (x1 + x2) / 2 - g0 - g4;
    assert(c2 == g2);
    assert(x3 - 2 * x1 + g0 - 2 * c2 - 14 * g4 == g3 * 6);
    vstd::arithmetic::div_mod::lemma_mod_multiples_basic(g3, 6);
}

} // verus!

