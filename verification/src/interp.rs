//! Recombination: a coefficient vector evaluated at the base.
//!
//! Once interpolation has recovered the five coefficients of the product
//! polynomial, the product itself is the polynomial's value at `x = base`.
//! Every multiplication and addition is checked, so an operand pair whose
//! product leaves the 128-bit range yields `None` instead of a wrapped value.

use vstd::prelude::*;

use crate::mag;

verus! {

/// Value of a degree-4 polynomial with coefficients `c0..c4` at `x`.
pub open spec fn poly5(c0: int, c1: int, c2: int, c3: int, c4: int, x: int) -> int {
    c0 + c1 * x + c2 * (x * x) + c3 * (x * x * x) + c4 * (x * x * x * x)
}

/// The evaluation of `poly5` at a positive `x` stays within `i128` at every
/// intermediate step: the highest power fits, and so does the sum of the
/// term magnitudes.
pub open spec fn poly5_fits(c0: int, c1: int, c2: int, c3: int, c4: int, x: int) -> bool {
    &&& 1 <= x
    &&& x * x * x * x <= i128::MAX
    &&& mag(c0) + mag(c1) * x + mag(c2) * (x * x) + mag(c3) * (x * x * x) + mag(c4) * (x * x * x
        * x) <= i128::MAX
}

/// Magnitudes are multiplicative.
proof fn lemma_mag_mul(a: int, b: int)
    ensures
        mag(a * b) == mag(a) * mag(b),
{
    assert(mag(a * b) == mag(a) * mag(b)) by (nonlinear_arith);
}

/// Under `poly5_fits`, every term and every partial sum of the evaluation
/// has magnitude within `i128::MAX`.
proof fn lemma_combine_bounds(c0: int, c1: int, c2: int, c3: int, c4: int, x: int)
    requires
        poly5_fits(c0, c1, c2, c3, c4, x),
    ensures
        x * x <= i128::MAX,
        x * x * x <= i128::MAX,
        mag(c1 * x) <= i128::MAX,
        mag(c2 * (x * x)) <= i128::MAX,
        mag(c3 * (x * x * x)) <= i128::MAX,
        mag(c4 * (x * x * x * x)) <= i128::MAX,
        mag(c0 + c1 * x) <= i128::MAX,
        mag(c0 + c1 * x + c2 * (x * x)) <= i128::MAX,
        mag(c0 + c1 * x + c2 * (x * x) + c3 * (x * x * x)) <= i128::MAX,
        mag(c0 + c1 * x + c2 * (x * x) + c3 * (x * x * x) + c4 * (x * x * x * x)) <= i128::MAX,
{
    assert(1 <= x * x && x * x <= x * x * x && x * x * x <= x * x * x * x && x <= x * x)
        by (nonlinear_arith)
        requires
            1 <= x,
    ;
    lemma_mag_mul(c1, x);
    lemma_mag_mul(c2, x * x);
    lemma_mag_mul(c3, x * x * x);
    lemma_mag_mul(c4, x * x * x * x);
    assert(mag(c1) * mag(x) == mag(c1) * x);
    assert(mag(c2) * mag(x * x) == mag(c2) * (x * x));
    assert(mag(c3) * mag(x * x * x) == mag(c3) * (x * x * x));
    assert(mag(c4) * mag(x * x * x * x) == mag(c4) * (x * x * x * x));
    assert(mag(c1) * x >= 0 && mag(c2) * (x * x) >= 0 && mag(c3) * (x * x * x) >= 0 && mag(c4) * (x
        * x * x * x) >= 0);
}

/// Combines the coefficient vector `parts` into the final product: the
/// value `parts[0] + parts[1]*base + ... + parts[4]*base^4`, each term and
/// sum computed with checked arithmetic.  `None` reports that some
/// intermediate value left the 128-bit range; whenever the term magnitudes
/// fit (`poly5_fits`), the evaluation is guaranteed to succeed.
pub fn combine(parts: [i128; 5], base: i128) -> (r: Option<i128>)
    ensures
        r is Some ==> r->0 == poly5(
            parts[0] as int,
            parts[1] as int,
            parts[2] as int,
            parts[3] as int,
            parts[4] as int,
            base as int,
        ),
        poly5_fits(
            parts[0] as int,
            parts[1] as int,
            parts[2] as int,
            parts[3] as int,
            parts[4] as int,
            base as int,
        ) ==> r is Some,
{
    let ghost c0 = parts[0] as int;
    let ghost c1 = parts[1] as int;
    let ghost c2 = parts[2] as int;
    let ghost c3 = parts[3] as int;
    let ghost c4 = parts[4] as int;
    let ghost x = base as int;
    let pw2 = match base.checked_mul(base) {
        Some(v) => v,
        None => {
            proof {
                if poly5_fits(c0, c1, c2, c3, c4, x) {
                    lemma_combine_bounds(c0, c1, c2, c3, c4, x);
                    assert(false);
                }
            }
            return None;
        },
    };
    let pw3 = match pw2.checked_mul(base) {
        Some(v) => v,
        None => {
            proof {
                if poly5_fits(c0, c1, c2, c3, c4, x) {
                    lemma_combine_bounds(c0, c1, c2, c3, c4, x);
                    assert(false);
                }
            }
            return None;
        },
    };
    let pw4 = match pw3.checked_mul(base) {
        Some(v) => v,
        None => {
            proof {
                if poly5_fits(c0, c1, c2, c3, c4, x) {
                    lemma_combine_bounds(c0, c1, c2, c3, c4, x);
                    assert(false);
                }
            }
            return None;
        },
    };
    let t1 = match parts[1].checked_mul(base) {
        Some(v) => v,
        None => {
            proof {
                if poly5_fits(c0, c1, c2, c3, c4, x) {
                    lemma_combine_bounds(c0, c1, c2, c3, c4, x);
                    assert(false);
                }
            }
            return None;
        },
    };
    let t2 = match parts[2].checked_mul(pw2) {
        Some(v) => v,
        None => {
            proof {
                if poly5_fits(c0, c1, c2, c3, c4, x) {
                    lemma_combine_bounds(c0, c1, c2, c3, c4, x);
                    assert(false);
                }
            }
            return None;
        },
    };
    let t3 = match parts[3].checked_mul(pw3) {
        Some(v) => v,
        None => {
            proof {
                if poly5_fits(c0, c1, c2, c3, c4, x) {
                    lemma_combine_bounds(c0, c1, c2, c3, c4, x);
                    assert(false);
                }
            }
            return None;
        },
    };
    let t4 = match parts[4].checked_mul(pw4) {
        Some(v) => v,
        None => {
            proof {
                if poly5_fits(c0, c1, c2, c3, c4, x) {
                    lemma_combine_bounds(c0, c1, c2, c3, c4, x);
                    assert(false);
                }
            }
            return None;
        },
    };
    let s1 = match parts[0].checked_add(t1) {
        Some(v) => v,
        None => {
            proof {
                if poly5_fits(c0, c1, c2, c3, c4, x) {
                    lemma_combine_bounds(c0, c1, c2, c3, c4, x);
                    assert(false);
                }
            }
            return None;
        },
    };
    let s2 = match s1.checked_add(t2) {
        Some(v) => v,
        None => {
            proof {
                if poly5_fits(c0, c1, c2, c3, c4, x) {
                    lemma_combine_bounds(c0, c1, c2, c3, c4, x);
                    assert(false);
                }
            }
            return None;
        },
    };
    let s3 = match s2.checked_add(t3) {
        Some(v) => v,
        None => {
            proof {
                if poly5_fits(c0, c1, c2, c3, c4, x) {
                    lemma_combine_bounds(c0, c1, c2, c3, c4, x);
                    assert(false);
                }
            }
            return None;
        },
    };
    let s4 = match s3.checked_add(t4) {
        Some(v) => v,
        None => {
            proof {
                if poly5_fits(c0, c1, c2, c3, c4, x) {
                    lemma_combine_bounds(c0, c1, c2, c3, c4, x);
                    assert(false);
                }
            }
            return None;
        },
    };
    Some(s4)
}

} // verus!
