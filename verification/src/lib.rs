//! Exact products of signed 128-bit integers, computed with the Toom-3
//! (three-way Toom-Cook) divide-and-conquer multiplication algorithm.
//!
//! Each operand is split into three limbs over a decimal base, the product
//! polynomial is sampled at five points by recursive multiplications, and the
//! five coefficients are recovered by exact integer interpolation.  Every
//! arithmetic step is checked: [`toom::multiply`] either returns the exact
//! mathematical product or reports overflow with `None`, never a truncated
//! value.

use vstd::prelude::*;

pub mod base;
pub mod interp;
pub mod split;
pub mod toom;

pub use base::calculate_base;
pub use interp::combine;
pub use split::split;
pub use toom::multiply;

verus! {

/// Magnitude of a mathematical integer.
pub open spec fn mag(x: int) -> int {
    if x < 0 {
        -x
    } else {
        x
    }
}

/// The larger of two magnitudes: the quantity that drives base selection.
pub open spec fn max_mag(a: int, b: int) -> int {
    if mag(a) >= mag(b) {
        mag(a)
    } else {
        mag(b)
    }
}

} // verus!
