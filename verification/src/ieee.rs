//! Equality of IEEE 754 double-precision numbers, computed on their raw
//! bits: a NaN equals nothing, the two zeroes equal each other, and any
//! other pair is equal exactly when the bits are.

use vstd::prelude::*;

verus! {

/// The bits encode a NaN: exponent all ones, fraction non-zero.
pub open spec fn f64_bits_nan(b: u64) -> bool {
    (b & 0x7FF0_0000_0000_0000) == 0x7FF0_0000_0000_0000 && (b & 0x000F_FFFF_FFFF_FFFF) != 0
}

/// The bits encode a zero of either sign.
pub open spec fn f64_bits_zero(b: u64) -> bool {
    (b & 0x7FFF_FFFF_FFFF_FFFF) == 0
}

/// IEEE 754 equality of the two encoded numbers.
pub open spec fn spec_f64_bits_eq(a: u64, b: u64) -> bool {
    !f64_bits_nan(a) && !f64_bits_nan(b) && (a == b || (f64_bits_zero(a) && f64_bits_zero(b)))
}

/// Exec twin of `spec_f64_bits_eq`.
pub fn f64_bits_eq(a: u64, b: u64) -> (r: bool)
    ensures
        r == spec_f64_bits_eq(a, b),
{
    let a_nan = (a & 0x7FF0_0000_0000_0000) == 0x7FF0_0000_0000_0000 && (a
        & 0x000F_FFFF_FFFF_FFFF) != 0;
    let b_nan = (b & 0x7FF0_0000_0000_0000) == 0x7FF0_0000_0000_0000 && (b
        & 0x000F_FFFF_FFFF_FFFF) != 0;
    let both_zero = (a & 0x7FFF_FFFF_FFFF_FFFF) == 0 && (b & 0x7FFF_FFFF_FFFF_FFFF) == 0;
    !a_nan && !b_nan && (a == b || both_zero)
}

} // verus!
