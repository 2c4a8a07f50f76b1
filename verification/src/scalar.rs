//! The numeric type used for all font metrics and coordinates.
//!
//! Every metric in a font (advances, kerning adjustments, rectangle
//! coordinates) is an IEEE-754 single-precision number. The library carries
//! such a number as its 32-bit pattern, so that all structural reasoning
//! (the codec, the layout bookkeeping) is exact, and performs the one
//! arithmetic operation it needs, addition, through `rustc_apfloat`'s
//! software implementation of IEEE-754 arithmetic on bit patterns.

use vstd::prelude::*;
use rustc_apfloat::Float;

verus! {

/// An IEEE-754 single-precision number, held as its bit pattern.
#[derive(Clone, Copy, PartialEq, Eq, Debug)]
pub struct Scalar {
    pub bits: u32,
}

/// The bit pattern of the IEEE-754 single-precision sum of the numbers with
/// bit patterns `a` and `b`, rounding to nearest, ties to even.
pub uninterp spec fn sum_bits(a: u32, b: u32) -> u32;

impl Scalar {
    /// The sum of two scalars, as a value of `sum_bits`.
    pub open spec fn spec_plus(self, other: Scalar) -> Scalar {
        Scalar { bits: sum_bits(self.bits, other.bits) }
    }

    /// Relies on `rustc_apfloat::ieee::Single::add_r` with rounding to
    /// nearest, ties to even: IEEE-754 single-precision addition, whose
    /// result is determined by the bit patterns of the two operands alone.
    #[verifier::external_body]
    pub fn plus(self, other: Scalar) -> (r: Scalar)
        ensures
            r.bits == sum_bits(self.bits, other.bits),
            r == self.spec_plus(other),
    {
        let x = rustc_apfloat::ieee::Single::from_bits(self.bits as u128);
        let y = rustc_apfloat::ieee::Single::from_bits(other.bits as u128);
        let s = x.add_r(y, rustc_apfloat::Round::NearestTiesToEven).value;
        Scalar { bits: s.to_bits() as u32 }
    }
}

/// The scalar zero (the bit pattern of positive zero).
pub open spec fn spec_zero() -> Scalar {
    Scalar { bits: 0 }
}

/// The scalar zero, used for the initial caret position and for absent
/// kerning pairs.
pub fn zero() -> (r: Scalar)
    ensures
        r == spec_zero(),
{
    Scalar { bits: 0 }
}

} // verus!
