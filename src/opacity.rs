//! Opacity values, held as the IEEE-754 single-precision bit pattern of a
//! number in `[0.0, 1.0]`.
//!
//! For numbers whose sign bit is clear, the order of bit patterns read as
//! unsigned integers is the order of the numbers, so range checks and clamping
//! are exact integer comparisons.
use vstd::prelude::*;

verus! {

/// Bit pattern of `1.0`.
pub const ONE_BITS: u32 = 0x3F80_0000;

/// Bit pattern of `-0.0`: the sign bit alone.
pub const NEG_ZERO_BITS: u32 = 0x8000_0000;

/// Bit pattern of positive infinity.
pub const POS_INFINITY_BITS: u32 = 0x7F80_0000;

/// Bit pattern of negative infinity.
pub const NEG_INFINITY_BITS: u32 = 0xFF80_0000;

/// The bit pattern encodes a NaN: all exponent bits set, mantissa non-zero.
pub open spec fn is_nan_bits(bits: u32) -> bool {
    (POS_INFINITY_BITS < bits && bits < NEG_ZERO_BITS) || NEG_INFINITY_BITS < bits
}

/// The bit pattern encodes a number `x` with `0.0 <= x <= 1.0`.
pub open spec fn in_unit_interval(bits: u32) -> bool {
    bits <= ONE_BITS || bits == NEG_ZERO_BITS
}

/// The bit pattern encodes a number `x` with `x > 0.0`.
pub open spec fn is_positive_bits(bits: u32) -> bool {
    0 < bits <= POS_INFINITY_BITS
}

/// `x.clamp(0.0, 1.0)` for a number `x` that is not NaN, with a zero result
/// always written as `+0.0`.
pub open spec fn clamp_unit_bits(bits: u32) -> u32 {
    if bits >= NEG_ZERO_BITS {
        0
    } else if bits > ONE_BITS {
        ONE_BITS
    } else {
        bits
    }
}

/// An opacity in `[0.0, 1.0]`, stored as its bit pattern (`+0.0` for zero).
#[derive(Debug, Clone, Copy, PartialEq, Eq, Structural)]
pub struct Opacity {
    bits: u32,
}

impl View for Opacity {
    type V = u32;

    closed spec fn view(&self) -> u32 {
        self.bits
    }
}

impl Opacity {
    #[verifier::type_invariant]
    spec fn inv(&self) -> bool {
        self.bits <= ONE_BITS
    }

    /// Full opacity, `1.0`.
    pub fn opaque() -> (r: Opacity)
        ensures
            r@ == ONE_BITS,
    {
        Opacity { bits: ONE_BITS }
    }

    /// The opacity whose bit pattern is `bits`, if that number lies in
    /// `[0.0, 1.0]`; `-0.0` gives zero.
    pub fn from_bits(bits: u32) -> (r: Option<Opacity>)
        ensures
            r.is_some() <==> in_unit_interval(bits),
            r.is_some() ==> r.unwrap()@ == clamp_unit_bits(bits),
    {
        if bits <= ONE_BITS {
            Some(Opacity { bits })
        } else if bits == NEG_ZERO_BITS {
            Some(Opacity { bits: 0 })
        } else {
            None
        }
    }

    /// The number with bit pattern `bits`, clamped into `[0.0, 1.0]`.
    pub fn clamped(bits: u32) -> (r: Opacity)
        requires
            !is_nan_bits(bits),
        ensures
            r@ == clamp_unit_bits(bits),
    {
        if bits >= NEG_ZERO_BITS {
            Opacity { bits: 0 }
        } else if bits > ONE_BITS {
            Opacity { bits: ONE_BITS }
        } else {
            Opacity { bits }
        }
    }

    /// The bit pattern of this opacity.
    pub fn to_bits(&self) -> (r: u32)
        ensures
            r == self@,
            r <= ONE_BITS,
    {
        proof {
            use_type_invariant(self);
        }
        self.bits
    }

    /// The opacity is greater than `0.0`.
    pub fn is_positive(&self) -> (r: bool)
        ensures
            r == is_positive_bits(self@),
    {
        proof {
            use_type_invariant(self);
        }
        self.bits > 0
    }
}

} // verus!
