//! Single-precision quantities, carried as bit patterns.

use vstd::prelude::*;

verus! {

/// A single-precision number held as its IEEE 754 bit pattern. The library
/// stores, copies and compares such numbers bit for bit; arithmetic on them is
/// the caller's business.
#[derive(Clone, Copy, Debug, PartialEq, Eq, Hash, Structural)]
pub struct Scalar {
    pub bits: u32,
}

/// The bit pattern of the number one.
pub const ONE_BITS: u32 = 0x3f80_0000;

impl Scalar {
    /// The number with the given bit pattern.
    pub fn from_bits(bits: u32) -> (s: Scalar)
        ensures
            s.bits == bits,
    {
        Scalar { bits }
    }

    /// The bit pattern of the number.
    pub fn to_bits(&self) -> (bits: u32)
        ensures
            bits == self.bits,
    {
        self.bits
    }

    /// Whether the number is exactly one. One has a single bit pattern, so this
    /// agrees with comparing the number itself against one.
    pub open spec fn spec_is_one(&self) -> bool {
        self.bits == ONE_BITS
    }

    /// Whether the number is exactly one.
    pub fn is_one(&self) -> (b: bool)
        ensures
            b == self.spec_is_one(),
    {
        self.bits == ONE_BITS
    }
}

} // verus!
