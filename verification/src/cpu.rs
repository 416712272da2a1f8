//! CPU utilisation samples.
//!
//! A sample is a single-precision IEEE 754 number, by intent a percentage
//! between 0 and 100; nothing here holds it to that range. The library
//! never does arithmetic on samples: it stores them, hands them back and
//! orders them. It therefore keeps a sample as its 32-bit pattern and
//! defines the order of two samples on those bits.

use vstd::prelude::*;

verus! {

/// The bit that carries the sign of a single-precision number.
pub const SIGN_BIT: u32 = 0x8000_0000;

/// The magnitude bits of positive infinity. Every larger magnitude is a NaN.
pub const INFINITY_MAGNITUDE: u32 = 0x7f80_0000;

/// One CPU utilisation reading, as the bit pattern of a single-precision
/// number (what `f32::to_bits` gives and `f32::from_bits` takes).
#[derive(Clone, Copy, Debug, PartialEq, Eq, Structural)]
pub struct CpuUsage {
    pub bits: u32,
}

impl CpuUsage {
    /// The pattern without its sign bit.
    pub open spec fn magnitude(self) -> int {
        if self.bits >= SIGN_BIT {
            self.bits - SIGN_BIT
        } else {
            self.bits as int
        }
    }

    /// Whether the sign bit is set.
    pub open spec fn is_negative(self) -> bool {
        self.bits >= SIGN_BIT
    }

    /// Whether the pattern encodes a NaN: an all-ones exponent with a
    /// non-zero fraction, of either sign.
    pub open spec fn spec_is_nan(self) -> bool {
        self.magnitude() > INFINITY_MAGNITUDE
    }

    /// The place of a sample that is not a NaN on the number line: samples
    /// that are not NaN compare as their ranks do. Both zeros have rank 0.
    pub open spec fn rank(self) -> int {
        if self.is_negative() {
            -self.magnitude()
        } else {
            self.magnitude()
        }
    }

    /// Numeric `<` on samples. A NaN is neither below nor above anything.
    pub open spec fn spec_below(self, other: CpuUsage) -> bool {
        !self.spec_is_nan() && !other.spec_is_nan() && self.rank() < other.rank()
    }

    /// The sample with the given bit pattern.
    pub fn from_bits(bits: u32) -> (sample: CpuUsage)
        ensures
            sample.bits == bits,
    {
        CpuUsage { bits }
    }

    /// The bit pattern of the sample.
    pub fn to_bits(self) -> (bits: u32)
        ensures
            bits == self.bits,
    {
        self.bits
    }

    /// Positive zero, the sample a fresh history is filled with.
    pub open spec fn spec_zero() -> CpuUsage {
        CpuUsage { bits: 0 }
    }

    /// Positive zero.
    #[verifier::when_used_as_spec(spec_zero)]
    pub fn zero() -> (sample: CpuUsage)
        ensures
            sample == Self::spec_zero(),
    {
        CpuUsage { bits: 0 }
    }

    /// Whether the sample is a NaN.
    #[verifier::when_used_as_spec(spec_is_nan)]
    pub fn is_nan(self) -> (nan: bool)
        ensures
            nan == self.spec_is_nan(),
    {
        let magnitude: u32 = if self.bits >= SIGN_BIT {
            self.bits - SIGN_BIT
        } else {
            self.bits
        };
        magnitude > INFINITY_MAGNITUDE
    }

    /// The rank as a machine integer.
    fn signed_rank(self) -> (r: i64)
        ensures
            r == self.rank(),
    {
        if self.bits >= SIGN_BIT {
            -((self.bits - SIGN_BIT) as i64)
        } else {
            self.bits as i64
        }
    }

    /// Whether the sample is a number strictly less than `other`.
    #[verifier::when_used_as_spec(spec_below)]
    pub fn below(self, other: CpuUsage) -> (b: bool)
        ensures
            b == self.spec_below(other),
    {
        !self.is_nan() && !other.is_nan() && self.signed_rank() < other.signed_rank()
    }
}

/// Samples that are not NaN are totally ordered: of two of them, one is
/// below the other or they have the same rank.
pub proof fn law_numbers_are_comparable(a: CpuUsage, b: CpuUsage)
    requires
        !a.is_nan(),
        !b.is_nan(),
    ensures
        a.below(b) || b.below(a) || a.rank() == b.rank(),
        !(a.below(b) && b.below(a)),
{
}

/// `below` is transitive and irreflexive, NaN included.
pub proof fn law_below_is_strict_order(a: CpuUsage, b: CpuUsage, c: CpuUsage)
    ensures
        !a.below(a),
        a.below(b) && b.below(c) ==> a.below(c),
{
}

} // verus!
