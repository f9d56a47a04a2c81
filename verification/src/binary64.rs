//! IEEE 754 values held as their bit patterns, so that limits and setpoints are compared exactly
//! as the hardware compares them.

use vstd::arithmetic::power2::*;
use vstd::prelude::*;

verus! {

/// The weight of the sign bit of a double.
pub const SIGN_WEIGHT: u64 = 0x8000_0000_0000_0000;

/// The bit pattern of positive infinity.
pub const INFINITY_BITS: u64 = 0x7ff0_0000_0000_0000;

/// The number of significands that share one exponent.
pub const SIGNIFICANDS: u64 = 0x10_0000_0000_0000;

/// A double-precision value.
#[derive(Clone, Copy, Debug, PartialEq, Eq, Structural)]
pub struct Binary64 {
    pub bits: u64,
}

/// A single-precision value.
#[derive(Clone, Copy, Debug, PartialEq, Eq, Structural)]
pub struct Binary32 {
    pub bits: u32,
}

/// The absolute value that the sign-less bit pattern `magnitude` denotes, counted in the smallest
/// positive double (two to the power of -1074). Infinity counts as the value next to the largest
/// finite one.
pub open spec fn scaled_magnitude(magnitude: nat) -> nat {
    let exponent = magnitude / (SIGNIFICANDS as nat);
    let fraction = magnitude % (SIGNIFICANDS as nat);
    if exponent == 0 {
        fraction
    } else {
        (SIGNIFICANDS as nat + fraction) * pow2((exponent - 1) as nat)
    }
}

impl Binary64 {
    /// The sign bit is set.
    pub open spec fn negative(self) -> bool {
        self.bits >= SIGN_WEIGHT
    }

    /// The bit pattern without its sign.
    pub open spec fn magnitude(self) -> nat {
        if self.negative() {
            (self.bits - SIGN_WEIGHT) as nat
        } else {
            self.bits as nat
        }
    }

    /// Neither infinite nor NaN.
    pub open spec fn finite(self) -> bool {
        self.magnitude() < INFINITY_BITS
    }

    pub open spec fn nan(self) -> bool {
        self.magnitude() > INFINITY_BITS
    }

    /// The value, counted in the smallest positive double.
    pub open spec fn scaled(self) -> int {
        if self.negative() {
            -(scaled_magnitude(self.magnitude()) as int)
        } else {
            scaled_magnitude(self.magnitude()) as int
        }
    }

    /// `self < other` as IEEE 754 orders doubles: no NaN is below or above anything.
    pub open spec fn below(self, other: Self) -> bool {
        !self.nan() && !other.nan() && self.scaled() < other.scaled()
    }

    /// `self == other` as IEEE 754 compares doubles: the two zeros are equal, no NaN equals
    /// anything.
    pub open spec fn equals(self, other: Self) -> bool {
        !self.nan() && !other.nan() && self.scaled() == other.scaled()
    }

    /// Finite, and neither below `minimum` nor above `maximum`.
    pub open spec fn acceptable(self, minimum: Self, maximum: Self) -> bool {
        self.finite() && !self.below(minimum) && !maximum.below(self)
    }

    /// The bit pattern without its sign.
    fn unsigned_bits(&self) -> (result: u64)
        ensures
            result == self.magnitude(),
    {
        if self.bits >= SIGN_WEIGHT {
            self.bits - SIGN_WEIGHT
        } else {
            self.bits
        }
    }

    /// An integer that orders the values other than NaN.
    fn rank(&self) -> (result: i128)
        ensures
            result == self.rank_of(),
    {
        let magnitude: i128 = self.unsigned_bits() as i128;
        if self.bits >= SIGN_WEIGHT {
            -magnitude
        } else {
            magnitude
        }
    }

    spec fn rank_of(self) -> int {
        if self.negative() {
            -(self.magnitude() as int)
        } else {
            self.magnitude() as int
        }
    }

    /// Whether the value is neither infinite nor NaN.
    pub fn is_finite(&self) -> (result: bool)
        ensures
            result == self.finite(),
    {
        self.unsigned_bits() < INFINITY_BITS
    }

    /// Whether the value is NaN.
    pub fn is_nan(&self) -> (result: bool)
        ensures
            result == self.nan(),
    {
        self.unsigned_bits() > INFINITY_BITS
    }

    /// `self < other`.
    pub fn is_below(&self, other: &Self) -> (result: bool)
        ensures
            result == self.below(*other),
    {
        proof {
            lemma_rank_orders(*self, *other);
            lemma_rank_orders(*other, *self);
        }
        !self.is_nan() && !other.is_nan() && self.rank() < other.rank()
    }

    /// `self == other`.
    pub fn is_equal(&self, other: &Self) -> (result: bool)
        ensures
            result == self.equals(*other),
    {
        proof {
            lemma_rank_orders(*self, *other);
            lemma_rank_orders(*other, *self);
        }
        !self.is_nan() && !other.is_nan() && self.rank() == other.rank()
    }

    /// Whether the value is finite and neither below `minimum` nor above `maximum`.
    pub fn is_acceptable(&self, minimum: &Self, maximum: &Self) -> (result: bool)
        ensures
            result == self.acceptable(*minimum, *maximum),
    {
        self.is_finite() && !self.is_below(minimum) && !maximum.is_below(self)
    }
}

/// The number that eight bytes denote, least significant byte first.
pub open spec fn little_endian(bytes: Seq<u8>) -> int {
    bytes[0] + 0x100 * bytes[1] + 0x1_0000 * bytes[2] + 0x100_0000 * bytes[3] + 0x1_0000_0000
        * bytes[4] + 0x100_0000_0000 * bytes[5] + 0x1_0000_0000_0000 * bytes[6]
        + 0x100_0000_0000_0000 * bytes[7]
}

/// The double that stands in `bytes` at `offset`, least significant byte first.
pub open spec fn double_at(bytes: Seq<u8>, offset: int) -> Binary64 {
    Binary64 { bits: little_endian(bytes.subrange(offset, offset + 8)) as u64 }
}

/// Reads the double that stands in `bytes` at `offset`, least significant byte first.
pub fn read_double(bytes: &[u8], offset: usize) -> (value: Binary64)
    requires
        offset + 8 <= bytes@.len(),
    ensures
        value == double_at(bytes@, offset as int),
{
    let total: usize = bytes.len();
    assert(offset + 8 <= total);
    let bits: u64 = bytes[offset] as u64 + 0x100 * (bytes[offset + 1] as u64) + 0x1_0000 * (
    bytes[offset + 2] as u64) + 0x100_0000 * (bytes[offset + 3] as u64) + 0x1_0000_0000 * (
    bytes[offset + 4] as u64) + 0x100_0000_0000 * (bytes[offset + 5] as u64) + 0x1_0000_0000_0000
        * (bytes[offset + 6] as u64) + 0x100_0000_0000_0000 * (bytes[offset + 7] as u64);
    Binary64 { bits }
}

impl Binary32 {
    /// Neither infinite nor NaN.
    pub open spec fn finite(self) -> bool {
        (self.bits as nat) % 0x8000_0000 < 0x7f80_0000
    }

    /// Whether the value is neither infinite nor NaN.
    pub fn is_finite(&self) -> (result: bool)
        ensures
            result == self.finite(),
    {
        self.bits % 0x8000_0000 < 0x7f80_0000
    }
}

/// A larger sign-less bit pattern denotes a larger absolute value.
pub proof fn lemma_scaled_magnitude_grows(low: nat, high: nat)
    requires
        low < high,
    ensures
        scaled_magnitude(low) < scaled_magnitude(high),
{
    let unit = SIGNIFICANDS as nat;
    let low_exponent = low / unit;
    let high_exponent = high / unit;
    let low_fraction = low % unit;
    let high_fraction = high % unit;
    assert(low_exponent <= high_exponent);
    if low_exponent == high_exponent {
        assert(low_fraction < high_fraction);
        if low_exponent > 0 {
            let weight = pow2((low_exponent - 1) as nat);
            lemma_pow2_pos((low_exponent - 1) as nat);
            assert((unit + low_fraction) * weight < (unit + high_fraction) * weight)
                by (nonlinear_arith)
                requires
                    low_fraction < high_fraction,
                    weight > 0,
            ;
        }
    } else {
        let weight = pow2((high_exponent - 1) as nat);
        lemma_pow2_pos((high_exponent - 1) as nat);
        assert(unit * weight <= (unit + high_fraction) * weight) by (nonlinear_arith)
            requires
                weight > 0,
        ;
        if low_exponent == 0 {
            assert(unit <= unit * weight) by (nonlinear_arith)
                requires
                    weight > 0,
            ;
        } else {
            let low_weight = pow2((low_exponent - 1) as nat);
            lemma_pow2_pos((low_exponent - 1) as nat);
            lemma_pow2_unfold(low_exponent);
            if low_exponent < high_exponent - 1 {
                lemma_pow2_strictly_increases(low_exponent, (high_exponent - 1) as nat);
            }
            assert(2 * low_weight <= weight);
            assert((unit + low_fraction) * low_weight < unit * weight) by (nonlinear_arith)
                requires
                    low_fraction < unit,
                    low_weight > 0,
                    2 * low_weight <= weight,
            ;
        }
    }
}

proof fn lemma_rank_orders(left: Binary64, right: Binary64)
    ensures
        left.rank_of() < right.rank_of() ==> left.scaled() < right.scaled(),
        left.rank_of() == right.rank_of() ==> left.scaled() == right.scaled(),
{
    let low = left.magnitude();
    let high = right.magnitude();
    assert(scaled_magnitude(0) == 0);
    if low < high {
        lemma_scaled_magnitude_grows(low, high);
    }
    if high < low {
        lemma_scaled_magnitude_grows(high, low);
    }
    if 0 < low {
        lemma_scaled_magnitude_grows(0, low);
    }
    if 0 < high {
        lemma_scaled_magnitude_grows(0, high);
    }
}

} // verus!
