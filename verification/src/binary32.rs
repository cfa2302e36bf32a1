//! IEEE 754 single-precision values, held and checked as their bit patterns.

use vstd::arithmetic::power2::*;
use vstd::prelude::*;

verus! {

/// Bit pattern of the largest accepted magnitude, one thousand million.
pub const LIMIT_BITS: u32 = 0x4e6e_6b28;

/// A single-precision floating-point value, as its 32 bits.
///
/// Values compare as numbers do: the two zeros are equal, and a NaN equals nothing.
#[derive(Debug, Clone, Copy)]
pub struct Binary32 {
    /// Sign, exponent and fraction, most significant bit first.
    pub bits: u32,
}

impl Binary32 {
    /// The biased exponent field, 0 through 255.
    pub open spec fn exponent(self) -> nat {
        ((self.bits / 0x80_0000) % 0x100) as nat
    }

    /// The 23-bit fraction field.
    pub open spec fn fraction(self) -> nat {
        (self.bits % 0x80_0000) as nat
    }

    /// Neither an infinity nor a NaN.
    pub open spec fn finite(self) -> bool {
        self.exponent() != 255
    }

    /// Neither a number nor an infinity.
    pub open spec fn nan(self) -> bool {
        self.exponent() == 255 && self.fraction() != 0
    }

    /// Either of the two zeros.
    pub open spec fn zero(self) -> bool {
        self.exponent() == 0 && self.fraction() == 0
    }

    /// Whether two values are equal as numbers.
    pub open spec fn equals(self, other: Binary32) -> bool {
        ||| self.bits == other.bits && !self.nan()
        ||| self.zero() && other.zero()
    }

    /// The absolute value of a finite pattern, in units of 2 to the power -149.
    pub open spec fn magnitude(self) -> nat {
        if self.exponent() == 0 {
            self.fraction()
        } else {
            (0x80_0000 + self.fraction()) * pow2((self.exponent() - 1) as nat)
        }
    }

    /// Finite, with an absolute value of at most 1e9.
    pub open spec fn acceptable(self) -> bool {
        self.finite() && self.magnitude() <= 1_000_000_000 * pow2(149)
    }

    /// Whether the value is finite and its absolute value at most 1e9.
    pub fn is_acceptable(&self) -> (accepted: bool)
        ensures
            accepted == self.acceptable(),
    {
        let bits: u32 = self.bits;
        proof {
            self.lemma_acceptable();
            assert(bits & 0x7fff_ffff == bits % 0x8000_0000) by (bit_vector);
        }
        bits & 0x7fff_ffff <= LIMIT_BITS
    }

    /// Patterns without their sign bit are ordered like the magnitudes they stand for.
    pub proof fn lemma_acceptable(self)
        ensures
            self.acceptable() == (self.bits % 0x8000_0000 <= LIMIT_BITS),
    {
        let e = self.exponent();
        let f = self.fraction();
        let bits: u32 = self.bits;
        assert(bits % 0x8000_0000 == ((bits / 0x80_0000) % 0x100) * 0x80_0000 + bits % 0x80_0000)
            by (bit_vector);
        assert(bits % 0x8000_0000 == e * 0x80_0000 + f);
        // One thousand million is 15_625_000 (a 24-bit significand) times 2 to the power 6.
        lemma_pow2_adds(149, 6);
        lemma2_to64();
        assert(1_000_000_000 * pow2(149) == 15_625_000 * pow2(155));
        lemma_pow2_pos(155);
        if e == 0 {
            assert(f < 0x80_0000 <= 15_625_000 * pow2(155));
        } else if e < 156 {
            let p = pow2((e - 1) as nat);
            lemma_pow2_adds((e - 1) as nat, (156 - e) as nat);
            lemma_pow2_adds(1, (155 - e) as nat);
            let q = pow2((156 - e) as nat);
            lemma_pow2_pos((155 - e) as nat);
            assert(q >= 2);
            assert((0x80_0000 + f) * p <= 15_625_000 * (p * q)) by (nonlinear_arith)
                requires
                    f < 0x80_0000,
                    q >= 2,
            ;
        } else if e == 156 {
            let p = pow2(155);
            assert((0x80_0000 + f <= 15_625_000) == ((0x80_0000 + f) * p <= 15_625_000 * p))
                by (nonlinear_arith)
                requires
                    p > 0,
            ;
        } else if e < 255 {
            let p = pow2(155);
            let q = pow2((e - 156) as nat);
            lemma_pow2_adds(155, (e - 156) as nat);
            lemma_pow2_adds(1, (e - 157) as nat);
            lemma_pow2_pos((e - 157) as nat);
            assert(q >= 2);
            assert((0x80_0000 + f) * (p * q) > 15_625_000 * p) by (nonlinear_arith)
                requires
                    p > 0,
                    q >= 2,
            ;
        }
    }
}

impl PartialEq for Binary32 {
    fn eq(&self, other: &Self) -> (equal: bool) {
        let a: u32 = self.bits;
        let b: u32 = other.bits;
        proof {
            assert((a & 0x7fff_ffff <= 0x7f80_0000) == !((a / 0x80_0000) % 0x100 == 255 && a
                % 0x80_0000 != 0)) by (bit_vector);
            assert((a & 0x7fff_ffff == 0) == ((a / 0x80_0000) % 0x100 == 0 && a % 0x80_0000 == 0))
                by (bit_vector);
            assert((b & 0x7fff_ffff == 0) == ((b / 0x80_0000) % 0x100 == 0 && b % 0x80_0000 == 0))
                by (bit_vector);
        }
        a == b && a & 0x7fff_ffff <= 0x7f80_0000 || a & 0x7fff_ffff == 0 && b & 0x7fff_ffff == 0
    }
}

impl vstd::std_specs::cmp::PartialEqSpecImpl for Binary32 {
    open spec fn obeys_eq_spec() -> bool {
        true
    }

    open spec fn eq_spec(&self, other: &Self) -> bool {
        self.equals(*other)
    }
}

} // verus!
