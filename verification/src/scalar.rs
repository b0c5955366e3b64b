//! Coefficients and energies as the engine stores them.

use vstd::prelude::*;

verus! {

/// The sign bit of an IEEE 754 double-precision bit pattern.
pub const SIGN_BIT: u64 = 0x8000_0000_0000_0000;

/// A double-precision number, carried as its IEEE 754 bit pattern.
///
/// The driver never does arithmetic on coefficients or energies other than
/// changing their sign, so the bit pattern is all it needs: the sign lives in
/// the top bit and the magnitude in the rest.
#[derive(Clone, Copy, Debug, PartialEq, Eq, Structural)]
pub struct Scalar {
    pub bits: u64,
}

impl Scalar {
    /// Positive zero, the value of every cell nothing was written to.
    pub open spec fn spec_zero() -> Scalar {
        Scalar { bits: 0 }
    }

    /// The same magnitude with the opposite sign.
    pub open spec fn spec_negated(self) -> Scalar {
        if self.bits >= SIGN_BIT {
            Scalar { bits: (self.bits - SIGN_BIT) as u64 }
        } else {
            Scalar { bits: (self.bits + SIGN_BIT) as u64 }
        }
    }

    /// The value times the sign factor of the optimisation sense: `+1` when
    /// maximising, `-1` when minimising.
    pub open spec fn spec_oriented(self, find_max: bool) -> Scalar {
        if find_max {
            self
        } else {
            self.spec_negated()
        }
    }

    /// The bit pattern without the sign.
    pub open spec fn magnitude(self) -> int {
        if self.bits >= SIGN_BIT {
            self.bits - SIGN_BIT
        } else {
            self.bits as int
        }
    }

    /// Whether the sign bit is set.
    pub open spec fn is_negative(self) -> bool {
        self.bits >= SIGN_BIT
    }

    /// The number with the given bit pattern.
    pub fn from_bits(bits: u64) -> (s: Scalar)
        ensures
            s.bits == bits,
    {
        Scalar { bits }
    }

    /// The bit pattern of the number.
    pub fn to_bits(self) -> (bits: u64)
        ensures
            bits == self.bits,
    {
        self.bits
    }

    /// Positive zero.
    #[verifier::when_used_as_spec(spec_zero)]
    pub fn zero() -> (s: Scalar)
        ensures
            s == Scalar::spec_zero(),
    {
        Scalar { bits: 0 }
    }

    /// The number times `-1`: the sign bit turned over, the rest untouched.
    #[verifier::when_used_as_spec(spec_negated)]
    pub fn negated(self) -> (s: Scalar)
        ensures
            s == self.spec_negated(),
            s.magnitude() == self.magnitude(),
            s.is_negative() != self.is_negative(),
    {
        if self.bits >= SIGN_BIT {
            Scalar { bits: self.bits - SIGN_BIT }
        } else {
            Scalar { bits: self.bits + SIGN_BIT }
        }
    }

    /// The number times the sign factor of the optimisation sense.
    #[verifier::when_used_as_spec(spec_oriented)]
    pub fn oriented(self, find_max: bool) -> (s: Scalar)
        ensures
            s == self.spec_oriented(find_max),
    {
        if find_max {
            self
        } else {
            self.negated()
        }
    }
}

/// Changing the sign twice gives the value back.
pub proof fn lemma_negated_twice(x: Scalar)
    ensures
        x.negated().negated() == x,
{
}

/// Applying the sign factor of one optimisation sense twice gives the value
/// back: what is flipped on the way into the engine is restored on the way out.
pub proof fn lemma_oriented_twice(x: Scalar, find_max: bool)
    ensures
        x.oriented(find_max).oriented(find_max) == x,
{
}

/// The two optimisation senses differ exactly by the sign.
pub proof fn lemma_oriented_senses(x: Scalar)
    ensures
        x.oriented(true) == x.oriented(false).negated(),
        x.oriented(false) == x.oriented(true).negated(),
{
}

} // verus!
