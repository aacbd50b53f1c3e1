//! Relevance scores.
//!
//! A score is carried as the bit pattern of an IEEE 754 binary64 number. The
//! library never does arithmetic on it: it only orders scores, and the order
//! is the numeric order of the numbers that the patterns stand for.

use vstd::prelude::*;

verus! {

/// Two to the power 63: the sign bit of a binary64 pattern.
pub const SIGN_BIT: u64 = 0x8000_0000_0000_0000;

/// The magnitude bits of positive infinity. Any larger magnitude is not a number.
pub const INFINITY_MAGNITUDE: u64 = 0x7FF0_0000_0000_0000;

/// The magnitude of a pattern: the pattern without its sign bit.
pub open spec fn magnitude_of(bits: u64) -> int {
    if bits >= SIGN_BIT {
        bits - SIGN_BIT
    } else {
        bits as int
    }
}

/// Whether a pattern stands for a number, that is, is not a NaN.
pub open spec fn is_number(bits: u64) -> bool {
    magnitude_of(bits) <= INFINITY_MAGNITUDE
}

/// The place of a pattern in the numeric order: its magnitude, negated when
/// the sign bit is set. Both zeros have rank 0.
pub open spec fn rank_of(bits: u64) -> int {
    if bits >= SIGN_BIT {
        -magnitude_of(bits)
    } else {
        magnitude_of(bits)
    }
}

/// A relevance score: a binary64 pattern that is not a NaN.
#[derive(Clone, Copy, Debug)]
pub struct Score {
    bits: u64,
}

impl Score {
    /// The invariant of the type: the pattern stands for a number.
    #[verifier::type_invariant]
    pub closed spec fn well_formed(self) -> bool {
        is_number(self.bits)
    }

    /// The pattern that the score was made from.
    pub closed spec fn spec_bits(self) -> u64 {
        self.bits
    }

    /// The place of the score in the numeric order.
    pub open spec fn rank(self) -> int {
        rank_of(self.spec_bits())
    }

    /// Makes a score from a binary64 pattern; `None` exactly for a NaN.
    pub fn from_bits(bits: u64) -> (res: Option<Score>)
        ensures
            res is Some <==> is_number(bits),
            res is Some ==> res->0.spec_bits() == bits,
    {
        let magnitude: u64 = if bits >= SIGN_BIT {
            bits - SIGN_BIT
        } else {
            bits
        };
        if magnitude <= INFINITY_MAGNITUDE {
            Some(Score { bits })
        } else {
            None
        }
    }

    /// The score zero.
    pub fn zero() -> (res: Score)
        ensures
            res.spec_bits() == 0,
            res.rank() == 0,
    {
        Score { bits: 0 }
    }

    /// The binary64 pattern of the score.
    pub fn bits(&self) -> (res: u64)
        ensures
            res == self.spec_bits(),
            is_number(res),
    {
        proof {
            use_type_invariant(self);
        }
        self.bits
    }

    /// Whether `self` is strictly greater than `other`.
    pub fn gt(&self, other: &Score) -> (res: bool)
        ensures
            res == (self.rank() > other.rank()),
    {
        self.order_key() > other.order_key()
    }

    /// Whether `self` is at least `other`.
    pub fn ge(&self, other: &Score) -> (res: bool)
        ensures
            res == (self.rank() >= other.rank()),
    {
        self.order_key() >= other.order_key()
    }

    /// Whether the two scores stand for the same number.
    pub fn same(&self, other: &Score) -> (res: bool)
        ensures
            res == (self.rank() == other.rank()),
    {
        self.order_key() == other.order_key()
    }

    /// The rank as a machine integer.
    fn order_key(&self) -> (key: i64)
        ensures
            key == self.rank(),
    {
        proof {
            use_type_invariant(self);
        }
        if self.bits >= SIGN_BIT {
            let magnitude: u64 = self.bits - SIGN_BIT;
            0i64 - (magnitude as i64)
        } else {
            self.bits as i64
        }
    }
}

} // verus!
