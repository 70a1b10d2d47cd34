//! Prices and bid amounts.
//!
//! An amount is a finite, non-negative number in the binary64 interchange
//! format. It is held by its bit pattern: among finite non-negative values the
//! patterns, read as unsigned integers, are ordered exactly as the numbers are,
//! so comparing patterns compares amounts without any rounding.

use vstd::prelude::*;

verus! {

/// The bit pattern of the largest finite binary64 value.
pub const MAX_FINITE_BITS: u64 = 0x7FEF_FFFF_FFFF_FFFF;

/// The bit pattern of negative zero, which stands for the amount zero.
pub const NEGATIVE_ZERO_BITS: u64 = 0x8000_0000_0000_0000;

/// Whether a binary64 bit pattern is that of a finite, non-negative number.
pub open spec fn encodes_amount(bits: u64) -> bool {
    bits <= MAX_FINITE_BITS || bits == NEGATIVE_ZERO_BITS
}

/// The place of a valid pattern in the order of amounts: the pattern itself,
/// with both zeros at place 0.
pub open spec fn rank_of_bits(bits: u64) -> nat {
    if bits == NEGATIVE_ZERO_BITS {
        0
    } else {
        bits as nat
    }
}

/// A finite, non-negative amount of money.
#[derive(Clone, Copy, Debug, PartialEq, Eq, Structural)]
pub struct Amount {
    bits: u64,
}

impl View for Amount {
    type V = nat;

    /// The amount's place in the order of all amounts.
    closed spec fn view(&self) -> nat {
        self.bits as nat
    }
}

impl Amount {
    #[verifier::type_invariant]
    spec fn in_range(self) -> bool {
        self.bits <= MAX_FINITE_BITS
    }

    /// The amount zero.
    pub fn zero() -> (amount: Amount)
        ensures
            amount@ == 0,
    {
        Amount { bits: 0 }
    }

    /// The amount with the given binary64 bit pattern, if the pattern is that
    /// of a finite, non-negative number.
    pub fn from_bits(bits: u64) -> (amount: Option<Amount>)
        ensures
            amount is Some <==> encodes_amount(bits),
            amount matches Some(a) ==> a@ == rank_of_bits(bits),
    {
        if bits <= MAX_FINITE_BITS {
            Some(Amount { bits })
        } else if bits == NEGATIVE_ZERO_BITS {
            Some(Amount { bits: 0 })
        } else {
            None
        }
    }

    /// The binary64 bit pattern of the amount; zero is given as positive zero.
    pub fn bits(&self) -> (bits: u64)
        ensures
            bits == self@,
            bits <= MAX_FINITE_BITS,
    {
        proof {
            use_type_invariant(self);
        }
        self.bits
    }

    /// Whether this amount is strictly greater than `other`.
    pub fn exceeds(&self, other: &Amount) -> (higher: bool)
        ensures
            higher == (self@ > other@),
    {
        self.bits > other.bits
    }
}

} // verus!
