//! Floating point numbers that pass through the library.
//!
//! They are carried as bit patterns. The one thing that is done to them here is
//! to change their sign, which is one bit.
use vstd::prelude::*;

verus! {

/// The bit pattern of an IEEE 754 number, in the width in which it arrived.
#[derive(Clone, Copy, Debug, PartialEq, Eq, Structural)]
pub enum Scalar {
    Single(u32),
    Double(u64),
}

/// The bit pattern with the other sign.
pub open spec fn flip32(bits: u32) -> u32 {
    if bits < 0x8000_0000 {
        (bits + 0x8000_0000) as u32
    } else {
        (bits - 0x8000_0000) as u32
    }
}

/// The bit pattern with the other sign.
pub open spec fn flip64(bits: u64) -> u64 {
    if bits < 0x8000_0000_0000_0000 {
        (bits + 0x8000_0000_0000_0000) as u64
    } else {
        (bits - 0x8000_0000_0000_0000) as u64
    }
}

impl Scalar {
    /// The number with the other sign.
    pub open spec fn negative(self) -> Scalar {
        match self {
            Scalar::Single(bits) => Scalar::Single(flip32(bits)),
            Scalar::Double(bits) => Scalar::Double(flip64(bits)),
        }
    }

    /// Zero.
    pub open spec fn nought() -> Scalar {
        Scalar::Single(0)
    }

    /// Zero.
    pub fn zero() -> (r: Scalar)
        ensures
            r == Scalar::nought(),
    {
        Scalar::Single(0)
    }

    /// The number with the other sign.
    pub fn negated(self) -> (r: Scalar)
        ensures
            r == self.negative(),
    {
        match self {
            Scalar::Single(bits) => {
                if bits < 0x8000_0000 {
                    Scalar::Single(bits + 0x8000_0000)
                } else {
                    Scalar::Single(bits - 0x8000_0000)
                }
            },
            Scalar::Double(bits) => {
                if bits < 0x8000_0000_0000_0000 {
                    Scalar::Double(bits + 0x8000_0000_0000_0000)
                } else {
                    Scalar::Double(bits - 0x8000_0000_0000_0000)
                }
            },
        }
    }
}

/// Changing the sign twice changes nothing.
pub proof fn negation_is_an_involution(x: Scalar)
    ensures
        x.negative().negative() == x,
{
}

/// The number with the other sign is as wide and has the same magnitude: all bits
/// but the topmost one are the same, and that one is not.
pub proof fn negation_changes_the_sign_alone(x: Scalar)
    ensures
        match (x, x.negative()) {
            (Scalar::Single(a), Scalar::Single(b)) => a % 0x8000_0000 == b % 0x8000_0000 && a != b,
            (Scalar::Double(a), Scalar::Double(b)) => a % 0x8000_0000_0000_0000 == b
                % 0x8000_0000_0000_0000 && a != b,
            _ => false,
        },
{
}

/// Zero has no bit set.
pub proof fn zero_has_no_bits()
    ensures
        Scalar::nought() == Scalar::Single(0),
{
}

} // verus!
