//! Per-second readings, held by their bit pattern.

use vstd::prelude::*;

verus! {

/// Largest magnitude that still denotes a number: the pattern of infinity.
pub const MAGNITUDE_LIMIT: u32 = 0x7F80_0000;

/// Weight of the sign bit in a pattern.
pub const SIGN_BIT: u32 = 0x8000_0000;

/// A single-precision reading, stored as its IEEE 754 bit pattern.
///
/// The library never does arithmetic on a reading; it only ranks readings
/// against each other, and the rank is computed from the pattern alone.
#[derive(Clone, Copy, Debug, PartialEq, Eq, Structural)]
pub struct Rate {
    pub bits: u32,
}

impl Rate {
    /// The pattern without its sign bit.
    pub open spec fn magnitude(self) -> int {
        self.bits as int % 0x8000_0000
    }

    /// Whether the sign bit is set.
    pub open spec fn is_negative(self) -> bool {
        self.bits >= SIGN_BIT
    }

    /// Whether the pattern denotes no number at all.
    pub open spec fn is_nan(self) -> bool {
        self.magnitude() > MAGNITUDE_LIMIT
    }

    /// Position of the reading on the number line, as an integer that grows
    /// with the value the pattern denotes. Both zeros rank 0, and so does a
    /// pattern that denotes no number.
    pub open spec fn rank(self) -> int {
        if self.is_nan() {
            0
        } else if self.is_negative() {
            -self.magnitude()
        } else {
            self.magnitude()
        }
    }

    /// The reading 0.0.
    pub fn zero() -> (r: Rate)
        ensures
            r.bits == 0,
            r.rank() == 0,
    {
        Rate { bits: 0 }
    }

    /// Wraps a bit pattern.
    pub fn from_bits(bits: u32) -> (r: Rate)
        ensures
            r.bits == bits,
    {
        Rate { bits }
    }

    /// The bit pattern of the reading.
    pub fn to_bits(&self) -> (bits: u32)
        ensures
            bits == self.bits,
    {
        self.bits
    }

    /// Computes `rank`.
    pub fn sort_rank(&self) -> (r: i64)
        ensures
            r == self.rank(),
            -(MAGNITUDE_LIMIT as int) <= r <= MAGNITUDE_LIMIT as int,
    {
        let negative = self.bits >= SIGN_BIT;
        let magnitude: u32 = if negative {
            self.bits - SIGN_BIT
        } else {
            self.bits
        };
        if magnitude > MAGNITUDE_LIMIT {
            0
        } else if negative {
            -(magnitude as i64)
        } else {
            magnitude as i64
        }
    }
}

} // verus!
