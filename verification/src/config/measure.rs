//! Measures: single-precision numbers that settings keep within bounds.

use vstd::prelude::*;

verus! {

/// An IEEE 754 single-precision number, by its bit pattern.
#[derive(Clone, Copy, Debug, Eq, PartialEq, Structural)]
pub struct Measure {
    pub bits: u32,
}

/// Bit pattern of 1.
pub const ONE: u32 = 0x3f80_0000;

/// Bit pattern of the number closest to 1.15.
pub const ONE_AND_FIFTEEN_HUNDREDTHS: u32 = 0x3f93_3333;

/// Bit pattern of 1.5.
pub const ONE_AND_A_HALF: u32 = 0x3fc0_0000;

/// Bit pattern of 8.
pub const EIGHT: u32 = 0x4100_0000;

/// Bit pattern of 14.
pub const FOURTEEN: u32 = 0x4160_0000;

/// Bit pattern of 48.
pub const FORTY_EIGHT: u32 = 0x4240_0000;

/// Bit pattern of infinity; what lies above it, apart from the sign, is not a number.
pub const INFINITY: u32 = 0x7f80_0000;

/// The sign bit.
pub const SIGN: u32 = 0x8000_0000;

impl Measure {
    /// Whether the bit pattern stands for no number.
    pub open spec fn not_a_number(self) -> bool {
        if self.bits < SIGN {
            self.bits > INFINITY
        } else {
            self.bits - SIGN > INFINITY
        }
    }

    /// Where a number stands among all numbers: bit patterns order positive numbers as integers
    /// do, the sign mirrors them, and both zeros stand in the middle.
    pub open spec fn rank(self) -> int {
        if self.bits < SIGN {
            self.bits as int
        } else {
            SIGN - self.bits
        }
    }

    /// The number as it is where it lies between the bounds, else the bound that it lies beyond.
    /// What is not a number stays as it is.
    pub open spec fn within(self, low: Measure, high: Measure) -> Measure {
        if self.not_a_number() {
            self
        } else if self.rank() < low.rank() {
            low
        } else if self.rank() > high.rank() {
            high
        } else {
            self
        }
    }

    /// The number as it is where it lies between the bounds, else the bound that it lies beyond.
    pub fn clamp(self, low: Measure, high: Measure) -> (res: Measure)
        requires
            !low.not_a_number(),
            !high.not_a_number(),
            low.rank() <= high.rank(),
        ensures
            res == self.within(low, high),
    {
        let magnitude = if self.bits < SIGN {
            self.bits
        } else {
            self.bits - SIGN
        };
        if magnitude > INFINITY {
            self
        } else if place(self) < place(low) {
            low
        } else if place(self) > place(high) {
            high
        } else {
            self
        }
    }
}

fn place(value: Measure) -> (res: i64)
    ensures
        res == value.rank(),
{
    if value.bits < SIGN {
        value.bits as i64
    } else {
        SIGN as i64 - value.bits as i64
    }
}

/// Clamping keeps a number between the bounds, and clamping again changes nothing.
pub proof fn law_clamped_measure_stays_within(value: Measure, low: Measure, high: Measure)
    requires
        !low.not_a_number(),
        !high.not_a_number(),
        low.rank() <= high.rank(),
    ensures
        !value.not_a_number() ==> low.rank() <= value.within(low, high).rank() <= high.rank(),
        value.within(low, high).within(low, high) == value.within(low, high),
{
}

} // verus!
