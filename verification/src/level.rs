//! Volume levels as they are stored: the bit patterns of IEEE 754 doubles.
//!
//! The library moves levels around, compares them for identity and clamps
//! them; arithmetic on them belongs to whoever draws faders or talks to the
//! sound server.

use vstd::prelude::*;

verus! {

/// The sign bit of a double.
pub const SIGN: u64 = 0x8000_0000_0000_0000;

/// The pattern of positive infinity; larger magnitudes are not numbers.
pub const INFINITY: u64 = 0x7ff0_0000_0000_0000;

/// The pattern of 1.
pub const ONE: u64 = 0x3ff0_0000_0000_0000;

/// The pattern of 100.
pub const HUNDRED: u64 = 0x4059_0000_0000_0000;

/// The pattern of 3/4.
pub const THREE_QUARTERS: u64 = 0x3fe8_0000_0000_0000;

/// A level, given by the bit pattern of a double.
#[derive(Clone, Copy, Debug, PartialEq, Eq, Structural)]
pub struct Level {
    pub bits: u64,
}

impl Level {
    /// Whether the pattern is a number at all.
    pub open spec fn is_number(self) -> bool {
        self.bits % SIGN <= INFINITY
    }

    /// Whether the number is below zero. Negative zero is not.
    pub open spec fn is_negative(self) -> bool {
        self.bits > SIGN
    }

    /// Whether the number is above the positive one with the pattern `limit`.
    /// Positive doubles are ordered as their patterns are.
    pub open spec fn is_above(self, limit: u64) -> bool {
        limit < self.bits < SIGN
    }

    /// Whether the level is a number from zero to the one with pattern `limit`.
    pub open spec fn within(self, limit: u64) -> bool {
        self.is_number() && !self.is_negative() && !self.is_above(limit)
    }

    /// The level, brought into the range from zero to the positive number with
    /// the pattern `limit`. What is not a number stays as it is.
    pub open spec fn clamped(self, limit: u64) -> Level {
        if !self.is_number() {
            self
        } else if self.is_negative() {
            Level { bits: 0 }
        } else if self.is_above(limit) {
            Level { bits: limit }
        } else {
            self
        }
    }

    /// Bring the level into the range from zero to `limit`.
    pub fn clamp_to(self, limit: u64) -> (r: Level)
        requires
            limit <= INFINITY,
        ensures
            r == self.clamped(limit),
            self.is_number() ==> r.within(limit),
    {
        if self.bits % SIGN > INFINITY {
            self
        } else if self.bits > SIGN {
            Level { bits: 0 }
        } else if self.bits > limit && self.bits < SIGN {
            Level { bits: limit }
        } else {
            self
        }
    }

    /// Bring a fader position into the range from zero to one.
    pub fn clamp_unit(self) -> (r: Level)
        ensures
            r == self.clamped(ONE),
    {
        self.clamp_to(ONE)
    }

    /// Bring a percentage into the range from zero to a hundred.
    pub fn clamp_percent(self) -> (r: Level)
        ensures
            r == self.clamped(HUNDRED),
    {
        self.clamp_to(HUNDRED)
    }

    /// The level of silence.
    pub fn zero() -> (r: Level)
        ensures
            r.bits == 0,
    {
        Level { bits: 0 }
    }

    /// The level of unity gain.
    pub fn one() -> (r: Level)
        ensures
            r.bits == ONE,
    {
        Level { bits: ONE }
    }

    /// The level new channels start with.
    pub fn three_quarters() -> (r: Level)
        ensures
            r.bits == THREE_QUARTERS,
    {
        Level { bits: THREE_QUARTERS }
    }
}

/// Clamping twice is clamping once.
pub proof fn clamping_is_idempotent(l: Level, limit: u64)
    requires
        limit <= INFINITY,
    ensures
        l.clamped(limit).clamped(limit) == l.clamped(limit),
{
}

/// What is in range stays as it is, to the bit; what is above comes down to the
/// limit, what is below zero up to zero. What is no number passes through.
pub proof fn clamping_moves_to_the_nearest(l: Level, limit: u64)
    requires
        limit <= 0x7ff0_0000_0000_0000,
    ensures
        l.bits <= limit ==> l.clamped(limit) == l,
        limit < l.bits <= 0x7ff0_0000_0000_0000 ==> l.clamped(limit).bits == limit,
        l.bits == 0x8000_0000_0000_0000 ==> l.clamped(limit) == l,
        0x8000_0000_0000_0000 < l.bits <= 0xfff0_0000_0000_0000 ==> l.clamped(limit).bits == 0,
        0x7ff0_0000_0000_0000 < l.bits < 0x8000_0000_0000_0000 ==> l.clamped(limit) == l,
        0xfff0_0000_0000_0000 < l.bits ==> l.clamped(limit) == l,
{
}

} // verus!
