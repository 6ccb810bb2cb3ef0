//! Binary64 values carried through deployment validation by their IEEE 754 bit
//! pattern, with the comparisons the standard defines for them.
//!
//! The order key of a value is its signed magnitude: the bit pattern without the sign
//! bit, negated when the sign bit is set. For every pair of values that are not NaN,
//! IEEE 754 comparison (`<`, `<=`, `==`) agrees with comparison of order keys (both
//! zeros have key zero); every comparison involving NaN is false.
use vstd::prelude::*;

verus! {

/// Sign bit of a binary64 pattern.
pub const SIGN_BIT: u64 = 0x8000_0000_0000_0000;

/// Magnitude pattern of positive infinity; larger magnitudes are NaN.
pub const INFINITY_MAGNITUDE: u64 = 0x7FF0_0000_0000_0000;

/// One binary64 value, by bit pattern.
#[derive(Clone, Copy, Debug, PartialEq, Eq, Structural)]
pub struct Real {
    /// The IEEE 754 binary64 bit pattern (`f64::to_bits`).
    pub bits: u64,
}

impl Real {
    /// Whether the sign bit is set.
    pub open spec fn spec_negative(self) -> bool {
        self.bits >= SIGN_BIT
    }

    /// The pattern without its sign bit.
    pub open spec fn spec_magnitude(self) -> int {
        if self.spec_negative() {
            self.bits - SIGN_BIT
        } else {
            self.bits as int
        }
    }

    /// Neither infinite nor NaN.
    pub open spec fn spec_finite(self) -> bool {
        self.spec_magnitude() < INFINITY_MAGNITUDE
    }

    /// Not a number.
    pub open spec fn spec_nan(self) -> bool {
        self.spec_magnitude() > INFINITY_MAGNITUDE
    }

    /// Signed magnitude, ordered as the values are.
    pub open spec fn spec_key(self) -> int {
        if self.spec_negative() {
            -self.spec_magnitude()
        } else {
            self.spec_magnitude()
        }
    }

    /// The value with the given bit pattern.
    pub fn from_bits(bits: u64) -> (r: Real)
        ensures
            r.bits == bits,
    {
        Real { bits }
    }

    /// Neither infinite nor NaN.
    pub fn is_finite(&self) -> (r: bool)
        ensures
            r == self.spec_finite(),
    {
        let magnitude = if self.bits >= SIGN_BIT { self.bits - SIGN_BIT } else { self.bits };
        magnitude < INFINITY_MAGNITUDE
    }

    /// Signed magnitude.
    pub fn key(&self) -> (k: i64)
        ensures
            k == self.spec_key(),
    {
        if self.bits >= SIGN_BIT {
            -((self.bits - SIGN_BIT) as i64)
        } else {
            self.bits as i64
        }
    }
}

/// IEEE 754 `a < b`.
pub open spec fn real_lt(a: Real, b: Real) -> bool {
    !a.spec_nan() && !b.spec_nan() && a.spec_key() < b.spec_key()
}

/// IEEE 754 `a <= b`.
pub open spec fn real_le(a: Real, b: Real) -> bool {
    !a.spec_nan() && !b.spec_nan() && a.spec_key() <= b.spec_key()
}

/// IEEE 754 `a == b`.
pub open spec fn real_eq(a: Real, b: Real) -> bool {
    !a.spec_nan() && !b.spec_nan() && a.spec_key() == b.spec_key()
}

/// Whether two optional values are both absent or both present and equal.
pub open spec fn opt_real_eq(a: Option<Real>, b: Option<Real>) -> bool {
    match (a, b) {
        (None, None) => true,
        (Some(x), Some(y)) => real_eq(x, y),
        _ => false,
    }
}

/// IEEE 754 `a < b`.
pub fn lt(a: Real, b: Real) -> (r: bool)
    ensures
        r == real_lt(a, b),
{
    let a_nan = !a.is_finite() && (if a.bits >= SIGN_BIT { a.bits - SIGN_BIT } else { a.bits }) > INFINITY_MAGNITUDE;
    let b_nan = !b.is_finite() && (if b.bits >= SIGN_BIT { b.bits - SIGN_BIT } else { b.bits }) > INFINITY_MAGNITUDE;
    !a_nan && !b_nan && a.key() < b.key()
}

/// IEEE 754 `a <= b`.
pub fn le(a: Real, b: Real) -> (r: bool)
    ensures
        r == real_le(a, b),
{
    let a_nan = (if a.bits >= SIGN_BIT { a.bits - SIGN_BIT } else { a.bits }) > INFINITY_MAGNITUDE;
    let b_nan = (if b.bits >= SIGN_BIT { b.bits - SIGN_BIT } else { b.bits }) > INFINITY_MAGNITUDE;
    !a_nan && !b_nan && a.key() <= b.key()
}

/// IEEE 754 `a == b`.
pub fn eq(a: Real, b: Real) -> (r: bool)
    ensures
        r == real_eq(a, b),
{
    let a_nan = (if a.bits >= SIGN_BIT { a.bits - SIGN_BIT } else { a.bits }) > INFINITY_MAGNITUDE;
    let b_nan = (if b.bits >= SIGN_BIT { b.bits - SIGN_BIT } else { b.bits }) > INFINITY_MAGNITUDE;
    !a_nan && !b_nan && a.key() == b.key()
}

/// Equality of optional values.
pub fn opt_eq(a: Option<Real>, b: Option<Real>) -> (r: bool)
    ensures
        r == opt_real_eq(a, b),
{
    match (a, b) {
        (None, None) => true,
        (Some(x), Some(y)) => eq(x, y),
        _ => false,
    }
}

/// `0.0`.
pub open spec fn zero() -> Real {
    Real { bits: 0 }
}

/// `100.0`.
pub open spec fn hundred() -> Real {
    Real { bits: 0x4059_0000_0000_0000 }
}

/// `-100.0`.
pub open spec fn minus_hundred() -> Real {
    Real { bits: 0xC059_0000_0000_0000 }
}

/// The value `0.0`.
pub fn zero_value() -> (r: Real)
    ensures
        r == zero(),
{
    Real { bits: 0 }
}

/// The value `100.0`.
pub fn hundred_value() -> (r: Real)
    ensures
        r == hundred(),
{
    Real { bits: 0x4059_0000_0000_0000 }
}

/// The value `-100.0`.
pub fn minus_hundred_value() -> (r: Real)
    ensures
        r == minus_hundred(),
{
    Real { bits: 0xC059_0000_0000_0000 }
}

} // verus!
