//! Fixed-point decimal arithmetic for inflation and reward rates.
//!
//! A [`Dec`] is a non-negative decimal with [`DEC_PLACES`] fractional digits,
//! backed by an unsigned 128-bit raw integer: the represented value is
//! `raw / SCALE`. Multiplication and division truncate toward zero and are
//! checked: an intermediate result that does not fit the backing integer
//! yields `None`.

use vstd::prelude::*;

verus! {

/// Number of fractional decimal digits of [`Dec`].
pub const DEC_PLACES: u8 = 6;

/// `10 ^ DEC_PLACES`; a [`Dec`] with raw value `SCALE` represents one.
pub const SCALE: u128 = 1_000_000;

/// A non-negative fixed-point decimal with six fractional digits.
#[derive(Clone, Copy, PartialEq, Eq, Structural, Debug)]
pub struct Dec {
    /// The value scaled by [`SCALE`].
    pub raw: u128,
}

impl Dec {
    /// The decimal zero.
    pub fn zero() -> (r: Dec)
        ensures
            r.raw == 0,
    {
        Dec { raw: 0 }
    }

    /// Builds a decimal directly from its scaled raw representation.
    pub fn from_raw(raw: u128) -> (r: Dec)
        ensures
            r.raw == raw,
    {
        Dec { raw }
    }

    /// Converts a whole number to a decimal, if `v * SCALE` fits.
    pub fn checked_from_u128(v: u128) -> (r: Option<Dec>)
        ensures
            v * SCALE <= u128::MAX ==> (r matches Some(d) && d.raw == v * SCALE),
            v * SCALE > u128::MAX ==> r is None,
    {
        match v.checked_mul(SCALE) {
            Some(raw) => Some(Dec { raw }),
            None => None,
        }
    }

    /// Multiplies two decimals, truncating toward zero; `None` when the
    /// intermediate product overflows the backing integer.
    pub fn checked_mul(&self, other: &Dec) -> (r: Option<Dec>)
        ensures
            self.raw * other.raw <= u128::MAX ==> (r matches Some(d) && d.raw == (self.raw
                * other.raw) / (SCALE as int)),
            self.raw * other.raw > u128::MAX ==> r is None,
    {
        match self.raw.checked_mul(other.raw) {
            Some(p) => Some(Dec { raw: p / SCALE }),
            None => None,
        }
    }

    /// Divides one decimal by another, truncating toward zero; `None` when
    /// the divisor is zero or the scaled dividend overflows.
    pub fn checked_div(&self, other: &Dec) -> (r: Option<Dec>)
        ensures
            other.raw != 0 && self.raw * SCALE <= u128::MAX ==> (r matches Some(d) && d.raw == (
            self.raw * SCALE) / (other.raw as int)),
            other.raw == 0 || self.raw * SCALE > u128::MAX ==> r is None,
    {
        if other.raw == 0 {
            return None;
        }
        match self.raw.checked_mul(SCALE) {
            Some(p) => Some(Dec { raw: p / other.raw }),
            None => None,
        }
    }

    /// The whole-number part of the decimal, i.e. the token amount it
    /// denotes, truncating the fraction.
    pub fn to_amount_floor(&self) -> (r: u128)
        ensures
            r == (self.raw as int) / (SCALE as int),
    {
        self.raw / SCALE
    }
}

} // verus!
