//! Exact decimal numbers.
//!
//! The store keeps ratings and coordinates as 64-bit floating point, which
//! the verified core cannot reason about. A `FixedDecimal` carries the same
//! information exactly: the number `mantissa * 10^(-scale)`. The boundary
//! code converts between `f64` and `FixedDecimal` when talking to the store
//! or to the external search API.

use vstd::prelude::*;

verus! {

/// The number `mantissa * 10^(-scale)`, e.g. `4.5` is `{ mantissa: 45, scale: 1 }`.
#[derive(Clone, Copy, Debug, PartialEq, Eq, Hash, Structural)]
pub struct FixedDecimal {
    pub mantissa: i64,
    pub scale: u32,
}

impl FixedDecimal {
    /// A whole number, written with no fractional digits.
    pub fn from_int(i: i64) -> (r: FixedDecimal)
        ensures
            r == (FixedDecimal { mantissa: i, scale: 0 }),
    {
        FixedDecimal { mantissa: i, scale: 0 }
    }

    /// True of decimals written with no fractional digits.
    pub open spec fn is_integer(self) -> bool {
        self.scale == 0
    }

    /// The integer value of a decimal with no fractional digits.
    pub open spec fn int_value(self) -> int {
        self.mantissa as int
    }

    /// Integer part of the decimal, available when it is written as an integer.
    pub fn as_integer(&self) -> (r: Option<i64>)
        ensures
            self.is_integer() ==> r == Some(self.mantissa),
            !self.is_integer() ==> r is None,
    {
        if self.scale == 0 {
            Some(self.mantissa)
        } else {
            None
        }
    }
}

} // verus!
