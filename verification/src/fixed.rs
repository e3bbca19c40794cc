//! Signed decimal quantities with six fractional digits.
//!
//! Scores, spreads, totals and probabilities are all carried as a count of
//! millionths, so that every derived value is an exact, reproducible integer.
use vstd::prelude::*;

verus! {

/// How many raw units make one whole unit.
pub const SCALE: i64 = 1_000_000;

/// The largest magnitude, in raw units, accepted for a score sample.
pub const SAMPLE_LIMIT: i64 = 1_000_000_000_000;

/// The largest magnitude, in raw units, accepted for a quoted or predicted
/// spread or total when the two are compared.
pub const QUOTE_LIMIT: i64 = 1_000_000_000_000_000;

/// A decimal number stored as a whole count of millionths: the value of
/// `Fixed { raw }` is `raw / 1_000_000`.
#[derive(Clone, Copy, Debug, PartialEq, Eq, PartialOrd, Ord, Hash, Structural)]
pub struct Fixed {
    pub raw: i64,
}

impl View for Fixed {
    type V = int;

    open spec fn view(&self) -> int {
        self.raw as int
    }
}

/// The absolute value of an integer.
pub open spec fn magnitude(x: int) -> int {
    if x < 0 {
        -x
    } else {
        x
    }
}

impl Fixed {
    /// The magnitude of the value is at most `limit` raw units.
    pub open spec fn within(self, limit: int) -> bool {
        -limit <= self.raw <= limit
    }

    /// Wraps a count of millionths.
    pub fn from_raw(raw: i64) -> (value: Fixed)
        ensures
            value.raw == raw,
    {
        Fixed { raw }
    }

    /// The fixed-point form of a whole number.
    pub fn from_int(units: i64) -> (value: Fixed)
        requires
            i64::MIN <= units * SCALE <= i64::MAX,
        ensures
            value.raw == units * SCALE,
    {
        Fixed { raw: units * SCALE }
    }

    /// The count of millionths.
    pub fn to_raw(&self) -> (raw: i64)
        ensures
            raw == self.raw,
    {
        self.raw
    }

    /// Whether the magnitude of the value is at most `limit` raw units.
    pub fn is_within(&self, limit: i64) -> (ok: bool)
        requires
            limit >= 0,
        ensures
            ok == self.within(limit as int),
    {
        -limit <= self.raw && self.raw <= limit
    }
}

} // verus!
