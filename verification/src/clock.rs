//! Points in time, as whole microseconds since the Unix epoch.
use vstd::prelude::*;

verus! {

/// Microseconds in one second.
pub const MICROS_PER_SECOND: i64 = 1_000_000;

/// Microseconds in one minute.
pub const MICROS_PER_MINUTE: i64 = 60_000_000;

/// Microseconds in one hour.
pub const MICROS_PER_HOUR: i64 = 3_600_000_000;

/// Microseconds in one day.
pub const MICROS_PER_DAY: i64 = 86_400_000_000;

/// An instant on the UTC time line.
#[derive(Clone, Copy, Debug, PartialEq, Eq, PartialOrd, Ord, Hash, Structural)]
pub struct Timestamp {
    /// Microseconds since 1970-01-01T00:00:00Z; negative before it.
    pub micros: i64,
}

impl View for Timestamp {
    type V = int;

    open spec fn view(&self) -> int {
        self.micros as int
    }
}

/// Reads the system clock through `chrono::Utc::now` and converts the
/// reading with `DateTime::timestamp_micros`. Nothing is claimed about the
/// value: it is whatever the clock says. `Utc::now` panics if the system
/// clock is set before the Unix epoch.
#[verifier::external_body]
fn utc_now_micros() -> (micros: i64) {
    chrono::Utc::now().timestamp_micros()
}

impl Timestamp {
    /// The instant `micros` microseconds after the epoch.
    pub fn from_micros(micros: i64) -> (t: Timestamp)
        ensures
            t.micros == micros,
    {
        Timestamp { micros }
    }

    /// The current instant according to the system clock.
    pub fn now() -> Timestamp {
        Timestamp { micros: utc_now_micros() }
    }

    /// The instant `micros` microseconds after this one, or the last
    /// representable instant if that one lies beyond it.
    pub open spec fn spec_later_by(self, micros: int) -> Timestamp {
        if self.micros + micros > i64::MAX {
            Timestamp { micros: i64::MAX }
        } else {
            Timestamp { micros: (self.micros + micros) as i64 }
        }
    }

    /// The instant `micros >= 0` microseconds after this one, or the last
    /// representable instant if that one lies beyond it.
    pub fn later_by(&self, micros: i64) -> (t: Timestamp)
        requires
            micros >= 0,
        ensures
            t == self.spec_later_by(micros as int),
    {
        if self.micros > i64::MAX - micros {
            Timestamp { micros: i64::MAX }
        } else {
            Timestamp { micros: self.micros + micros }
        }
    }
}

} // verus!
