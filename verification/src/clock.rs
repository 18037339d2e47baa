//! The current instant, read once and handed to the engine as plain values.
//!
//! Every decision that depends on time (card expiry) and every stored
//! timestamp goes through the values this module returns, so the
//! deterministic parts of the engine can be verified for every possible
//! reading of the clock.

use vstd::prelude::*;

verus! {

/// A reading of the wall clock: seconds since the Unix epoch together
/// with the calendar year and month of that instant.
#[derive(Clone, Copy, Debug)]
pub struct ClockReading {
    /// Seconds since the Unix epoch.
    pub secs: u64,
    /// Calendar year of the instant.
    pub year: u16,
    /// Calendar month of the instant, 1 to 12.
    pub month: u8,
}

impl ClockReading {
    /// The month is a calendar month.
    pub open spec fn wf(self) -> bool {
        1 <= self.month <= 12
    }
}

/// Relies on `chrono::Utc::now` and the `Datelike` accessors `year` and
/// `month`: the current instant. The result depends on the wall clock,
/// so only the documented range of `month` (1 to 12) is stated.
#[verifier::external_body]
pub fn clock_now() -> (r: ClockReading)
    ensures
        r.wf(),
{
    let now = chrono::Utc::now();
    ClockReading {
        secs: now.timestamp() as u64,
        year: chrono::Datelike::year(&now) as u16,
        month: chrono::Datelike::month(&now) as u8,
    }
}

} // verus!
