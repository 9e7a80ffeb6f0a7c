//! Commit times, and the two things only the calendar library can do with
//! them: read the clock, and name the day a time falls on.

use vstd::prelude::*;

verus! {

/// A point in time: whole seconds since 1970-01-01 00:00:00 UTC, not
/// counting leap seconds, and the nanoseconds since that second began.
#[derive(Debug, Clone, Copy, PartialEq, Eq, Structural)]
pub struct Timestamp {
    pub secs: i64,
    pub nanos: u32,
}

/// The day on which the time `(secs, nanos)` falls in UTC, written as year,
/// month and day (`%Y-%m-%d`), or `None` where the calendar library cannot
/// represent that time.
pub uninterp spec fn date_text(secs: int, nanos: int) -> Option<Seq<char>>;

/// Reads the system clock through `chrono::Utc::now`.
///
/// Trusted. Nothing is claimed of the time that comes back: two calls may
/// return anything. `chrono` panics here if the system clock stands before
/// 1970.
#[verifier::external_body]
pub(crate) fn now() -> (at: Timestamp) {
    let t = chrono::Utc::now();
    Timestamp { secs: t.timestamp(), nanos: t.timestamp_subsec_nanos() }
}

/// Renders the day of a time through `chrono::DateTime::from_timestamp` and
/// `chrono::DateTime::format` with the pattern `%Y-%m-%d`.
///
/// Trusted. The claim is only that the outcome is a function of the two
/// arguments, which `date_text` names: `None` exactly where
/// `from_timestamp` finds the seconds out of range or the nanoseconds
/// invalid, and otherwise the formatted day.
#[verifier::external_body]
pub(crate) fn render_date(secs: i64, nanos: u32) -> (day: Option<String>)
    ensures
        match day {
            Some(text) => date_text(secs as int, nanos as int) == Some(text@),
            None => date_text(secs as int, nanos as int).is_none(),
        },
{
    match chrono::DateTime::from_timestamp(secs, nanos) {
        Some(t) => Some(t.format("%Y-%m-%d").to_string()),
        None => None,
    }
}

impl Timestamp {
    /// The day on which this time falls in UTC, or `None` where it has none.
    pub open spec fn day_text(self) -> Option<Seq<char>> {
        date_text(self.secs as int, self.nanos as int)
    }
}

} // verus!
