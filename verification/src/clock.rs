//! Points in time, to the millisecond.

use chrono::DateTime;
use vstd::prelude::*;

verus! {

/// The first instant of the calendar, in milliseconds: the start of the year -262143.
pub const FIRST_MILLIS: i64 = -8_334_601_228_800_000;

/// The last instant of the calendar, in milliseconds: the end of the year 262142.
pub const LAST_MILLIS: i64 = 8_210_266_876_799_999;

/// A point in time, in milliseconds since the start of 1970, UTC. Times are stored and sent
/// with millisecond precision, so nothing finer is kept.
#[derive(Debug, Clone, Copy, PartialEq, Eq, Structural)]
pub struct Timestamp {
    pub millis: i64,
}

impl Timestamp {
    /// Whether the calendar reaches this point in time.
    pub open spec fn wf(self) -> bool {
        in_calendar(self.millis as int)
    }

    /// Whether the calendar reaches this point in time.
    pub fn is_valid(self) -> (r: bool)
        ensures
            r == self.wf(),
    {
        FIRST_MILLIS <= self.millis && self.millis <= LAST_MILLIS
    }

    /// The point in time `delta` milliseconds later, unless the calendar ends before it.
    pub fn checked_plus(self, delta: i64) -> (r: Option<Timestamp>)
        ensures
            r == (if in_calendar(self.millis + delta) {
                Some(Timestamp { millis: (self.millis + delta) as i64 })
            } else {
                None
            }),
    {
        match self.millis.checked_add(delta) {
            Some(millis) => if FIRST_MILLIS <= millis && millis <= LAST_MILLIS {
                Some(Timestamp { millis })
            } else {
                None
            },
            None => None,
        }
    }

    /// The point in time `delta` milliseconds later.
    pub fn plus(self, delta: i64) -> (r: Timestamp)
        requires
            in_calendar(self.millis + delta),
        ensures
            r.millis == self.millis + delta,
            r.wf(),
    {
        Timestamp { millis: self.millis + delta }
    }
}

/// Whether the calendar reaches the point `millis` milliseconds after the start of 1970.
pub open spec fn in_calendar(millis: int) -> bool {
    FIRST_MILLIS <= millis <= LAST_MILLIS
}

/// What `chrono` writes for a point in time under the format `%Y-%m-%dT%H:%M:%S%.3fZ`: its
/// date and time of day in UTC, such as `2026-01-31T08:05:09.250Z`.
pub uninterp spec fn iso_text(millis: i64) -> Seq<char>;

/// `chrono::DateTime::from_timestamp_millis`, then `format` with
/// `%Y-%m-%dT%H:%M:%S%.3fZ`. The text is a function of the milliseconds alone, and bears the
/// name `iso_text`; how the calendar turns milliseconds into a date is left unsaid. `chrono`
/// has a date for every point of its calendar, so within it the call does not panic.
#[verifier::external_body]
pub(crate) fn format_millis(millis: i64) -> (s: String)
    requires
        in_calendar(millis as int),
    ensures
        s@ == iso_text(millis),
{
    let date = DateTime::from_timestamp_millis(millis).unwrap();
    date.format("%Y-%m-%dT%H:%M:%S%.3fZ").to_string()
}

/// A point in time as it is stored and sent.
pub fn iso(at: Timestamp) -> (s: String)
    requires
        at.wf(),
    ensures
        s@ == iso_text(at.millis),
{
    format_millis(at.millis)
}

/// `iso` of a point in time that may be missing.
pub fn iso_opt(at: Option<Timestamp>) -> (s: Option<String>)
    requires
        at matches Some(t) ==> t.wf(),
    ensures
        s is Some <==> at is Some,
        at matches Some(t) ==> s->0@ == iso_text(t.millis),
{
    match at {
        Some(t) => Some(iso(t)),
        None => None,
    }
}

} // verus!
