//! Points in time, counted in nanoseconds since the Unix epoch.

use vstd::prelude::*;

verus! {

/// Nanoseconds in one second.
pub const NANOS_PER_SECOND: i64 = 1_000_000_000;

/// The text that `chrono` displays for the UTC date-time lying `nanos`
/// nanoseconds after the Unix epoch.
pub uninterp spec fn utc_display_text(nanos: int) -> Seq<char>;

/// The RFC 3339 text that `chrono` writes for the same date-time, with as
/// many digits of the second's fraction as it needs and `Z` for UTC.
pub uninterp spec fn utc_rfc3339_text(nanos: int) -> Seq<char>;

/// An instant: nanoseconds since 1970-01-01 00:00:00 UTC, negative before it.
#[derive(Clone, Copy, Debug, PartialEq, Eq, Structural)]
pub struct Timestamp {
    pub nanos: i64,
}

/// Calls `chrono::DateTime::from_timestamp_nanos` and the `Display` impl of
/// `DateTime<Utc>`.  Trusted: the text depends on `nanos` alone; this
/// library knows it only by the name `utc_display_text`.
#[verifier::external_body]
fn utc_display(nanos: i64) -> (text: String)
    ensures
        text@ == utc_display_text(nanos as int),
{
    chrono::DateTime::from_timestamp_nanos(nanos).to_string()
}

/// Calls `chrono::DateTime::from_timestamp_nanos` and
/// `DateTime::to_rfc3339_opts` with `SecondsFormat::AutoSi` and `Z` for
/// UTC, which is the text that `chrono` gives a date-time in serialised
/// records.  Trusted: the text depends on `nanos` alone; this library
/// knows it only by the name `utc_rfc3339_text`.
#[verifier::external_body]
fn utc_rfc3339(nanos: i64) -> (text: String)
    ensures
        text@ == utc_rfc3339_text(nanos as int),
{
    chrono::DateTime::from_timestamp_nanos(nanos).to_rfc3339_opts(chrono::SecondsFormat::AutoSi, true)
}

/// Calls `chrono::Utc::now` and `DateTime::timestamp_nanos_opt`, giving
/// `i64::MAX` for an instant too late to count.  Trusted: nothing is
/// claimed of the reading.  `Utc::now` stops the program if the system
/// clock stands before 1970.
#[verifier::external_body]
fn clock_nanos() -> i64 {
    chrono::Utc::now().timestamp_nanos_opt().unwrap_or(i64::MAX)
}

impl Timestamp {
    /// Whole seconds since the epoch, rounded towards the past.
    pub open spec fn whole_seconds(self) -> int {
        self.nanos as int / 1_000_000_000
    }

    /// The instant `nanos` nanoseconds after the epoch.
    pub fn from_nanos(nanos: i64) -> (t: Timestamp)
        ensures
            t.nanos == nanos,
    {
        Timestamp { nanos }
    }

    /// Reads the clock.
    pub fn now() -> Timestamp {
        Timestamp { nanos: clock_nanos() }
    }

    /// Whole seconds since the epoch, rounded towards the past.
    pub fn seconds(self) -> (s: i64)
        ensures
            s == self.whole_seconds(),
    {
        if self.nanos >= 0 {
            self.nanos / NANOS_PER_SECOND
        } else {
            let behind: i64 = -(self.nanos + 1);
            -(behind / NANOS_PER_SECOND) - 1
        }
    }

    /// The instant as UTC date and time in RFC 3339 form.
    pub fn rfc3339(self) -> (text: String)
        ensures
            text@ == utc_rfc3339_text(self.nanos as int),
    {
        utc_rfc3339(self.nanos)
    }

    /// The instant as UTC date and time, in the form `chrono` displays.
    pub fn display(self) -> (text: String)
        ensures
            text@ == utc_display_text(self.nanos as int),
    {
        utc_display(self.nanos)
    }
}

} // verus!
