//! Moments in time, in UTC.
use vstd::prelude::*;

verus! {

/// A moment: seconds since the start of 1970 in UTC, and nanoseconds into the second.
#[derive(Debug, Clone, Copy, PartialEq, Eq, Structural)]
pub struct Moment {
    pub secs: i64,
    pub nanos: u32,
}

impl Moment {
    /// A moment within some 250000 years of 1970, outside leap seconds.
    pub open spec fn valid(self) -> bool {
        -8_000_000_000_000 <= self.secs <= 8_000_000_000_000 && self.nanos < 1_000_000_000
    }

    /// Nanoseconds since the start of 1970.
    pub open spec fn total(self) -> int {
        self.secs * 1_000_000_000 + self.nanos
    }

    /// Can the calendar hold this moment?
    pub fn is_valid(&self) -> (r: bool)
        ensures
            r == self.valid(),
    {
        -8_000_000_000_000 <= self.secs && self.secs <= 8_000_000_000_000 && self.nanos
            < 1_000_000_000
    }
}

/// Whole seconds from one moment to a later one; a fraction is cut off, towards zero
/// also where the second moment is the earlier one.
pub open spec fn seconds_from(then: Moment, now: Moment) -> int {
    let d = now.total() - then.total();
    if d >= 0 {
        d / 1_000_000_000
    } else {
        -((-d) / 1_000_000_000)
    }
}

/// `TimeDelta::num_seconds` of chrono, on the difference of two `DateTime<Utc>`: the
/// whole seconds between the two moments, with a fraction cut off towards zero.
#[verifier::external_body]
pub(crate) fn seconds_between(then: Moment, now: Moment) -> (r: i64)
    requires
        then.valid(),
        now.valid(),
    ensures
        r == seconds_from(then, now),
{
    let then = chrono::DateTime::<chrono::Utc>::from_timestamp(then.secs, then.nanos).unwrap();
    let now = chrono::DateTime::<chrono::Utc>::from_timestamp(now.secs, now.nanos).unwrap();
    (now - then).num_seconds()
}

/// The moment in the notation of RFC 3339, in UTC.
pub uninterp spec fn rfc3339_text(secs: i64, nanos: u32) -> Seq<char>;

/// `DateTime::<Utc>::to_rfc3339` of chrono. Its result is named and not described: it
/// is the RFC 3339 notation of the moment with the offset `+00:00`.
#[verifier::external_body]
pub(crate) fn rfc3339(at: Moment) -> (r: String)
    requires
        at.valid(),
    ensures
        r@ == rfc3339_text(at.secs, at.nanos),
{
    chrono::DateTime::<chrono::Utc>::from_timestamp(at.secs, at.nanos).unwrap().to_rfc3339()
}

/// Month by name, day, year, and time with `AM` or `PM`.
pub const LONG_FORMAT: &'static str = "%B %d, %Y %I:%M %p";

/// Year, month and day in digits, and time up to 24 hours.
pub const SHORT_FORMAT: &'static str = "%Y-%m-%d %H:%M";

/// The moment in UTC as a date format writes it.
pub uninterp spec fn formatted_text(secs: i64, nanos: u32, format: Seq<char>) -> Seq<char>;

/// `DateTime::<Utc>::format` of chrono, written out as text. Its result is named and
/// not described: it is the moment as the format's fields print it, with English
/// names of months. A format with unknown fields could not be written out, so only
/// the two formats of this library are admitted.
#[verifier::external_body]
pub(crate) fn formatted(at: Moment, format: &str) -> (r: String)
    requires
        at.valid(),
        format@ == LONG_FORMAT@ || format@ == SHORT_FORMAT@,
    ensures
        r@ == formatted_text(at.secs, at.nanos, format@),
{
    let at = chrono::DateTime::<chrono::Utc>::from_timestamp(at.secs, at.nanos).unwrap();
    at.format(format).to_string()
}

} // verus!
