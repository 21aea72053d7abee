//! Instants in UTC, held as seconds and nanoseconds, and their text forms.

use crate::error::DateError;
use chrono::format::ParseErrorKind;
use chrono::{DateTime, SecondsFormat, Utc};
use std::str::FromStr;
use vstd::prelude::*;

verus! {

/// The text `YYYY-MM-DDTHH:MM:SSZ` that chrono writes for an instant: RFC 3339
/// to the second, with `Z` for UTC, and a year outside 0000 to 9999 with its
/// sign.
pub uninterp spec fn rfc3339_text(at: Instant) -> Seq<char>;

/// What chrono reads from a text as a date and time in UTC: the instant, or
/// the kind of error with which it refuses the text.
pub uninterp spec fn rfc3339_instant(text: Seq<char>) -> Result<Instant, DateError>;

/// Whether chrono reads the instant `at` from `text`.
pub open spec fn reads_as(text: Seq<char>, at: Instant) -> bool {
    rfc3339_instant(text) == Ok::<Instant, DateError>(at)
}

/// The outcome of reading a timestamp, with the instant for the timestamp.
pub open spec fn outcome_view(read: Result<Timestamp, DateError>) -> Result<Instant, DateError> {
    match read {
        Ok(t) => Ok(t@),
        Err(e) => Err(e),
    }
}

/// The text `YYYY-MM-DD HH:MM:SS+0000` that chrono writes for an instant, a
/// year outside 0000 to 9999 with its sign.
pub uninterp spec fn timeclock_text(at: Instant) -> Seq<char>;

/// Seconds from the Unix epoch to the first instant that can be held.
pub const MIN_SECS: i64 = -8_334_601_228_800;

/// Seconds from the Unix epoch to the last whole second that can be held.
pub const MAX_SECS: i64 = 8_210_266_876_799;

/// Nanoseconds in one second.
pub const NANOS_PER_SEC: u32 = 1_000_000_000;

/// The mathematical value of a [`Timestamp`]: whole seconds since
/// 1970-01-01T00:00:00Z, leap seconds not counted, and nanoseconds past that
/// second. A leap second is the second before it with a billion nanoseconds
/// or more.
pub struct Instant {
    pub secs: int,
    pub nanos: int,
}

impl Instant {
    /// The instants that a [`Timestamp`] can hold.
    pub open spec fn in_range(self) -> bool {
        &&& MIN_SECS <= self.secs <= MAX_SECS
        &&& 0 <= self.nanos < 2 * NANOS_PER_SEC
        &&& (self.nanos < NANOS_PER_SEC || self.secs % 60 == 59)
    }

    /// The instants that fall on a second, a leap second included.
    pub open spec fn whole_second(self) -> bool {
        self.nanos == 0 || self.nanos == NANOS_PER_SEC
    }

    /// The second on which this instant falls: what is left of the second is
    /// dropped, and a leap second stays one.
    pub open spec fn to_the_second(self) -> Instant {
        Instant {
            secs: self.secs,
            nanos: if self.nanos < NANOS_PER_SEC {
                0
            } else {
                NANOS_PER_SEC as int
            },
        }
    }

    /// Whether the text written for this instant stands as one field of a
    /// line and gives the second of this instant again: it holds no space
    /// and is read as that second.
    pub open spec fn reads_back(self) -> bool {
        !rfc3339_text(self).contains(' ') && reads_as(rfc3339_text(self), self.to_the_second())
    }

    /// Chronological order, the earlier or equal instant first.
    pub open spec fn not_after(self, other: Instant) -> bool {
        self.secs < other.secs || (self.secs == other.secs && self.nanos <= other.nanos)
    }
}

/// An instant in UTC.
#[derive(Debug, Clone, Copy, PartialEq, Eq, PartialOrd, Ord, Hash)]
pub struct Timestamp {
    secs: i64,
    nanos: u32,
}

impl View for Timestamp {
    type V = Instant;

    closed spec fn view(&self) -> Instant {
        Instant { secs: self.secs as int, nanos: self.nanos as int }
    }
}

impl Timestamp {
    #[verifier::type_invariant]
    spec fn held_in_range(self) -> bool {
        self@.in_range()
    }

    /// The timestamp `nanos` nanoseconds after the second `secs`, where there
    /// is one.
    pub fn new(secs: i64, nanos: u32) -> (made: Option<Timestamp>)
        ensures
            made is Some <==> (Instant { secs: secs as int, nanos: nanos as int }).in_range(),
            made matches Some(t) ==> t@ == (Instant { secs: secs as int, nanos: nanos as int }),
    {
        if secs < MIN_SECS || secs > MAX_SECS || nanos >= 2 * NANOS_PER_SEC {
            return None;
        }
        if nanos >= NANOS_PER_SEC {
            let in_minute: i64 = (secs - MIN_SECS) % 60;
            assert(in_minute == (secs as int) % 60);
            if in_minute != 59 {
                return None;
            }
        }
        Some(Timestamp { secs, nanos })
    }

    /// The text of this instant in RFC 3339, to the second: what is left of a
    /// second is dropped. The text holds no space, and the second of this
    /// instant is read back from it.
    pub fn to_rfc3339(&self) -> (text: String)
        ensures
            text@ == rfc3339_text(self@),
            self@.reads_back(),
    {
        proof {
            use_type_invariant(self);
        }
        write_rfc3339(*self)
    }

    /// The text of this instant as a timeclock file has it.
    pub fn to_timeclock(&self) -> (text: String)
        ensures
            text@ == timeclock_text(self@),
    {
        proof {
            use_type_invariant(self);
        }
        write_timeclock(*self)
    }

    /// Reads a date and time in RFC 3339, as chrono accepts it, and gives the
    /// instant in UTC.
    pub fn from_rfc3339(text: &str) -> (read: Result<Timestamp, DateError>)
        ensures
            outcome_view(read) == rfc3339_instant(text@),
    {
        read_rfc3339(text)
    }

    /// Whole seconds since 1970-01-01T00:00:00Z, leap seconds not counted.
    pub fn secs(&self) -> (secs: i64)
        ensures
            secs == self@.secs,
            self@.in_range(),
    {
        proof {
            use_type_invariant(self);
        }
        self.secs
    }

    /// Nanoseconds past the whole second, a billion or more in a leap second.
    pub fn nanos(&self) -> (nanos: u32)
        ensures
            nanos == self@.nanos,
            self@.in_range(),
    {
        proof {
            use_type_invariant(self);
        }
        self.nanos
    }
}

/// Calls chrono's `DateTime::<Utc>::to_rfc3339_opts` with
/// `SecondsFormat::Secs` and `use_z` set, on the `DateTime` that
/// `DateTime::from_timestamp` makes of the two numbers. Taken on trust: the
/// text is a function of the instant alone; it is made of digits, `-`, `+`,
/// `T`, `:` and `Z`, so it holds no space; and chrono's `FromStr` for
/// `DateTime<Utc>` reads from it the second that was written, a leap second
/// as a leap second, and a year outside 0000 to 9999 by its sign.
#[verifier::external_body]
fn write_rfc3339(t: Timestamp) -> (text: String)
    requires
        t@.in_range(),
    ensures
        text@ == rfc3339_text(t@),
        !text@.contains(' '),
        reads_as(text@, t@.to_the_second()),
{
    let at = DateTime::<Utc>::from_timestamp(t.secs, t.nanos).unwrap();
    at.to_rfc3339_opts(SecondsFormat::Secs, true)
}

/// Calls chrono's `DateTime::<Utc>::format` with `%Y-%m-%d %H:%M:%S%z`, on the
/// `DateTime` that `DateTime::from_timestamp` makes of the two numbers, and
/// collects what it displays. Taken on trust: the text is a function of the
/// instant alone.
#[verifier::external_body]
fn write_timeclock(t: Timestamp) -> (text: String)
    requires
        t@.in_range(),
    ensures
        text@ == timeclock_text(t@),
{
    let at = DateTime::<Utc>::from_timestamp(t.secs, t.nanos).unwrap();
    at.format("%Y-%m-%d %H:%M:%S%z").to_string()
}

/// Calls chrono's `FromStr` for `DateTime<Utc>` and takes the seconds and
/// nanoseconds of what it read with `timestamp` and `timestamp_subsec_nanos`,
/// or the kind of its error with `kind`. Taken on trust: the outcome is a
/// function of the text alone, and an instant that chrono read is one that a
/// `DateTime<Utc>` holds. The last arm takes `BadFormat` and the one kind
/// that chrono hides and never gives.
#[verifier::external_body]
fn read_rfc3339(text: &str) -> (read: Result<Timestamp, DateError>)
    ensures
        outcome_view(read) == rfc3339_instant(text@),
        read matches Ok(t) ==> t@.in_range(),
{
    match DateTime::<Utc>::from_str(text) {
        Ok(at) => Ok(Timestamp { secs: at.timestamp(), nanos: at.timestamp_subsec_nanos() }),
        Err(e) => Err(match e.kind() {
            ParseErrorKind::OutOfRange => DateError::OutOfRange,
            ParseErrorKind::Impossible => DateError::Impossible,
            ParseErrorKind::NotEnough => DateError::NotEnough,
            ParseErrorKind::Invalid => DateError::Invalid,
            ParseErrorKind::TooShort => DateError::TooShort,
            ParseErrorKind::TooLong => DateError::TooLong,
            _ => DateError::BadFormat,
        }),
    }
}

} // verus!
