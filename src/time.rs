//! Instants in UTC and their RFC 3339 text.

use chrono::{DateTime, Utc};
use std::time::{SystemTime, UNIX_EPOCH};
use vstd::prelude::*;

verus! {

/// A text that could not be read as an RFC 3339 instant.
#[derive(Debug, PartialEq, Eq)]
pub struct FailToParse(pub String);

/// An instant outside the range that can be written.
#[derive(Debug, PartialEq, Eq)]
pub struct TimeOutOrRange(pub String);

/// An instant: whole seconds since 1970-01-01T00:00:00Z and the nanoseconds
/// past that second (more than 999,999,999 only within a leap second).
#[derive(Debug, Clone, Copy, PartialEq, Eq, Structural)]
pub struct TimeRfc3339 {
    pub secs: i64,
    pub nanos: u32,
}

/// `a` comes strictly before `b`.
pub open spec fn instant_before(a: TimeRfc3339, b: TimeRfc3339) -> bool {
    a.secs < b.secs || (a.secs == b.secs && a.nanos < b.nanos)
}

/// 0000-01-01T00:00:00Z, in seconds since 1970-01-01T00:00:00Z.
pub const RFC3339_FIRST_SECS: i64 = -62_167_219_200;

/// 9999-12-31T23:59:59Z, in seconds since 1970-01-01T00:00:00Z.
pub const RFC3339_LAST_SECS: i64 = 253_402_300_799;

/// The instant falls in the years 0000 to 9999, off any leap second: the range
/// in which the RFC 3339 text has a four-digit year and reads back exactly.
pub open spec fn in_rfc3339_range(secs: i64, nanos: u32) -> bool {
    RFC3339_FIRST_SECS <= secs <= RFC3339_LAST_SECS && nanos < 1_000_000_000
}

/// The instant that an RFC 3339 text denotes, as seconds and nanoseconds in
/// UTC, or `None` where the text is no RFC 3339 instant.
pub uninterp spec fn rfc3339_instant_of(s: Seq<char>) -> Option<(i64, u32)>;

/// The RFC 3339 text of an instant, or `None` where it cannot be represented.
pub uninterp spec fn rfc3339_text_of(secs: i64, nanos: u32) -> Option<Seq<char>>;

/// The instant `secs` seconds after `t`, where the seconds fit.
pub open spec fn plus_secs(t: TimeRfc3339, secs: int) -> Option<TimeRfc3339> {
    if i64::MIN <= t.secs + secs <= i64::MAX {
        Some(TimeRfc3339 { secs: (t.secs + secs) as i64, nanos: t.nanos })
    } else {
        None
    }
}

/// The RFC 3339 text of the instant `secs` seconds after `t`.
pub open spec fn plus_secs_text(t: TimeRfc3339, secs: int) -> Option<Seq<char>> {
    match plus_secs(t, secs) {
        Some(u) => rfc3339_text_of(u.secs, u.nanos),
        None => None,
    }
}

/// The instant `secs` seconds after `t` exists and lies in the years 0000 to 9999.
pub open spec fn plus_secs_in_range(t: TimeRfc3339, secs: int) -> bool {
    match plus_secs(t, secs) {
        Some(u) => in_rfc3339_range(u.secs, u.nanos),
        None => false,
    }
}

/// `text` reads back as the instant `secs` seconds after `t`, where that
/// instant lies in the years 0000 to 9999.
pub open spec fn reads_back_as_plus(text: Seq<char>, t: TimeRfc3339, secs: int) -> bool {
    match plus_secs(t, secs) {
        Some(u) => in_rfc3339_range(u.secs, u.nanos) ==> rfc3339_instant_of(text) == Some((u.secs, u.nanos)),
        None => true,
    }
}

/// Relies on `chrono::DateTime::parse_from_rfc3339`, read in UTC through
/// `timestamp` and `timestamp_subsec_nanos`; the result depends on the text alone.
#[verifier::external_body]
fn rfc3339_parse(s: &str) -> (r: Option<(i64, u32)>)
    ensures
        r == rfc3339_instant_of(s@),
{
    DateTime::parse_from_rfc3339(s).ok().map(|d| (d.timestamp(), d.timestamp_subsec_nanos()))
}

/// Relies on `chrono::DateTime::<Utc>::from_timestamp` and `to_rfc3339`: a
/// date and time such as `1996-12-19T16:39:57+00:00`, which depends on the
/// instant alone. `from_timestamp` accepts every instant of the years 0000 to
/// 9999; there `to_rfc3339` writes a four-digit year and every non-zero
/// fraction of the second in full (3, 6 or 9 digits), which
/// `parse_from_rfc3339` reads back to the same instant.
#[verifier::external_body]
fn rfc3339_format(secs: i64, nanos: u32) -> (r: Option<String>)
    ensures
        r matches Some(t) ==> rfc3339_text_of(secs, nanos) == Some(t@) && t@.len() > 0,
        r is None ==> rfc3339_text_of(secs, nanos) is None && !in_rfc3339_range(secs, nanos),
        r matches Some(t) ==> (in_rfc3339_range(secs, nanos) ==> rfc3339_instant_of(t@) == Some((secs, nanos))),
{
    DateTime::<Utc>::from_timestamp(secs, nanos).map(|d| d.to_rfc3339())
}

/// Relies on `SystemTime::duration_since` applied to `SystemTime::now()`: the
/// time elapsed since 1970-01-01T00:00:00Z as whole seconds and the
/// nanoseconds past them (below one billion), or `None` where the clock reads
/// earlier than that.
#[verifier::external_body]
fn system_clock_since_epoch() -> (r: Option<(u64, u32)>)
    ensures
        r matches Some((_, nanos)) ==> nanos < 1_000_000_000,
{
    SystemTime::now().duration_since(UNIX_EPOCH).ok().map(|d| (d.as_secs(), d.subsec_nanos()))
}

/// The message of an error on an unusable clock reading.
pub(crate) fn clock_out_of_range() -> String {
    "system clock reading out of the representable range".to_owned()
}

impl TimeRfc3339 {
    /// The current instant, from the system clock; `None` where the clock
    /// reads a time before 1970 or after the year 9999.
    pub fn now_utc() -> (r: Option<TimeRfc3339>)
        ensures
            r matches Some(t) ==> t.secs >= 0 && in_rfc3339_range(t.secs, t.nanos),
    {
        match system_clock_since_epoch() {
            Some((secs, nanos)) => {
                if secs > RFC3339_LAST_SECS as u64 {
                    None
                } else {
                    Some(TimeRfc3339 { secs: secs as i64, nanos })
                }
            },
            None => None,
        }
    }

    /// Reads an RFC 3339 text (any offset) as an instant in UTC.
    pub fn parse_utc(moment: &str) -> (r: Result<TimeRfc3339, FailToParse>)
        ensures
            match rfc3339_instant_of(moment@) {
                Some((secs, nanos)) => r == Ok::<TimeRfc3339, FailToParse>(TimeRfc3339 { secs, nanos }),
                None => r matches Err(FailToParse(m)) && m@ == moment@,
            },
    {
        match rfc3339_parse(moment) {
            Some((secs, nanos)) => Ok(TimeRfc3339 { secs, nanos }),
            None => Err(FailToParse(moment.to_owned())),
        }
    }

    /// Same as `parse_utc`.
    pub fn try_from(value: &str) -> (r: Result<TimeRfc3339, FailToParse>)
        ensures
            match rfc3339_instant_of(value@) {
                Some((secs, nanos)) => r == Ok::<TimeRfc3339, FailToParse>(TimeRfc3339 { secs, nanos }),
                None => r matches Err(FailToParse(m)) && m@ == value@,
            },
    {
        Self::parse_utc(value)
    }

    /// The RFC 3339 text of this instant.
    pub fn format_time(&self) -> (r: Result<String, TimeOutOrRange>)
        ensures
            match rfc3339_text_of(self.secs, self.nanos) {
                Some(t) => r matches Ok(s) && s@ == t,
                None => r is Err,
            },
            r matches Ok(s) ==> s@.len() > 0,
            in_rfc3339_range(self.secs, self.nanos) ==> (r matches Ok(s) && rfc3339_instant_of(s@) == Some(
                (self.secs, self.nanos),
            )),
    {
        match rfc3339_format(self.secs, self.nanos) {
            Some(t) => Ok(t),
            None => Err(TimeOutOrRange("instant out of the representable range".to_owned())),
        }
    }

    /// The instant `secs` seconds later, where the seconds fit.
    pub fn checked_add_secs(&self, secs: i64) -> (r: Option<TimeRfc3339>)
        ensures
            r == plus_secs(*self, secs as int),
    {
        match self.secs.checked_add(secs) {
            Some(s) => Some(TimeRfc3339 { secs: s, nanos: self.nanos }),
            None => None,
        }
    }

    /// Whether this instant comes strictly before `other`.
    pub fn is_before(&self, other: &TimeRfc3339) -> (r: bool)
        ensures
            r == instant_before(*self, *other),
    {
        self.secs < other.secs || (self.secs == other.secs && self.nanos < other.nanos)
    }

    /// The RFC 3339 text of the instant `secs` seconds after this one.
    pub fn plus_sec_str(&self, secs: i64) -> (r: Result<String, TimeOutOrRange>)
        ensures
            match plus_secs_text(*self, secs as int) {
                Some(t) => r matches Ok(s) && s@ == t,
                None => r is Err,
            },
            r matches Ok(s) ==> reads_back_as_plus(s@, *self, secs as int) && s@.len() > 0,
            plus_secs_in_range(*self, secs as int) ==> r is Ok,
    {
        match self.checked_add_secs(secs) {
            Some(t) => t.format_time(),
            None => Err(TimeOutOrRange("instant out of the representable range".to_owned())),
        }
    }

    /// The RFC 3339 text of the instant `secs` seconds from now; an error
    /// where the clock cannot be read or the sum cannot be written.
    pub fn now_utc_plus_sec_str(secs: i64) -> (r: Result<String, TimeOutOrRange>)
        ensures
            r is Ok ==> exists|now: TimeRfc3339|
                now.secs >= 0 && in_rfc3339_range(now.secs, now.nanos) && #[trigger] plus_secs_text(now, secs as int)
                    == Some(r->Ok_0@),
    {
        match Self::now_utc() {
            Some(now) => now.plus_sec_str(secs),
            None => Err(TimeOutOrRange(clock_out_of_range())),
        }
    }
}

} // verus!
