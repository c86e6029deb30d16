//! Civil dates and times, and their place in a named time zone.
//!
//! Texts are read against a pattern by the `chrono` crate and local times
//! are resolved in a zone by `chrono-tz`. This module holds what they find
//! as plain numbers and names each outcome, so that the decoding rules can
//! be stated over them.

use chrono::offset::LocalResult;
use chrono::{Datelike, Offset, TimeZone, Timelike};
use vstd::prelude::*;

verus! {

/// A day of the proleptic Gregorian calendar.
#[derive(Clone, Copy, Debug, PartialEq, Eq, Structural)]
pub struct CivilDate {
    pub year: i32,
    pub month: u32,
    pub day: u32,
}

/// A time of day, with no zone attached.
#[derive(Clone, Copy, Debug, PartialEq, Eq, Structural)]
pub struct CivilTime {
    pub hour: u32,
    pub minute: u32,
    pub second: u32,
    pub nanosecond: u32,
}

/// A day and a time of day, with no zone attached.
#[derive(Clone, Copy, Debug, PartialEq, Eq, Structural)]
pub struct CivilDateTime {
    pub date: CivilDate,
    pub time: CivilTime,
}

/// How a zone places a local time: the offsets from UTC, in seconds, under
/// which the zone shows that time.
#[derive(Clone, Copy, Debug, PartialEq, Eq, Structural)]
pub enum LocalOffset {
    /// No instant shows this local time: it falls in a gap, or is no time
    /// at all.
    Missing,
    /// Exactly one instant shows this local time.
    Single(i32),
    /// Two instants show this local time: it falls in an overlap.
    Ambiguous(i32, i32),
}

/// What `chrono` reads from `text` as a date under the pattern `format`.
pub uninterp spec fn date_of_text(text: Seq<char>, format: Seq<char>) -> Option<CivilDate>;

/// What `chrono` reads from `text` as a time of day under the pattern
/// `format`.
pub uninterp spec fn time_of_text(text: Seq<char>, format: Seq<char>) -> Option<CivilTime>;

/// What `chrono` reads from `text` as a date and time under the pattern
/// `format`.
pub uninterp spec fn datetime_of_text(text: Seq<char>, format: Seq<char>) -> Option<
    CivilDateTime,
>;

/// Whether `chrono-tz` knows a zone by this name.
pub uninterp spec fn zone_is_known(name: Seq<char>) -> bool;

/// How the zone `name` places the local time given by the six numbers.
pub uninterp spec fn offset_in_zone(
    name: Seq<char>,
    year: int,
    month: int,
    day: int,
    hour: int,
    minute: int,
    second: int,
) -> LocalOffset;

/// Calls `chrono::NaiveDate::parse_from_str` and hands back year, month and
/// day of the date it reads. The contract names the outcome.
#[verifier::external_body]
pub(crate) fn read_date(text: &str, format: &str) -> (r: Option<CivilDate>)
    ensures
        r == date_of_text(text@, format@),
{
    match chrono::NaiveDate::parse_from_str(text, format) {
        Ok(d) => Some(CivilDate { year: d.year(), month: d.month(), day: d.day() }),
        Err(_) => None,
    }
}

/// Calls `chrono::NaiveTime::parse_from_str` and hands back the fields of
/// the time it reads. The contract names the outcome.
#[verifier::external_body]
pub(crate) fn read_time(text: &str, format: &str) -> (r: Option<CivilTime>)
    ensures
        r == time_of_text(text@, format@),
{
    match chrono::NaiveTime::parse_from_str(text, format) {
        Ok(t) => Some(CivilTime { hour: t.hour(), minute: t.minute(), second: t.second(), nanosecond: t.nanosecond() }),
        Err(_) => None,
    }
}

/// Calls `chrono::NaiveDateTime::parse_from_str` and hands back the fields
/// of the date and time it reads. The contract names the outcome.
#[verifier::external_body]
pub(crate) fn read_datetime(text: &str, format: &str) -> (r: Option<CivilDateTime>)
    ensures
        r == datetime_of_text(text@, format@),
{
    match chrono::NaiveDateTime::parse_from_str(text, format) {
        Ok(t) => Some(CivilDateTime {
            date: CivilDate { year: t.year(), month: t.month(), day: t.day() },
            time: CivilTime { hour: t.hour(), minute: t.minute(), second: t.second(), nanosecond: t.nanosecond() },
        }),
        Err(_) => None,
    }
}

/// Calls the `FromStr` of `chrono_tz::Tz`, which looks the name up among the
/// zones of the time-zone database that the crate was built with. The
/// contract names the outcome.
#[verifier::external_body]
pub(crate) fn knows_zone(name: &str) -> (r: bool)
    ensures
        r == zone_is_known(name@),
{
    name.parse::<chrono_tz::Tz>().is_ok()
}

/// Looks the zone up as [`knows_zone`] does and calls `with_ymd_and_hms` of
/// `chrono::TimeZone` on it, which finds the instants that the zone shows as
/// the given local time; hands back their offsets from UTC in seconds. The
/// contract names the outcome for a zone that is known.
#[verifier::external_body]
pub(crate) fn resolve_local(
    zone: &str,
    date: CivilDate,
    hour: u32,
    minute: u32,
    second: u32,
) -> (r: LocalOffset)
    requires
        zone_is_known(zone@),
    ensures
        r == offset_in_zone(
            zone@,
            date.year as int,
            date.month as int,
            date.day as int,
            hour as int,
            minute as int,
            second as int,
        ),
{
    let Ok(tz) = zone.parse::<chrono_tz::Tz>() else { return LocalOffset::Missing };
    match tz.with_ymd_and_hms(date.year, date.month, date.day, hour, minute, second) {
        LocalResult::None => LocalOffset::Missing,
        LocalResult::Single(t) => LocalOffset::Single(t.offset().fix().local_minus_utc()),
        LocalResult::Ambiguous(a, b) => LocalOffset::Ambiguous(
            a.offset().fix().local_minus_utc(),
            b.offset().fix().local_minus_utc(),
        ),
    }
}

} // verus!
