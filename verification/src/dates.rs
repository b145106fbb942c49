//! Calendar dates and timestamps as the ratchet and intent files write
//! them: `YYYY-MM-DD` dates become Julian day numbers and RFC 3339
//! timestamps become UNIX nanoseconds, both parsed by the `time` crate.

use vstd::prelude::*;

use crate::text::{chars_of, string_of, trim, trim_exec};

verus! {

/// The Julian day of an ISO `[year]-[month]-[day]` date, or `None` when
/// `s` is not one, as `time::Date::parse` decides.
pub uninterp spec fn iso_date_day(s: Seq<char>) -> Option<int>;

/// The UNIX time in nanoseconds of an RFC 3339 timestamp, or `None`
/// when `s` is not one, as `time::OffsetDateTime::parse` decides.
pub uninterp spec fn rfc3339_nanos(s: Seq<char>) -> Option<int>;

/// Trusted: parses `s` with `time::Date::parse` against the format
/// description `[year]-[month]-[day]` (built by
/// `time::format_description::parse_borrowed::<1>`, what the format
/// macro builds) and returns `Date::to_julian_day` of the result. The
/// outcome is named `iso_date_day(s@)`: a function of `s` alone.
#[verifier::external_body]
fn julian_day_of(s: &str) -> (r: Option<i32>)
    ensures
        match r {
            Some(d) => iso_date_day(s@) == Some(d as int),
            None => iso_date_day(s@) is None,
        },
{
    match time::format_description::parse_borrowed::<1>("[year]-[month]-[day]") {
        Ok(items) => match time::Date::parse(s, &items) {
            Ok(d) => Some(d.to_julian_day()),
            Err(_) => None,
        },
        Err(_) => None,
    }
}

/// Trusted: parses `s` with `time::OffsetDateTime::parse` against
/// `time::format_description::well_known::Rfc3339` and returns
/// `unix_timestamp_nanos` of the result. The outcome is named
/// `rfc3339_nanos(s@)`: a function of `s` alone.
#[verifier::external_body]
fn unix_nanos_of(s: &str) -> (r: Option<i128>)
    ensures
        match r {
            Some(n) => rfc3339_nanos(s@) == Some(n as int),
            None => rfc3339_nanos(s@) is None,
        },
{
    match time::OffsetDateTime::parse(s, &time::format_description::well_known::Rfc3339) {
        Ok(t) => Some(t.unix_timestamp_nanos()),
        Err(_) => None,
    }
}

/// The Julian day of a date written `YYYY-MM-DD`, surrounding
/// whitespace ignored; `None` when it is no such date.
pub fn parse_iso_date(s: &str) -> (r: Option<i32>)
    ensures
        match r {
            Some(d) => iso_date_day(trim(s@)) == Some(d as int),
            None => iso_date_day(trim(s@)) is None,
        },
{
    let c = chars_of(s);
    let t = string_of(trim_exec(c.as_slice()).as_slice());
    julian_day_of(t.as_str())
}

/// The UNIX nanoseconds of an RFC 3339 timestamp, surrounding
/// whitespace ignored; `None` when it is no such timestamp.
pub fn parse_rfc3339(s: &str) -> (r: Option<i128>)
    ensures
        match r {
            Some(n) => rfc3339_nanos(trim(s@)) == Some(n as int),
            None => rfc3339_nanos(trim(s@)) is None,
        },
{
    let c = chars_of(s);
    let t = string_of(trim_exec(c.as_slice()).as_slice());
    unix_nanos_of(t.as_str())
}

} // verus!
