//! Calendar questions about an instant, answered for the moderation team's
//! time zone (Asia/Shanghai) by `chrono` and `chrono-tz`.
//!
//! An instant is a count of seconds since the Unix epoch. The calendar
//! arithmetic is left to the two crates; this module names their answers so
//! that the rest of the library can speak about them.
use std::fmt::Write;
use vstd::prelude::*;

verus! {

#[verifier::external_type_specification]
#[verifier::external_body]
pub struct ExParseError(chrono::format::ParseError);

/// The text of the instant `secs` on a Shanghai clock, laid out by the
/// `strftime` pattern `fmt`; `None` where the instant is outside the range
/// of the calendar or the pattern cannot be laid out.
pub uninterp spec fn shanghai_text(secs: int, fmt: Seq<char>) -> Option<Seq<char>>;

/// The hour that a Shanghai clock shows at the instant `secs`.
pub uninterp spec fn shanghai_hour(secs: int) -> Option<int>;

/// The day of the week in Shanghai at the instant `secs`, Monday being 1.
pub uninterp spec fn shanghai_weekday(secs: int) -> Option<int>;

/// The instant at which a Shanghai clock shows `h:m:s` on the calendar day
/// that holds the instant `secs`; `None` where there is no such single
/// instant.
pub uninterp spec fn shanghai_instant_on_day(secs: int, h: int, m: int, s: int) -> Option<int>;

/// The number of the Shanghai calendar day that holds the instant `secs`,
/// counted from the first day of the year 1.
pub uninterp spec fn shanghai_day_number(secs: int) -> Option<int>;

/// The number of the calendar day `year`-`month`-`day`, counted from the
/// first day of the year 1; `None` where there is no such day.
pub uninterp spec fn calendar_day_number(year: int, month: int, day: int) -> Option<int>;

/// The instant that `text` denotes when read as a UTC date and time under
/// the `strftime` pattern `fmt`.
pub uninterp spec fn parsed_utc_seconds(text: Seq<char>, fmt: Seq<char>) -> Option<int>;

/// Lays out the instant `secs` in Shanghai local time.
///
/// Trusted: `chrono::DateTime::from_timestamp`, `with_timezone` for
/// `chrono_tz::Asia::Shanghai` and `format`. The result is a function of the
/// two arguments, which the contract names.
#[verifier::external_body]
pub(crate) fn format_local(secs: i64, fmt: &str) -> (r: Option<String>)
    ensures
        r is Some <==> shanghai_text(secs as int, fmt@) is Some,
        r matches Some(out) ==> shanghai_text(secs as int, fmt@) == Some(out@),
{
    let t = chrono::DateTime::from_timestamp(secs, 0)?.with_timezone(&chrono_tz::Asia::Shanghai);
    let mut out = String::new();
    write!(out, "{}", t.format(fmt)).ok()?;
    Some(out)
}

/// The hour of the day in Shanghai at the instant `secs`.
///
/// Trusted: `chrono::Timelike::hour` on the instant moved to
/// `chrono_tz::Asia::Shanghai`, documented to lie between 0 and 23.
#[verifier::external_body]
pub(crate) fn local_hour(secs: i64) -> (r: Option<u32>)
    ensures
        r is Some <==> shanghai_hour(secs as int) is Some,
        r matches Some(h) ==> h < 24 && shanghai_hour(secs as int) == Some(h as int),
{
    let t = chrono::DateTime::from_timestamp(secs, 0)?.with_timezone(&chrono_tz::Asia::Shanghai);
    Some(chrono::Timelike::hour(&t))
}

/// The day of the week in Shanghai at the instant `secs`, Monday being 1 and
/// Sunday 7.
///
/// Trusted: `chrono::Weekday::number_from_monday` on the weekday of the
/// instant moved to `chrono_tz::Asia::Shanghai`, documented to run from 1
/// to 7.
#[verifier::external_body]
pub(crate) fn local_weekday(secs: i64) -> (r: Option<u32>)
    ensures
        r is Some <==> shanghai_weekday(secs as int) is Some,
        r matches Some(d) ==> 1 <= d <= 7 && shanghai_weekday(secs as int) == Some(d as int),
{
    let t = chrono::DateTime::from_timestamp(secs, 0)?.with_timezone(&chrono_tz::Asia::Shanghai);
    Some(chrono::Datelike::weekday(&t).number_from_monday())
}

/// The instant at which a Shanghai clock shows `h:m:s` on the calendar day
/// that holds `secs`.
///
/// Trusted: the year, month and day that `chrono::Datelike` gives for the
/// instant moved to `chrono_tz::Asia::Shanghai`, then
/// `NaiveDate::from_ymd_opt`, `NaiveDate::and_hms_opt` and
/// `TimeZone::from_local_datetime(..).single()`. The result is a function
/// of the four arguments, which the contract names.
#[verifier::external_body]
pub(crate) fn local_instant_on_day(secs: i64, h: u32, m: u32, s: u32) -> (r: Option<i64>)
    ensures
        r is Some <==> shanghai_instant_on_day(secs as int, h as int, m as int, s as int) is Some,
        r matches Some(t) ==> shanghai_instant_on_day(secs as int, h as int, m as int, s as int)
            == Some(t as int),
{
    let tz = chrono_tz::Asia::Shanghai;
    let t = chrono::DateTime::from_timestamp(secs, 0)?.with_timezone(&tz);
    let (year, month, day) =
        (chrono::Datelike::year(&t), chrono::Datelike::month(&t), chrono::Datelike::day(&t));
    let local = chrono::NaiveDate::from_ymd_opt(year, month, day)?.and_hms_opt(h, m, s)?;
    Some(chrono::TimeZone::from_local_datetime(&tz, &local).single()?.timestamp())
}

/// The number of the Shanghai calendar day that holds the instant `secs`.
///
/// Trusted: `chrono::Datelike::num_days_from_ce` on the instant moved to
/// `chrono_tz::Asia::Shanghai`. The result is a function of the argument,
/// which the contract names.
#[verifier::external_body]
pub(crate) fn local_day_number(secs: i64) -> (r: Option<i32>)
    ensures
        r is Some <==> shanghai_day_number(secs as int) is Some,
        r matches Some(n) ==> shanghai_day_number(secs as int) == Some(n as int),
{
    let t = chrono::DateTime::from_timestamp(secs, 0)?.with_timezone(&chrono_tz::Asia::Shanghai);
    Some(chrono::Datelike::num_days_from_ce(&t))
}

/// The number of the calendar day `year`-`month`-`day`.
///
/// Trusted: `chrono::NaiveDate::from_ymd_opt` and
/// `chrono::Datelike::num_days_from_ce`. The result is a function of the
/// three arguments, which the contract names.
#[verifier::external_body]
pub(crate) fn day_number(year: i32, month: u32, day: u32) -> (r: Option<i32>)
    ensures
        r is Some <==> calendar_day_number(year as int, month as int, day as int) is Some,
        r matches Some(n) ==> calendar_day_number(year as int, month as int, day as int) == Some(
            n as int,
        ),
{
    let date = chrono::NaiveDate::from_ymd_opt(year, month, day)?;
    Some(chrono::Datelike::num_days_from_ce(&date))
}

/// Reads `text` as a UTC date and time under the pattern `fmt`.
///
/// Trusted: `chrono::NaiveDateTime::parse_from_str`, then `and_utc` and
/// `timestamp`. The result is a function of the two arguments, which the
/// contract names; a fraction of a second is cut off.
#[verifier::external_body]
pub(crate) fn parse_utc(text: &str, fmt: &str) -> (r: Result<i64, chrono::format::ParseError>)
    ensures
        r is Ok <==> parsed_utc_seconds(text@, fmt@) is Some,
        r matches Ok(t) ==> parsed_utc_seconds(text@, fmt@) == Some(t as int),
{
    let t = chrono::NaiveDateTime::parse_from_str(text, fmt)?;
    Ok(t.and_utc().timestamp())
}

} // verus!
