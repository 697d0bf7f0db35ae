//! Calendar dates, computed with `chrono`.
//!
//! A date is held as its year, month and day. Parsing, adding days and the
//! date of a timestamp are done by `chrono` through the trusted items below;
//! what they return is named, apart from the few facts that `chrono`'s source
//! shows. Comparing and writing dates are stated in full.

use vstd::prelude::*;
use chrono::{Datelike, NaiveDate, NaiveDateTime, TimeDelta};

verus! {

/// A proleptic Gregorian calendar date.
#[derive(Debug, Clone, Copy, PartialEq, Eq, Structural)]
pub struct CivilDate {
    pub year: i32,
    pub month: u32,
    pub day: u32,
}

/// The date as a triple of year, month and day.
pub open spec fn date_triple(d: CivilDate) -> (i32, u32, u32) {
    (d.year, d.month, d.day)
}

/// The date with the given triple of year, month and day.
pub open spec fn triple_date(t: (i32, u32, u32)) -> CivilDate {
    CivilDate { year: t.0, month: t.1, day: t.2 }
}

/// Leap years of the proleptic Gregorian calendar.
pub open spec fn is_leap_year(year: int) -> bool {
    (year % 4 == 0 && year % 100 != 0) || year % 400 == 0
}

/// The number of days of a month.
pub open spec fn days_in_month(year: int, month: int) -> int {
    if month == 2 {
        if is_leap_year(year) {
            29
        } else {
            28
        }
    } else if month == 4 || month == 6 || month == 9 || month == 11 {
        30
    } else {
        31
    }
}

/// The dates that `chrono`'s `NaiveDate` can hold: an existing day of a year
/// between -262143 and 262142.
pub open spec fn valid_date(d: CivilDate) -> bool {
    &&& -262143 <= d.year <= 262142
    &&& 1 <= d.month <= 12
    &&& 1 <= d.day <= days_in_month(d.year as int, d.month as int)
}

/// `a` comes after `b` in the calendar.
pub open spec fn date_later(a: CivilDate, b: CivilDate) -> bool {
    ||| a.year > b.year
    ||| a.year == b.year && a.month > b.month
    ||| a.year == b.year && a.month == b.month && a.day > b.day
}

/// Whether `a` comes after `b` in the calendar (what `>` on `NaiveDate` tells).
pub fn is_later(a: CivilDate, b: CivilDate) -> (r: bool)
    ensures
        r == date_later(a, b),
{
    if a.year != b.year {
        a.year > b.year
    } else if a.month != b.month {
        a.month > b.month
    } else {
        a.day > b.day
    }
}

/// The character of the decimal digit `v`.
pub open spec fn digit_char(v: int) -> char {
    ('0' as int + v) as char
}

/// The decimal digits of `n`, without leading zeros.
pub open spec fn decimal(n: nat) -> Seq<char>
    decreases n,
{
    if n < 10 {
        seq![digit_char(n as int)]
    } else {
        decimal(n / 10).push(digit_char((n % 10) as int))
    }
}

/// `s` with zeros put in front until it is `width` characters long.
pub open spec fn zero_padded(s: Seq<char>, width: nat) -> Seq<char> {
    if s.len() >= width {
        s
    } else {
        Seq::new((width - s.len()) as nat, |i: int| '0') + s
    }
}

/// A number below 100 written with two digits.
pub open spec fn two_digits(v: int) -> Seq<char> {
    seq![digit_char(v / 10), digit_char(v % 10)]
}

/// How `chrono` writes a year for `%Y`: four digits at least, and a sign in
/// front of years outside 0 ..= 9999.
pub open spec fn year_text(year: int) -> Seq<char> {
    if 0 <= year <= 9999 {
        zero_padded(decimal(year as nat), 4)
    } else if year > 9999 {
        seq!['+'] + zero_padded(decimal(year as nat), 4)
    } else {
        seq!['-'] + zero_padded(decimal((-year) as nat), 4)
    }
}

/// The date written with the pattern `%d-%m-%Y`.
pub open spec fn dmy_text(d: CivilDate) -> Seq<char> {
    two_digits(d.day as int) + seq!['-'] + two_digits(d.month as int) + seq!['-'] + year_text(
        d.year as int,
    )
}

/// The date written with the pattern `%Y-%m-%d`.
pub open spec fn ymd_text(d: CivilDate) -> Seq<char> {
    year_text(d.year as int) + seq!['-'] + two_digits(d.month as int) + seq!['-'] + two_digits(
        d.day as int,
    )
}

/// The date that `NaiveDate::parse_from_str(text, "%d-%m-%Y")` of `chrono`
/// reads, as a triple of year, month and day, or `None` where it refuses the text.
pub uninterp spec fn parsed_dmy(text: Seq<char>) -> Option<(i32, u32, u32)>;

/// The date `days` days after the given one, as `NaiveDate::checked_add_signed`
/// of `chrono` computes it, or `None` where the result leaves the range of
/// `NaiveDate`.
pub uninterp spec fn date_plus_days(year: i32, month: u32, day: u32, days: i64) -> Option<
    (i32, u32, u32),
>;

/// The UTC calendar date at `secs` seconds after 1970-01-01 00:00:00 UTC, as
/// `NaiveDateTime::from_timestamp(secs, 0).date()` of `chrono` gives it.
pub uninterp spec fn utc_date_at(secs: i64) -> (i32, u32, u32);

/// The largest number of days, either way, that `TimeDelta::days` accepts
/// without panicking: `days * 86400` seconds must stay within `i64::MAX`
/// milliseconds.
pub open spec fn max_delta_days() -> int {
    106751991167
}

/// `NaiveDate::parse_from_str(text, "%d-%m-%Y")` of `chrono`. Whatever it
/// reads is a date that `NaiveDate` can hold.
#[verifier::external_body]
pub(crate) fn parse_dmy(text: &str) -> (r: Option<CivilDate>)
    ensures
        r is Some <==> parsed_dmy(text@) is Some,
        r matches Some(d) ==> date_triple(d) == parsed_dmy(text@)->0 && valid_date(d),
{
    match NaiveDate::parse_from_str(text, "%d-%m-%Y") {
        Ok(d) => Some(CivilDate { year: d.year(), month: d.month(), day: d.day() }),
        Err(_) => None,
    }
}

/// `NaiveDate::checked_add_signed(TimeDelta::days(days))` of `chrono`. The
/// date that it gives is one that `NaiveDate` can hold.
#[verifier::external_body]
pub(crate) fn add_days(date: CivilDate, days: i64) -> (r: Option<CivilDate>)
    requires
        valid_date(date),
        -max_delta_days() <= days <= max_delta_days(),
    ensures
        r is Some <==> date_plus_days(date.year, date.month, date.day, days) is Some,
        r matches Some(d) ==> date_triple(d) == date_plus_days(
            date.year,
            date.month,
            date.day,
            days,
        )->0 && valid_date(d),
{
    let start = NaiveDate::from_ymd_opt(date.year, date.month, date.day).unwrap();
    match start.checked_add_signed(TimeDelta::days(days)) {
        Some(d) => Some(CivilDate { year: d.year(), month: d.month(), day: d.day() }),
        None => None,
    }
}

/// `NaiveDateTime::from_timestamp(secs, 0).date()` of `chrono`, on a number of
/// seconds that a `u64` count of nanoseconds reaches (it panics only far
/// outside that range). The date is one that `NaiveDate` can hold.
#[verifier::external_body]
#[allow(deprecated)]
pub(crate) fn date_at_timestamp(secs: i64) -> (r: CivilDate)
    requires
        0 <= secs <= 18446744073,
    ensures
        date_triple(r) == utc_date_at(secs),
        valid_date(r),
{
    let d = NaiveDateTime::from_timestamp(secs, 0).date();
    CivilDate { year: d.year(), month: d.month(), day: d.day() }
}

/// `NaiveDate::format("%d-%m-%Y")` of `chrono`, written to a string: the
/// day and the month in two digits, then the year as `%Y` writes it. Parsing
/// the text with the same pattern gives the date back (`%Y` writes a sign in
/// front of a year outside 0 ..= 9999, and the parser reads a signed year of
/// any length).
#[verifier::external_body]
pub(crate) fn format_dmy(date: CivilDate) -> (r: String)
    requires
        valid_date(date),
    ensures
        r@ == dmy_text(date),
        parsed_dmy(r@) == Some(date_triple(date)),
{
    let d = NaiveDate::from_ymd_opt(date.year, date.month, date.day).unwrap();
    d.format("%d-%m-%Y").to_string()
}

/// `NaiveDate::format("%Y-%m-%d")` of `chrono`, written to a string: the year
/// as `%Y` writes it, then the month and the day in two digits.
#[verifier::external_body]
pub(crate) fn format_ymd(date: CivilDate) -> (r: String)
    requires
        valid_date(date),
    ensures
        r@ == ymd_text(date),
{
    let d = NaiveDate::from_ymd_opt(date.year, date.month, date.day).unwrap();
    d.format("%Y-%m-%d").to_string()
}

} // verus!
