//! Calendar dates as plain year/month/day values, and the strict
//! `YYYY-MM-DD` date grammar used for entry keys.

use crate::error::AppError;
use vstd::prelude::*;

verus! {

/// A calendar date in the proleptic Gregorian calendar, years 0 through 9999.
#[derive(Clone, Copy, PartialEq, Eq, Structural, Debug)]
pub struct Date {
    pub year: u32,
    pub month: u32,
    pub day: u32,
}

pub open spec fn spec_is_leap_year(y: int) -> bool {
    (y % 4 == 0 && y % 100 != 0) || y % 400 == 0
}

pub open spec fn spec_days_in_month(y: int, m: int) -> int {
    if m == 2 {
        if spec_is_leap_year(y) {
            29
        } else {
            28
        }
    } else if m == 4 || m == 6 || m == 9 || m == 11 {
        30
    } else {
        31
    }
}

impl Date {
    pub open spec fn valid(self) -> bool {
        &&& self.year <= 9999
        &&& 1 <= self.month <= 12
        &&& 1 <= self.day <= spec_days_in_month(self.year as int, self.month as int)
    }

    /// Chronological order on dates.
    pub open spec fn spec_before(self, other: Date) -> bool {
        ||| self.year < other.year
        ||| (self.year == other.year && self.month < other.month)
        ||| (self.year == other.year && self.month == other.month && self.day < other.day)
    }
}

pub fn is_leap_year(year: u32) -> (r: bool)
    ensures
        r == spec_is_leap_year(year as int),
{
    (year % 4 == 0 && year % 100 != 0) || year % 400 == 0
}

pub fn days_in_month(year: u32, month: u32) -> (r: u32)
    requires
        1 <= month <= 12,
    ensures
        r == spec_days_in_month(year as int, month as int),
{
    if month == 2 {
        if is_leap_year(year) {
            29
        } else {
            28
        }
    } else if month == 4 || month == 6 || month == 9 || month == 11 {
        30
    } else {
        31
    }
}

/// The day before `d`; the earliest representable date is its own predecessor.
pub open spec fn spec_prev_day(d: Date) -> Date {
    if d.day > 1 {
        Date { year: d.year, month: d.month, day: (d.day - 1) as u32 }
    } else if d.month > 1 {
        Date {
            year: d.year,
            month: (d.month - 1) as u32,
            day: spec_days_in_month(d.year as int, d.month - 1) as u32,
        }
    } else if d.year > 0 {
        Date { year: (d.year - 1) as u32, month: 12u32, day: 31u32 }
    } else {
        d
    }
}

/// The day after `d`; the latest representable date is its own successor.
pub open spec fn spec_next_day(d: Date) -> Date {
    if d.day < spec_days_in_month(d.year as int, d.month as int) {
        Date { year: d.year, month: d.month, day: (d.day + 1) as u32 }
    } else if d.month < 12 {
        Date { year: d.year, month: (d.month + 1) as u32, day: 1u32 }
    } else if d.year < 9999 {
        Date { year: (d.year + 1) as u32, month: 1u32, day: 1u32 }
    } else {
        d
    }
}

/// `b` is exactly one day after `a`.
pub open spec fn spec_is_next_day(a: Date, b: Date) -> bool {
    b == spec_next_day(a) && b != a
}

pub fn prev_day(d: Date) -> (r: Date)
    requires
        d.valid(),
    ensures
        r == spec_prev_day(d),
        r.valid(),
{
    if d.day > 1 {
        Date { year: d.year, month: d.month, day: d.day - 1 }
    } else if d.month > 1 {
        Date { year: d.year, month: d.month - 1, day: days_in_month(d.year, d.month - 1) }
    } else if d.year > 0 {
        Date { year: d.year - 1, month: 12, day: 31 }
    } else {
        d
    }
}

pub fn is_next_day(a: Date, b: Date) -> (r: bool)
    requires
        a.valid(),
    ensures
        r == spec_is_next_day(a, b),
{
    let n = if a.day < days_in_month(a.year, a.month) {
        Date { year: a.year, month: a.month, day: a.day + 1 }
    } else if a.month < 12 {
        Date { year: a.year, month: a.month + 1, day: 1 }
    } else if a.year < 9999 {
        Date { year: a.year + 1, month: 1, day: 1 }
    } else {
        a
    };
    n == b && n != a
}

pub fn date_before(a: Date, b: Date) -> (r: bool)
    ensures
        r == a.spec_before(b),
{
    a.year < b.year || (a.year == b.year && (a.month < b.month || (a.month == b.month && a.day
        < b.day)))
}

pub open spec fn spec_is_digit(c: char) -> bool {
    48 <= c as u32 <= 57
}

pub open spec fn spec_digit_val(c: char) -> int {
    c as u32 - 48
}

/// Shape of a date string: exactly `YYYY-MM-DD` with zero-padded fields.
pub open spec fn spec_date_str_shaped(s: Seq<char>) -> bool {
    &&& s.len() == 10
    &&& spec_is_digit(s[0]) && spec_is_digit(s[1]) && spec_is_digit(s[2]) && spec_is_digit(s[3])
    &&& s[4] == '-'
    &&& spec_is_digit(s[5]) && spec_is_digit(s[6])
    &&& s[7] == '-'
    &&& spec_is_digit(s[8]) && spec_is_digit(s[9])
}

pub open spec fn spec_date_of_str(s: Seq<char>) -> Date {
    Date {
        year: (spec_digit_val(s[0]) * 1000 + spec_digit_val(s[1]) * 100 + spec_digit_val(s[2]) * 10
            + spec_digit_val(s[3])) as u32,
        month: (spec_digit_val(s[5]) * 10 + spec_digit_val(s[6])) as u32,
        day: (spec_digit_val(s[8]) * 10 + spec_digit_val(s[9])) as u32,
    }
}

/// A date string parses when it is shaped `YYYY-MM-DD` and names a real
/// calendar day.
pub open spec fn spec_parse_date(s: Seq<char>) -> Option<Date> {
    if spec_date_str_shaped(s) && spec_date_of_str(s).valid() {
        Some(spec_date_of_str(s))
    } else {
        None
    }
}

fn digit_val(c: char) -> (r: Option<u32>)
    ensures
        r is Some <==> spec_is_digit(c),
        r is Some ==> r->0 == spec_digit_val(c) && r->0 <= 9,
{
    let v = c as u32;
    if 48 <= v && v <= 57 {
        Some(v - 48)
    } else {
        None
    }
}

/// Parse a strict `YYYY-MM-DD` date string.
pub fn parse_date(s: &str) -> (r: Option<Date>)
    ensures
        r == spec_parse_date(s@),
{
    if s.unicode_len() != 10 {
        return None;
    }
    let d0 = digit_val(s.get_char(0));
    let d1 = digit_val(s.get_char(1));
    let d2 = digit_val(s.get_char(2));
    let d3 = digit_val(s.get_char(3));
    let d5 = digit_val(s.get_char(5));
    let d6 = digit_val(s.get_char(6));
    let d8 = digit_val(s.get_char(8));
    let d9 = digit_val(s.get_char(9));
    if s.get_char(4) != '-' || s.get_char(7) != '-' {
        return None;
    }
    match (d0, d1, d2, d3, d5, d6, d8, d9) {
        (
            Some(y0),
            Some(y1),
            Some(y2),
            Some(y3),
            Some(m0),
            Some(m1),
            Some(dd0),
            Some(dd1),
        ) => {
            let date = Date {
                year: y0 * 1000 + y1 * 100 + y2 * 10 + y3,
                month: m0 * 10 + m1,
                day: dd0 * 10 + dd1,
            };
            if 1 <= date.month && date.month <= 12 && 1 <= date.day && date.day <= days_in_month(
                date.year,
                date.month,
            ) {
                Some(date)
            } else {
                None
            }
        },
        _ => None,
    }
}

/// Reject a date string that does not name a real `YYYY-MM-DD` day.
pub fn validate_entry_date(value: &str) -> (r: Result<(), AppError>)
    ensures
        r is Ok <==> spec_parse_date(value@) is Some,
        r matches Err(e) ==> e@ == crate::error::ErrorView::InvalidEntryDate(value@),
{
    if parse_date(value).is_some() {
        Ok(())
    } else {
        Err(AppError::InvalidEntryDate(value.to_owned()))
    }
}

/// A month string is exactly `YYYY-MM` with a month between 01 and 12.
pub open spec fn spec_valid_month(s: Seq<char>) -> bool {
    &&& s.len() == 7
    &&& spec_is_digit(s[0]) && spec_is_digit(s[1]) && spec_is_digit(s[2]) && spec_is_digit(s[3])
    &&& s[4] == '-'
    &&& spec_is_digit(s[5]) && spec_is_digit(s[6])
    &&& 1 <= spec_digit_val(s[5]) * 10 + spec_digit_val(s[6]) <= 12
}

/// Check a `YYYY-MM` month string.
pub fn is_valid_month(s: &str) -> (r: bool)
    ensures
        r == spec_valid_month(s@),
{
    if s.unicode_len() != 7 {
        return false;
    }
    let d0 = digit_val(s.get_char(0));
    let d1 = digit_val(s.get_char(1));
    let d2 = digit_val(s.get_char(2));
    let d3 = digit_val(s.get_char(3));
    let d5 = digit_val(s.get_char(5));
    let d6 = digit_val(s.get_char(6));
    if s.get_char(4) != '-' {
        return false;
    }
    match (d0, d1, d2, d3, d5, d6) {
        (Some(_), Some(_), Some(_), Some(_), Some(m0), Some(m1)) => {
            let m = m0 * 10 + m1;
            1 <= m && m <= 12
        },
        _ => false,
    }
}

/// Reject a month string that is not a real `YYYY-MM` month.
pub fn validate_month(value: &str) -> (r: Result<(), AppError>)
    ensures
        r is Ok <==> spec_valid_month(value@),
        r matches Err(e) ==> e@ == crate::error::ErrorView::InvalidEntryDate(value@),
{
    if is_valid_month(value) {
        Ok(())
    } else {
        Err(AppError::InvalidEntryDate(value.to_owned()))
    }
}

} // verus!
