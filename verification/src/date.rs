//! Calendar dates for license expiry: strict `YYYY-MM-DD` parsing with
//! calendar validation, and the date-only comparison used for expiry checks.
use vstd::prelude::*;
use vstd::string::StrSliceExecFns;

verus! {

/// A calendar date, year-month-day, proleptic Gregorian.
#[derive(Clone, Copy, PartialEq, Eq, Structural, Debug)]
pub struct Date {
    pub year: u32,
    pub month: u32,
    pub day: u32,
}

pub open spec fn is_leap_year(y: int) -> bool {
    (y % 4 == 0 && y % 100 != 0) || y % 400 == 0
}

pub open spec fn days_in_month(y: int, m: int) -> int {
    if m == 2 {
        if is_leap_year(y) { 29 } else { 28 }
    } else if m == 4 || m == 6 || m == 9 || m == 11 {
        30
    } else {
        31
    }
}

/// A month in range and a day that exists in that month of that year.
pub open spec fn date_valid(d: Date) -> bool {
    &&& 1 <= d.month <= 12
    &&& 1 <= d.day <= days_in_month(d.year as int, d.month as int)
}

/// `a` is strictly after `b` in calendar order.
pub open spec fn date_after(a: Date, b: Date) -> bool {
    ||| a.year > b.year
    ||| (a.year == b.year && a.month > b.month)
    ||| (a.year == b.year && a.month == b.month && a.day > b.day)
}

pub open spec fn is_digit(c: char) -> bool {
    48 <= c as int <= 57
}

pub open spec fn digit_val(c: char) -> int {
    c as int - 48
}

/// The text has exactly the shape `YYYY-MM-DD`, all digits in place.
pub open spec fn date_str_wf(s: Seq<char>) -> bool {
    &&& s.len() == 10
    &&& is_digit(s[0]) && is_digit(s[1]) && is_digit(s[2]) && is_digit(s[3])
    &&& s[4] == '-'
    &&& is_digit(s[5]) && is_digit(s[6])
    &&& s[7] == '-'
    &&& is_digit(s[8]) && is_digit(s[9])
}

/// The date a well-formed `YYYY-MM-DD` text denotes.
pub open spec fn date_of_str(s: Seq<char>) -> Date {
    Date {
        year: (digit_val(s[0]) * 1000 + digit_val(s[1]) * 100 + digit_val(s[2]) * 10 + digit_val(
            s[3],
        )) as u32,
        month: (digit_val(s[5]) * 10 + digit_val(s[6])) as u32,
        day: (digit_val(s[8]) * 10 + digit_val(s[9])) as u32,
    }
}

/// Strict parse of `YYYY-MM-DD`: the shape must match and the date must
/// exist in the calendar.
pub open spec fn parse_date_spec(s: Seq<char>) -> Option<Date> {
    if date_str_wf(s) && date_valid(date_of_str(s)) {
        Some(date_of_str(s))
    } else {
        None
    }
}

fn read_digit(s: &str, i: usize) -> (r: Option<u32>)
    requires
        i < s@.len(),
    ensures
        match r {
            Some(v) => is_digit(s@[i as int]) && v == digit_val(s@[i as int]) && v <= 9,
            None => !is_digit(s@[i as int]),
        },
{
    let c = s.get_char(i);
    let v = c as u32;
    if 48 <= v && v <= 57 {
        Some(v - 48)
    } else {
        None
    }
}

fn is_dash_at(s: &str, i: usize) -> (r: bool)
    requires
        i < s@.len(),
    ensures
        r == (s@[i as int] == '-'),
{
    s.get_char(i) == '-'
}

fn days_in_month_exec(y: u32, m: u32) -> (r: u32)
    ensures
        r == days_in_month(y as int, m as int),
{
    if m == 2 {
        if (y % 4 == 0 && y % 100 != 0) || y % 400 == 0 {
            29
        } else {
            28
        }
    } else if m == 4 || m == 6 || m == 9 || m == 11 {
        30
    } else {
        31
    }
}

/// Parses license expiry text as a calendar date.
pub fn parse_date(s: &str) -> (r: Option<Date>)
    ensures
        r == parse_date_spec(s@),
{
    let n = s.unicode_len();
    if n != 10 {
        return None;
    }
    let d0 = match read_digit(s, 0) { Some(v) => v, None => { return None; } };
    let d1 = match read_digit(s, 1) { Some(v) => v, None => { return None; } };
    let d2 = match read_digit(s, 2) { Some(v) => v, None => { return None; } };
    let d3 = match read_digit(s, 3) { Some(v) => v, None => { return None; } };
    if !is_dash_at(s, 4) {
        return None;
    }
    let d5 = match read_digit(s, 5) { Some(v) => v, None => { return None; } };
    let d6 = match read_digit(s, 6) { Some(v) => v, None => { return None; } };
    if !is_dash_at(s, 7) {
        return None;
    }
    let d8 = match read_digit(s, 8) { Some(v) => v, None => { return None; } };
    let d9 = match read_digit(s, 9) { Some(v) => v, None => { return None; } };
    let year = d0 * 1000 + d1 * 100 + d2 * 10 + d3;
    let month = d5 * 10 + d6;
    let day = d8 * 10 + d9;
    if month < 1 || month > 12 {
        return None;
    }
    if day < 1 || day > days_in_month_exec(year, month) {
        return None;
    }
    Some(Date { year, month, day })
}

/// Decides whether `today` is strictly after `expiry`; the expiry day itself
/// still counts as valid.
pub fn is_past_expiry(today: &Date, expiry: &Date) -> (r: bool)
    ensures
        r == date_after(*today, *expiry),
{
    if today.year != expiry.year {
        today.year > expiry.year
    } else if today.month != expiry.month {
        today.month > expiry.month
    } else {
        today.day > expiry.day
    }
}

} // verus!
