//! The host's wall clock as a log writes it.
//!
//! The host reports its clock as `YYYY-MM-DD_HH-MM-SS-F`, where `F` is one
//! or more digits of the fraction of a second. A reading is counted in
//! milliseconds since the start of 1970 on that same wall clock; digits of
//! the fraction beyond the third are dropped.

use crate::text::{chars_of, digit_value};
use vstd::prelude::*;

verus! {

/// The value of the digit at position `i` of `s`, if there is a digit there.
pub open spec fn digit_at(s: Seq<char>, i: int) -> Option<nat> {
    if 0 <= i < s.len() {
        digit_value(s[i])
    } else {
        None
    }
}

/// The number written by the two digits at positions `at` and `at + 1`.
pub open spec fn two_digits(s: Seq<char>, at: int) -> Option<int> {
    match (digit_at(s, at), digit_at(s, at + 1)) {
        (Some(tens), Some(units)) => Some((tens * 10 + units) as int),
        _ => None,
    }
}

/// The value of the digit at position `i`, or zero past the end of `s`.
pub open spec fn digit_or_zero(s: Seq<char>, i: int) -> int {
    match digit_at(s, i) {
        Some(d) => d as int,
        None => 0,
    }
}

pub open spec fn is_leap_year(year: int) -> bool {
    year % 4 == 0 && (year % 100 != 0 || year % 400 == 0)
}

pub open spec fn days_in_month(year: int, month: int) -> int {
    if month == 2 {
        if is_leap_year(year) {
            29
        } else {
            28
        }
    } else if month == 4 || month == 6 || month == 9 || month == 11 {
        30
    } else {
        31
    }
}

/// The days of `year` that lie before the first of `month`.
pub open spec fn days_before_month(year: int, month: int) -> int
    decreases month,
{
    if month <= 1 {
        0
    } else {
        days_before_month(year, month - 1) + days_in_month(year, month - 1)
    }
}

/// The leap years from year 1 up to, but not including, `year`.
pub open spec fn leap_years_before(year: int) -> int {
    (year - 1) / 4 - (year - 1) / 100 + (year - 1) / 400
}

/// The days from the first of January 1970 to the first of January of
/// `year`; negative for an earlier year.
pub open spec fn days_before_year(year: int) -> int {
    365 * (year - 1970) + leap_years_before(year) - leap_years_before(1970)
}

/// Whether the six separators of a clock reading stand where they belong.
pub open spec fn separators_in_place(s: Seq<char>) -> bool {
    &&& s.len() >= 21
    &&& s[4] == '-'
    &&& s[7] == '-'
    &&& s[10] == '_'
    &&& s[13] == '-'
    &&& s[16] == '-'
    &&& s[19] == '-'
}

/// Whether everything from position `from` on is a digit.
pub open spec fn digits_from(s: Seq<char>, from: int) -> bool {
    forall|i: int| from <= i < s.len() ==> (#[trigger] digit_at(s, i)) is Some
}

/// The calendar fields of a clock reading.
pub struct ClockFields {
    pub year: int,
    pub month: int,
    pub day: int,
    pub hour: int,
    pub minute: int,
    pub second: int,
    pub millis: int,
}

/// The fields that a clock reading writes, if it is laid out as one.
pub open spec fn clock_fields(s: Seq<char>) -> Option<ClockFields> {
    if !separators_in_place(s) || !digits_from(s, 20) {
        None
    } else {
        match (
            two_digits(s, 0),
            two_digits(s, 2),
            two_digits(s, 5),
            two_digits(s, 8),
            two_digits(s, 11),
            two_digits(s, 14),
            two_digits(s, 17),
        ) {
            (
                Some(century),
                Some(years),
                Some(month),
                Some(day),
                Some(hour),
                Some(minute),
                Some(second),
            ) => Some(
                ClockFields {
                    year: century * 100 + years,
                    month,
                    day,
                    hour,
                    minute,
                    second,
                    millis: digit_or_zero(s, 20) * 100 + digit_or_zero(s, 21) * 10 + digit_or_zero(
                        s,
                        22,
                    ),
                },
            ),
            _ => None,
        }
    }
}

/// Whether the fields name a moment of the calendar.
pub open spec fn fields_in_range(f: ClockFields) -> bool {
    &&& 1 <= f.year
    &&& 1 <= f.month <= 12
    &&& 1 <= f.day <= days_in_month(f.year, f.month)
    &&& f.hour <= 23
    &&& f.minute <= 59
    &&& f.second <= 59
}

/// The milliseconds from the start of 1970 to the moment the fields name.
pub open spec fn fields_millis(f: ClockFields) -> int {
    let days = days_before_year(f.year) + days_before_month(f.year, f.month) + (f.day - 1);
    (((days * 24 + f.hour) * 60 + f.minute) * 60 + f.second) * 1000 + f.millis
}

/// The host time that a clock reading writes, in milliseconds, if the text
/// is a clock reading of a moment of the calendar.
pub open spec fn host_millis(s: Seq<char>) -> Option<i64> {
    match clock_fields(s) {
        Some(f) => if fields_in_range(f) {
            Some(fields_millis(f) as i64)
        } else {
            None
        },
        None => None,
    }
}

fn digit_number(c: char) -> (d: Option<i64>)
    ensures
        match d {
            Some(v) => digit_value(c) == Some(v as nat) && 0 <= v < 10,
            None => digit_value(c) is None,
        },
{
    if c == '0' {
        Some(0i64)
    } else if c == '1' {
        Some(1i64)
    } else if c == '2' {
        Some(2i64)
    } else if c == '3' {
        Some(3i64)
    } else if c == '4' {
        Some(4i64)
    } else if c == '5' {
        Some(5i64)
    } else if c == '6' {
        Some(6i64)
    } else if c == '7' {
        Some(7i64)
    } else if c == '8' {
        Some(8i64)
    } else if c == '9' {
        Some(9i64)
    } else {
        None
    }
}

fn read_two(chars: &Vec<char>, at: usize) -> (r: Option<i64>)
    requires
        at + 1 < chars.len(),
    ensures
        match r {
            Some(v) => two_digits(chars@, at as int) == Some(v as int) && 0 <= v < 100,
            None => two_digits(chars@, at as int) is None,
        },
{
    match (digit_number(chars[at]), digit_number(chars[at + 1])) {
        (Some(tens), Some(units)) => Some(tens * 10 + units),
        _ => None,
    }
}

fn read_digit_or_zero(chars: &Vec<char>, at: usize) -> (v: i64)
    ensures
        v == digit_or_zero(chars@, at as int),
        0 <= v < 10,
{
    if at < chars.len() {
        match digit_number(chars[at]) {
            Some(d) => d,
            None => 0,
        }
    } else {
        0
    }
}

fn leap_year(year: i64) -> (b: bool)
    requires
        1 <= year <= 9999,
    ensures
        b == is_leap_year(year as int),
{
    year % 4 == 0 && (year % 100 != 0 || year % 400 == 0)
}

fn month_length(year: i64, month: i64) -> (n: i64)
    requires
        1 <= year <= 9999,
    ensures
        n == days_in_month(year as int, month as int),
        28 <= n <= 31,
{
    if month == 2 {
        if leap_year(year) {
            29
        } else {
            28
        }
    } else if month == 4 || month == 6 || month == 9 || month == 11 {
        30
    } else {
        31
    }
}

fn month_offset(year: i64, month: i64) -> (n: i64)
    requires
        1 <= year <= 9999,
        1 <= month <= 12,
    ensures
        n == days_before_month(year as int, month as int),
        0 <= n <= 341,
{
    let mut total: i64 = 0;
    let mut m: i64 = 1;
    while m < month
        invariant
            1 <= year <= 9999,
            1 <= m <= month <= 12,
            total == days_before_month(year as int, m as int),
            0 <= total <= 31 * (m - 1),
        decreases month - m,
    {
        total = total + month_length(year, m);
        m = m + 1;
    }
    total
}

/// Reads the host's wall clock from the text of a clock reading.
pub fn parse_host_clock(text: &str) -> (r: Option<i64>)
    ensures
        r == host_millis(text@),
{
    let chars: Vec<char> = chars_of(text);
    let n: usize = chars.len();
    if n < 21 {
        return None;
    }
    if chars[4] != '-' || chars[7] != '-' || chars[10] != '_' || chars[13] != '-' || chars[16]
        != '-' || chars[19] != '-' {
        return None;
    }
    let mut i: usize = 20;
    while i < n
        invariant
            n == chars.len(),
            chars@ == text@,
            20 <= i <= n,
            forall|j: int| 20 <= j < i ==> (#[trigger] digit_at(chars@, j)) is Some,
        decreases n - i,
    {
        if digit_number(chars[i]).is_none() {
            assert(digit_at(chars@, i as int) is None);
            return None;
        }
        i = i + 1;
    }
    let century: i64 = match read_two(&chars, 0) {
        Some(v) => v,
        None => {
            return None;
        },
    };
    let years: i64 = match read_two(&chars, 2) {
        Some(v) => v,
        None => {
            return None;
        },
    };
    let month: i64 = match read_two(&chars, 5) {
        Some(v) => v,
        None => {
            return None;
        },
    };
    let day: i64 = match read_two(&chars, 8) {
        Some(v) => v,
        None => {
            return None;
        },
    };
    let hour: i64 = match read_two(&chars, 11) {
        Some(v) => v,
        None => {
            return None;
        },
    };
    let minute: i64 = match read_two(&chars, 14) {
        Some(v) => v,
        None => {
            return None;
        },
    };
    let second: i64 = match read_two(&chars, 17) {
        Some(v) => v,
        None => {
            return None;
        },
    };
    let millis: i64 = read_digit_or_zero(&chars, 20) * 100 + read_digit_or_zero(&chars, 21) * 10
        + read_digit_or_zero(&chars, 22);
    let year: i64 = century * 100 + years;
    if year < 1 || month < 1 || month > 12 || day < 1 || hour > 23 || minute > 59 || second > 59 {
        return None;
    }
    if day > month_length(year, month) {
        return None;
    }
    let leaps: i64 = (year - 1) / 4 - (year - 1) / 100 + (year - 1) / 400;
    let days: i64 = 365 * (year - 1970) + leaps - 477 + month_offset(year, month) + (day - 1);
    assert(leap_years_before(1970) == 477);
    Some((((days * 24 + hour) * 60 + minute) * 60 + second) * 1000 + millis)
}

} // verus!
