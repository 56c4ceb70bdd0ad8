//! Civil timestamps in the fixed `YYYY-MM-DDTHH:MM:SS` format (no timezone,
//! no fractional seconds): parsing, validity under the proleptic Gregorian
//! calendar, and the signed whole-day difference between two timestamps,
//! truncated toward zero.

use vstd::prelude::*;
use vstd::arithmetic::div_mod::lemma_fundamental_div_mod_converse;
use vstd::arithmetic::div_mod::lemma_div_is_ordered_by_denominator;

verus! {

/// A civil timestamp: a calendar date with a time of day, no timezone.
#[derive(Clone, Copy, PartialEq, Eq, Structural, Debug)]
pub struct Timestamp {
    pub year: u64,
    pub month: u64,
    pub day: u64,
    pub hour: u64,
    pub minute: u64,
    pub second: u64,
}

/// Whether a year is a leap year in the proleptic Gregorian calendar.
pub open spec fn spec_is_leap(y: int) -> bool {
    y % 4 == 0 && (y % 100 != 0 || y % 400 == 0)
}

/// How many days the given month of the given year has.
pub open spec fn spec_days_in_month(y: int, m: int) -> int {
    if m == 2 {
        if spec_is_leap(y) {
            29
        } else {
            28
        }
    } else if m == 4 || m == 6 || m == 9 || m == 11 {
        30
    } else {
        31
    }
}

/// A calendar-valid timestamp: a four-digit year, a real day of a real
/// month, and a time of day.
pub open spec fn spec_valid(ts: Timestamp) -> bool {
    &&& ts.year <= 9999
    &&& 1 <= ts.month <= 12
    &&& 1 <= ts.day <= spec_days_in_month(ts.year as int, ts.month as int)
    &&& ts.hour <= 23
    &&& ts.minute <= 59
    &&& ts.second <= 59
}

/// How many leap years lie in `[0, y)`. Year 0 itself is a leap year.
pub open spec fn spec_leap_days_before(y: int) -> int {
    if y <= 0 {
        0
    } else {
        1 + (y - 1) / 4 - (y - 1) / 100 + (y - 1) / 400
    }
}

/// How many days of year `y` precede the first day of month `m`.
pub open spec fn spec_days_before_month(y: int, m: int) -> int {
    let base = if m == 1 {
        0int
    } else if m == 2 {
        31
    } else if m == 3 {
        59
    } else if m == 4 {
        90
    } else if m == 5 {
        120
    } else if m == 6 {
        151
    } else if m == 7 {
        181
    } else if m == 8 {
        212
    } else if m == 9 {
        243
    } else if m == 10 {
        273
    } else if m == 11 {
        304
    } else {
        334
    };
    base + if m > 2 && spec_is_leap(y) {
        1int
    } else {
        0int
    }
}

/// The timestamp's day, counted from 0000-01-01 as day zero.
pub open spec fn spec_day_number(ts: Timestamp) -> int {
    365 * ts.year + spec_leap_days_before(ts.year as int) + spec_days_before_month(
        ts.year as int,
        ts.month as int,
    ) + (ts.day - 1)
}

/// The timestamp's distance from 0000-01-01T00:00:00 in seconds.
pub open spec fn spec_abs_seconds(ts: Timestamp) -> int {
    spec_day_number(ts) * 86400 + ts.hour * 3600 + ts.minute * 60 + ts.second
}

/// The signed whole-day component of `end - start`, truncated toward zero.
pub open spec fn spec_day_count(start: Timestamp, end: Timestamp) -> int {
    if spec_abs_seconds(end) >= spec_abs_seconds(start) {
        (spec_abs_seconds(end) - spec_abs_seconds(start)) / 86400
    } else {
        -((spec_abs_seconds(start) - spec_abs_seconds(end)) / 86400)
    }
}

/// The value of a decimal digit character, or -1 for any other character.
pub open spec fn spec_digit_val(c: char) -> int {
    if c == '0' {
        0
    } else if c == '1' {
        1
    } else if c == '2' {
        2
    } else if c == '3' {
        3
    } else if c == '4' {
        4
    } else if c == '5' {
        5
    } else if c == '6' {
        6
    } else if c == '7' {
        7
    } else if c == '8' {
        8
    } else if c == '9' {
        9
    } else {
        -1
    }
}

/// The number written by the two digits at `i` and `i + 1`.
pub open spec fn spec_num2(s: Seq<char>, i: int) -> int {
    10 * spec_digit_val(s[i]) + spec_digit_val(s[i + 1])
}

/// The number written by the four digits starting at `i`.
pub open spec fn spec_num4(s: Seq<char>, i: int) -> int {
    1000 * spec_digit_val(s[i]) + 100 * spec_digit_val(s[i + 1]) + 10 * spec_digit_val(s[i + 2])
        + spec_digit_val(s[i + 3])
}

/// Whether the string has the shape `YYYY-MM-DDTHH:MM:SS`: 19 characters,
/// digits and the three kinds of separator each in its place.
pub open spec fn spec_format_ok(s: Seq<char>) -> bool {
    &&& s.len() == 19
    &&& spec_digit_val(s[0]) >= 0
    &&& spec_digit_val(s[1]) >= 0
    &&& spec_digit_val(s[2]) >= 0
    &&& spec_digit_val(s[3]) >= 0
    &&& s[4] == '-'
    &&& spec_digit_val(s[5]) >= 0
    &&& spec_digit_val(s[6]) >= 0
    &&& s[7] == '-'
    &&& spec_digit_val(s[8]) >= 0
    &&& spec_digit_val(s[9]) >= 0
    &&& s[10] == 'T'
    &&& spec_digit_val(s[11]) >= 0
    &&& spec_digit_val(s[12]) >= 0
    &&& s[13] == ':'
    &&& spec_digit_val(s[14]) >= 0
    &&& spec_digit_val(s[15]) >= 0
    &&& s[16] == ':'
    &&& spec_digit_val(s[17]) >= 0
    &&& spec_digit_val(s[18]) >= 0
}

/// The timestamp written by an in-format string.
pub open spec fn spec_parsed(s: Seq<char>) -> Timestamp {
    Timestamp {
        year: spec_num4(s, 0) as u64,
        month: spec_num2(s, 5) as u64,
        day: spec_num2(s, 8) as u64,
        hour: spec_num2(s, 11) as u64,
        minute: spec_num2(s, 14) as u64,
        second: spec_num2(s, 17) as u64,
    }
}

/// An acceptable date string: in format, and naming a calendar-valid
/// timestamp.
pub open spec fn spec_valid_timestamp_str(s: Seq<char>) -> bool {
    spec_format_ok(s) && spec_valid(spec_parsed(s))
}

/// The value of a digit character, `None` for any other character.
fn digit_val(c: char) -> (r: Option<u64>)
    ensures
        r is Some <==> spec_digit_val(c) >= 0,
        r matches Some(d) ==> d == spec_digit_val(c) && d <= 9,
{
    match c {
        '0' => Some(0),
        '1' => Some(1),
        '2' => Some(2),
        '3' => Some(3),
        '4' => Some(4),
        '5' => Some(5),
        '6' => Some(6),
        '7' => Some(7),
        '8' => Some(8),
        '9' => Some(9),
        _ => None,
    }
}

/// Reads the two-digit number at position `i`.
fn num2(s: &str, i: usize) -> (r: Option<u64>)
    requires
        i + 2 <= s@.len(),
        s@.len() <= usize::MAX,
    ensures
        r is Some <==> (spec_digit_val(s@[i as int]) >= 0 && spec_digit_val(s@[i + 1]) >= 0),
        r matches Some(n) ==> n == spec_num2(s@, i as int) && n <= 99,
{
    let d0 = digit_val(s.get_char(i));
    let d1 = digit_val(s.get_char(i + 1));
    match (d0, d1) {
        (Some(a), Some(b)) => Some(10 * a + b),
        _ => None,
    }
}

/// Reads the four-digit number at position `i`.
fn num4(s: &str, i: usize) -> (r: Option<u64>)
    requires
        i + 4 <= s@.len(),
        s@.len() <= usize::MAX,
    ensures
        r is Some <==> (spec_digit_val(s@[i as int]) >= 0 && spec_digit_val(s@[i + 1]) >= 0
            && spec_digit_val(s@[i + 2]) >= 0 && spec_digit_val(s@[i + 3]) >= 0),
        r matches Some(n) ==> n == spec_num4(s@, i as int) && n <= 9999,
{
    let d0 = digit_val(s.get_char(i));
    let d1 = digit_val(s.get_char(i + 1));
    let d2 = digit_val(s.get_char(i + 2));
    let d3 = digit_val(s.get_char(i + 3));
    match (d0, d1, d2, d3) {
        (Some(a), Some(b), Some(c), Some(d)) => Some(1000 * a + 100 * b + 10 * c + d),
        _ => None,
    }
}

/// How many days the given month has.
fn days_in_month(year: u64, month: u64) -> (r: u64)
    requires
        1 <= month <= 12,
    ensures
        r == spec_days_in_month(year as int, month as int),
        28 <= r <= 31,
{
    if month == 2 {
        if year % 4 == 0 && (year % 100 != 0 || year % 400 == 0) {
            29
        } else {
            28
        }
    } else if month == 4 || month == 6 || month == 9 || month == 11 {
        30
    } else {
        31
    }
}

/// Parses a `YYYY-MM-DDTHH:MM:SS` string; `None` exactly when it is not in
/// format or does not name a calendar-valid timestamp.
pub fn parse_timestamp(s: &str) -> (r: Option<Timestamp>)
    ensures
        r is Some <==> spec_valid_timestamp_str(s@),
        r matches Some(ts) ==> ts == spec_parsed(s@) && spec_valid(ts),
{
    if s.unicode_len() != 19 {
        return None;
    }
    if s.get_char(4) != '-' || s.get_char(7) != '-' || s.get_char(10) != 'T' || s.get_char(13)
        != ':' || s.get_char(16) != ':' {
        return None;
    }
    let year = match num4(s, 0) {
        Some(v) => v,
        None => { return None },
    };
    let month = match num2(s, 5) {
        Some(v) => v,
        None => { return None },
    };
    let day = match num2(s, 8) {
        Some(v) => v,
        None => { return None },
    };
    let hour = match num2(s, 11) {
        Some(v) => v,
        None => { return None },
    };
    let minute = match num2(s, 14) {
        Some(v) => v,
        None => { return None },
    };
    let second = match num2(s, 17) {
        Some(v) => v,
        None => { return None },
    };
    if month < 1 || month > 12 {
        return None;
    }
    if day < 1 || day > days_in_month(year, month) {
        return None;
    }
    if hour > 23 || minute > 59 || second > 59 {
        return None;
    }
    Some(Timestamp { year, month, day, hour, minute, second })
}

/// How many leap years lie before the given year.
fn leap_days_before(year: u64) -> (r: u64)
    requires
        year <= 9999,
    ensures
        r == spec_leap_days_before(year as int),
        r <= 1 + (year as int),
{
    if year == 0 {
        0
    } else {
        let q4 = (year - 1) / 4;
        let q100 = (year - 1) / 100;
        let q400 = (year - 1) / 400;
        proof {
            lemma_div_is_ordered_by_denominator((year - 1) as int, 4, 100);
            lemma_div_is_ordered_by_denominator((year - 1) as int, 1, 4);
            lemma_div_is_ordered_by_denominator((year - 1) as int, 1, 400);
        }
        1 + q4 - q100 + q400
    }
}

/// How many days of the year precede the first day of the given month.
fn days_before_month(year: u64, month: u64) -> (r: u64)
    requires
        1 <= month <= 12,
    ensures
        r == spec_days_before_month(year as int, month as int),
        r <= 335,
{
    let base: u64 = if month == 1 {
        0
    } else if month == 2 {
        31
    } else if month == 3 {
        59
    } else if month == 4 {
        90
    } else if month == 5 {
        120
    } else if month == 6 {
        151
    } else if month == 7 {
        181
    } else if month == 8 {
        212
    } else if month == 9 {
        243
    } else if month == 10 {
        273
    } else if month == 11 {
        304
    } else {
        334
    };
    if month > 2 && year % 4 == 0 && (year % 100 != 0 || year % 400 == 0) {
        base + 1
    } else {
        base
    }
}

/// The timestamp's distance from 0000-01-01T00:00:00 in seconds.
fn abs_seconds(ts: &Timestamp) -> (r: u64)
    requires
        spec_valid(*ts),
    ensures
        r == spec_abs_seconds(*ts),
        r < 0x1000000000000,
{
    let days: u64 = 365 * ts.year + leap_days_before(ts.year) + days_before_month(
        ts.year,
        ts.month,
    ) + (ts.day - 1);
    days * 86400 + ts.hour * 3600 + ts.minute * 60 + ts.second
}

/// The signed whole-day difference `end - start`, truncated toward zero.
pub fn day_count(start: &Timestamp, end: &Timestamp) -> (r: i64)
    requires
        spec_valid(*start),
        spec_valid(*end),
    ensures
        r == spec_day_count(*start, *end),
        -4000000 <= r <= 4000000,
{
    let sa = abs_seconds(start);
    let sb = abs_seconds(end);
    if sb >= sa {
        let d = (sb - sa) / 86400;
        proof {
            lemma_div_is_ordered_by_denominator((sb - sa) as int, 1, 86400);
        }
        d as i64
    } else {
        let d = (sa - sb) / 86400;
        proof {
            lemma_div_is_ordered_by_denominator((sa - sb) as int, 1, 86400);
        }
        -(d as i64)
    }
}

/// Day-count correctness: when `end` lies exactly `k` whole days plus less
/// than 24 hours after `start`, the reported day count is `k`; with the two
/// swapped (an inverted window) it is `-k`.
pub proof fn lemma_day_count_correct(start: Timestamp, end: Timestamp, k: int, r: int)
    requires
        spec_valid(start),
        spec_valid(end),
        0 <= k,
        0 <= r < 86400,
        spec_abs_seconds(end) == spec_abs_seconds(start) + k * 86400 + r,
    ensures
        spec_day_count(start, end) == k,
        spec_day_count(end, start) == -k,
{
    lemma_fundamental_div_mod_converse(k * 86400 + r, 86400, k, r);
}

} // verus!
