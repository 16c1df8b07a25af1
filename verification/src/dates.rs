//! Calendar dates given on the command line: normalization of the two
//! accepted spellings and conversion to UTC epoch seconds.

use vstd::prelude::*;
use crate::text::{
    chars_of, digit_to_char, four_digits, parse_unsigned,
    parse_unsigned_chars, push_char, split, split_chars, trim, trim_str, two_digits,
    utf8_len, utf8_len_is,
};
use chrono::TimeZone;

verus! {

/// The year, month and day texts of a date spelled `YYYY-MM-DD` or
/// `MM-DD-YYYY`, chosen by which dash-separated part is four bytes long.
pub open spec fn date_fields(t: Seq<char>) -> Option<(Seq<char>, Seq<char>, Seq<char>)> {
    let parts = split(t, '-');
    if parts.len() != 3 {
        None
    } else if utf8_len(parts[0]) == 4 {
        Some((parts[0], parts[1], parts[2]))
    } else if utf8_len(parts[2]) == 4 {
        Some((parts[2], parts[0], parts[1]))
    } else {
        None
    }
}

/// The canonical `YYYY-MM-DD` text of a year, month and day.
pub open spec fn date_text(y: nat, m: nat, d: nat) -> Seq<char> {
    four_digits(y) + seq!['-'] + two_digits(m) + seq!['-'] + two_digits(d)
}

/// The largest value of `u32`.
pub open spec fn u32_max() -> nat {
    0xFFFF_FFFF
}

/// The year, month and day of the date `s`: after trimming, `s` must be ten
/// bytes long and hold three dash-separated numbers, the year being the
/// first or the last; the year must lie in 1900..=2100, the month in 1..=12
/// and the day in 1..=31.
pub open spec fn normalized_ymd(s: Seq<char>) -> Option<(nat, nat, nat)> {
    let t = trim(s);
    if utf8_len(t) != 10 {
        None
    } else {
        match date_fields(t) {
            None => None,
            Some((ys, ms, ds)) => match (
                parse_unsigned(ys, u32_max()),
                parse_unsigned(ms, u32_max()),
                parse_unsigned(ds, u32_max()),
            ) {
                (Some(y), Some(m), Some(d)) => {
                    if 1900 <= y <= 2100 && 1 <= m <= 12 && 1 <= d <= 31 {
                        Some((y, m, d))
                    } else {
                        None
                    }
                },
                _ => None,
            },
        }
    }
}

/// The normalized date for `s`: its year, month and day (see
/// `normalized_ymd`) written `YYYY-MM-DD` with zero padding.
pub open spec fn spec_normalize_date(s: Seq<char>) -> Option<Seq<char>> {
    match normalized_ymd(s) {
        Some((y, m, d)) => Some(date_text(y, m, d)),
        None => None,
    }
}

// ---------------------------------------------------------------------------
// The proleptic Gregorian calendar
// ---------------------------------------------------------------------------

/// Leap years: divisible by 4, except centuries not divisible by 400.
pub open spec fn is_leap_year(y: int) -> bool {
    y % 4 == 0 && (y % 100 != 0 || y % 400 == 0)
}

/// The number of days of month `m` of year `y`.
pub open spec fn days_in_month(y: int, m: int) -> int {
    if m == 2 {
        if is_leap_year(y) { 29 } else { 28 }
    } else if m == 4 || m == 6 || m == 9 || m == 11 {
        30
    } else {
        31
    }
}

/// The number of leap years among the years 1..=n, for n >= 0.
pub open spec fn leap_years_through(n: int) -> int {
    n / 4 - n / 100 + n / 400
}

/// Days from 1970-01-01 to the first of January of year `y` (negative
/// before 1970).
pub open spec fn days_before_year(y: int) -> int {
    365 * (y - 1970) + leap_years_through(y - 1) - leap_years_through(1969)
}

/// Days from the first of January to the first day of month `m`.
pub open spec fn days_before_month(y: int, m: int) -> int {
    let base: int = if m <= 1 {
        0
    } else if m == 2 {
        31
    } else if m == 3 {
        59
    } else if m == 4 {
        90
    } else if m == 5 {
        120
    } else if m == 6 {
        151
    } else if m == 7 {
        181
    } else if m == 8 {
        212
    } else if m == 9 {
        243
    } else if m == 10 {
        273
    } else if m == 11 {
        304
    } else {
        334
    };
    base + if m > 2 && is_leap_year(y) { 1int } else { 0int }
}

/// Seconds from 1970-01-01T00:00:00Z to the time `h:mi:s` UTC of the day
/// `y-m-d`.
pub open spec fn utc_seconds(y: int, m: int, d: int, h: int, mi: int, s: int) -> int {
    (days_before_year(y) + days_before_month(y, m) + d - 1) * 86400 + h * 3600 + mi * 60 + s
}

/// Appends the four-digit spelling of `n`.
fn push_four_digits(out: &mut String, n: u32)
    requires
        n < 10000,
    ensures
        final(out)@ == old(out)@ + four_digits(n as nat),
{
    push_char(out, digit_to_char((n / 1000) % 10));
    push_char(out, digit_to_char((n / 100) % 10));
    push_char(out, digit_to_char((n / 10) % 10));
    push_char(out, digit_to_char(n % 10));
    assert(final(out)@ =~= old(out)@ + four_digits(n as nat));
}

/// Appends the two-digit spelling of `n`.
fn push_two_digits(out: &mut String, n: u32)
    requires
        n < 100,
    ensures
        final(out)@ == old(out)@ + two_digits(n as nat),
{
    push_char(out, digit_to_char((n / 10) % 10));
    push_char(out, digit_to_char(n % 10));
    assert(final(out)@ =~= old(out)@ + two_digits(n as nat));
}

/// Normalizes a date given as `YYYY-MM-DD` or `MM-DD-YYYY` (surrounding white
/// space is ignored) to `YYYY-MM-DD`; `None` when it is not such a date.
pub fn normalize_date(s: &str) -> (r: Option<String>)
    ensures
        r matches Some(v) ==> spec_normalize_date(s@) == Some(v@),
        r is None ==> spec_normalize_date(s@) is None,
{
    let t = trim_str(s);
    let ghost tv = trim(s@);
    let tc = chars_of(t.as_str());
    if !utf8_len_is(tc.as_slice(), 10) {
        return None;
    }
    let parts = split_chars(tc.as_slice(), '-');
    if parts.len() != 3 {
        return None;
    }
    let ghost ps = split(tv, '-');
    assert(parts@[0]@ == ps[0]);
    assert(parts@[1]@ == ps[1]);
    assert(parts@[2]@ == ps[2]);
    let (yi, mi, di): (usize, usize, usize) = if utf8_len_is(parts[0].as_slice(), 4) {
        (0, 1, 2)
    } else if utf8_len_is(parts[2].as_slice(), 4) {
        (2, 0, 1)
    } else {
        return None;
    };
    let y = match parse_unsigned_chars(parts[yi].as_slice(), 0xFFFF_FFFF) {
        Some(v) => v,
        None => return None,
    };
    let m = match parse_unsigned_chars(parts[mi].as_slice(), 0xFFFF_FFFF) {
        Some(v) => v,
        None => return None,
    };
    let d = match parse_unsigned_chars(parts[di].as_slice(), 0xFFFF_FFFF) {
        Some(v) => v,
        None => return None,
    };
    if !(1900 <= y && y <= 2100 && 1 <= m && m <= 12 && 1 <= d && d <= 31) {
        return None;
    }
    let mut out = String::new();
    push_four_digits(&mut out, y as u32);
    push_char(&mut out, '-');
    push_two_digits(&mut out, m as u32);
    push_char(&mut out, '-');
    push_two_digits(&mut out, d as u32);
    assert(out@ =~= date_text(y as nat, m as nat, d as nat));
    Some(out)
}

/// The epoch seconds that chrono gives for the date `date` at the time
/// `hour:minute:second` UTC, or `None` when chrono rejects the date or the
/// time.
pub uninterp spec fn chrono_utc_timestamp(date: Seq<char>, hour: u32, minute: u32, second: u32) -> Option<i64>;

/// The chrono computation `NaiveDate::parse_from_str(date, "%Y-%m-%d")`, then
/// `and_hms_opt(hour, minute, second)`, then
/// `Utc.from_utc_datetime(..).timestamp()`. The contract claims that the
/// result is a function of the arguments, and, for a date written
/// `YYYY-MM-DD` with year 1900..=2100, month 1..=12 and day 1..=31 and a
/// valid time of day, what chrono documents: the date exists in the
/// proleptic Gregorian calendar exactly when the day is within its month,
/// and the timestamp counts the seconds since 1970-01-01T00:00:00Z. Other
/// texts are left to chrono.
#[verifier::external_body]
fn utc_timestamp(date: &str, hour: u32, minute: u32, second: u32) -> (r: Option<i64>)
    ensures
        r == chrono_utc_timestamp(date@, hour, minute, second),
        forall|y: nat, m: nat, d: nat|
            #![trigger date_text(y, m, d)]
            hour < 24 && minute < 60 && second < 60 && 1900 <= y <= 2100 && 1 <= m <= 12 && 1 <= d
                <= 31 && date@ == date_text(y, m, d) ==> (r is Some <==> d <= days_in_month(y as int, m as int))
                && (r matches Some(t) ==> t == utc_seconds(y as int, m as int, d as int, hour as int, minute as int, second as int)),
{
    let day = chrono::NaiveDate::parse_from_str(date, "%Y-%m-%d").ok()?;
    let time = day.and_hms_opt(hour, minute, second)?;
    Some(chrono::Utc.from_utc_datetime(&time).timestamp())
}

/// Seconds from 1970-01-01T00:00:00Z to the start of the date `s` given on
/// the command line, or to its last second (23:59:59) with `end_of_day`;
/// `None` when `s` is not an accepted date or names no day of the calendar
/// (such as February 30).
pub open spec fn spec_date_to_epoch(s: Seq<char>, end_of_day: bool) -> Option<i64> {
    match normalized_ymd(s) {
        None => None,
        Some((y, m, d)) => if d <= days_in_month(y as int, m as int) {
            Some(
                utc_seconds(
                    y as int,
                    m as int,
                    d as int,
                    if end_of_day { 23 } else { 0 },
                    if end_of_day { 59 } else { 0 },
                    if end_of_day { 59 } else { 0 },
                ) as i64,
            )
        } else {
            None
        },
    }
}

/// The seconds of any day of 1900..=2100 fit in an `i64`.
pub proof fn lemma_utc_seconds_bounds(y: int, m: int, d: int, h: int, mi: int, s: int)
    requires
        1900 <= y <= 2100,
        1 <= m <= 12,
        1 <= d <= 31,
        0 <= h < 24,
        0 <= mi < 60,
        0 <= s < 60,
    ensures
        -3_000_000_000 < utc_seconds(y, m, d, h, mi, s) < 5_000_000_000,
{
}

/// Epoch seconds (UTC) of the start, or with `end_of_day` the last second, of
/// the date `s`; `None` when `s` is not an accepted date or not a day of the
/// calendar.
pub fn date_to_epoch(s: &str, end_of_day: bool) -> (r: Option<i64>)
    ensures
        r == spec_date_to_epoch(s@, end_of_day),
{
    let n = match normalize_date(s) {
        None => return None,
        Some(n) => n,
    };
    let ghost ymd = normalized_ymd(s@)->0;
    proof {
        assert(n@ == date_text(ymd.0, ymd.1, ymd.2));
        lemma_utc_seconds_bounds(
            ymd.0 as int,
            ymd.1 as int,
            ymd.2 as int,
            if end_of_day { 23 } else { 0 },
            if end_of_day { 59 } else { 0 },
            if end_of_day { 59 } else { 0 },
        );
    }
    if end_of_day {
        utc_timestamp(n.as_str(), 23, 59, 59)
    } else {
        utc_timestamp(n.as_str(), 0, 0, 0)
    }
}

} // verus!
