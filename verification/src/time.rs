//! Civil date-times and the KST-to-UTC hour bucket.
//!
//! The upstream service reports each reading's timestamp as local civil time
//! in Korea Standard Time, a fixed nine-hour offset ahead of UTC. The
//! pipeline parses the fixed `"YYYY-MM-DD HH:MM"` shape, shifts the instant
//! back by nine hours, and truncates it to the top of the hour. The shift is
//! proved against a minute count over the proleptic Gregorian calendar.

use vstd::prelude::*;
use vstd::string::*;

use crate::decimal::{digit_val, is_digit};
use chrono::{Datelike, Timelike};

verus! {

/// A civil date-time to minute precision in the proleptic Gregorian
/// calendar. Components finer than a minute (seconds and below) are zero by
/// construction.
#[derive(Clone, Copy, PartialEq, Eq, Structural, Debug)]
pub struct CivilDateTime {
    pub year: u16,
    pub month: u8,
    pub day: u8,
    pub hour: u8,
    pub minute: u8,
}

pub open spec fn spec_is_leap(y: int) -> bool {
    y % 4 == 0 && (y % 100 != 0 || y % 400 == 0)
}

pub open spec fn spec_days_in_month(y: int, m: int) -> int {
    if m == 2 {
        if spec_is_leap(y) {
            29
        } else {
            28
        }
    } else if m == 4 || m == 6 || m == 9 || m == 11 {
        30
    } else {
        31
    }
}

/// Days in the months of year `y` strictly before month `m`.
pub open spec fn spec_days_before_month(y: int, m: int) -> int
    decreases m,
{
    if m <= 1 {
        0
    } else {
        spec_days_before_month(y, m - 1) + spec_days_in_month(y, m - 1)
    }
}

pub open spec fn spec_days_in_year(y: int) -> int {
    if spec_is_leap(y) {
        366
    } else {
        365
    }
}

/// Days in the years from 0 up to, excluding, `y`.
pub open spec fn spec_days_before_year(y: int) -> int
    decreases y,
{
    if y <= 0 {
        0
    } else {
        spec_days_before_year(y - 1) + spec_days_in_year(y - 1)
    }
}

/// Day number of a civil date, day 0 being the first of year 0.
pub open spec fn spec_day_number(y: int, m: int, d: int) -> int {
    spec_days_before_year(y) + spec_days_before_month(y, m) + (d - 1)
}

impl CivilDateTime {
    /// A calendar-valid date-time within the four-digit years.
    pub open spec fn wf(self) -> bool {
        &&& 1 <= self.month <= 12
        &&& 1 <= self.day
        &&& self.day as int <= spec_days_in_month(self.year as int, self.month as int)
        &&& self.hour <= 23
        &&& self.minute <= 59
        &&& self.year <= 9999
    }

    /// Minutes since the civil instant 0000-01-01 00:00.
    pub open spec fn minutes(self) -> int {
        spec_day_number(self.year as int, self.month as int, self.day as int) * 1440
            + self.hour as int * 60 + self.minute as int
    }
}

/// The same instant with the minute component cleared: the hour bucket.
pub open spec fn spec_truncate_to_hour(t: CivilDateTime) -> CivilDateTime {
    CivilDateTime { minute: 0, ..t }
}

pub fn is_leap(y: u16) -> (r: bool)
    ensures
        r == spec_is_leap(y as int),
{
    y % 4 == 0 && (y % 100 != 0 || y % 400 == 0)
}

pub fn days_in_month(y: u16, m: u8) -> (r: u8)
    ensures
        r as int == spec_days_in_month(y as int, m as int),
{
    if m == 2 {
        if is_leap(y) {
            29
        } else {
            28
        }
    } else if m == 4 || m == 6 || m == 9 || m == 11 {
        30
    } else {
        31
    }
}

/// A full year of months is a year of days.
proof fn lemma_days_before_month_full(y: int)
    ensures
        spec_days_before_month(y, 13) == spec_days_in_year(y),
{
    reveal_with_fuel(spec_days_before_month, 14);
}

/// The calendar-valid date one day earlier.
fn prev_day(y: u16, m: u8, d: u8) -> (r: (u16, u8, u8))
    requires
        1 <= m <= 12,
        1 <= d,
        d as int <= spec_days_in_month(y as int, m as int),
        1 <= y <= 9999,
    ensures
        1 <= r.1 <= 12,
        1 <= r.2,
        r.2 as int <= spec_days_in_month(r.0 as int, r.1 as int),
        r.0 <= 9999,
        spec_day_number(r.0 as int, r.1 as int, r.2 as int) == spec_day_number(
            y as int,
            m as int,
            d as int,
        ) - 1,
{
    if d > 1 {
        (y, m, d - 1)
    } else if m > 1 {
        let dim = days_in_month(y, m - 1);
        (y, m - 1, dim)
    } else {
        proof {
            lemma_days_before_month_full(y as int - 1);
        }
        (y - 1, 12, 31)
    }
}

/// Shifts a civil time read in UTC+9 back by nine hours, to the same
/// instant's civil time in UTC. The date may step back one day; the minute
/// component is untouched, since the offset is a whole number of hours.
/// Together with [`lemma_minutes_injective`], the clauses below pin every
/// field of the result.
pub fn kst_to_utc(t: CivilDateTime) -> (r: CivilDateTime)
    requires
        t.wf(),
        t.year >= 1,
    ensures
        r.wf(),
        r.minutes() == t.minutes() - 540,
        r.minute == t.minute,
{
    if t.hour >= 9 {
        CivilDateTime { hour: t.hour - 9, ..t }
    } else {
        let (py, pm, pd) = prev_day(t.year, t.month, t.day);
        CivilDateTime { year: py, month: pm, day: pd, hour: t.hour + 15, minute: t.minute }
    }
}

/// Clears the minute component, bucketing the instant to its hour.
pub fn truncate_to_hour(t: CivilDateTime) -> (r: CivilDateTime)
    ensures
        r == spec_truncate_to_hour(t),
{
    CivilDateTime { minute: 0, ..t }
}

/// The timestamp denoted by `s` under the fixed upstream pattern
/// `"YYYY-MM-DD HH:MM"`: four year digits, two digits for each other field,
/// the exact separators, and a calendar-valid date-time in the years 1
/// through 9999. `None` for anything else.
pub open spec fn spec_parse_data_time(s: Seq<char>) -> Option<CivilDateTime> {
    if s.len() == 16 && is_digit(s[0]) && is_digit(s[1]) && is_digit(s[2]) && is_digit(s[3]) && s[4]
        == '-' && is_digit(s[5]) && is_digit(s[6]) && s[7] == '-' && is_digit(s[8]) && is_digit(
        s[9],
    ) && s[10] == ' ' && is_digit(s[11]) && is_digit(s[12]) && s[13] == ':' && is_digit(s[14])
        && is_digit(s[15]) {
        let t = CivilDateTime {
            year: (digit_val(s[0]) * 1000 + digit_val(s[1]) * 100 + digit_val(s[2]) * 10
                + digit_val(s[3])) as u16,
            month: (digit_val(s[5]) * 10 + digit_val(s[6])) as u8,
            day: (digit_val(s[8]) * 10 + digit_val(s[9])) as u8,
            hour: (digit_val(s[11]) * 10 + digit_val(s[12])) as u8,
            minute: (digit_val(s[14]) * 10 + digit_val(s[15])) as u8,
        };
        if t.wf() && t.year >= 1 {
            Some(t)
        } else {
            None
        }
    } else {
        None
    }
}

fn two_digits(s: &str, i: usize) -> (r: Option<u8>)
    requires
        i <= 14,
        i + 2 <= s@.len(),
    ensures
        r is Some <==> is_digit(s@[i as int]) && is_digit(s@[i + 1]),
        r matches Some(v) ==> v as int == digit_val(s@[i as int]) * 10 + digit_val(s@[i + 1]),
{
    let c0 = s.get_char(i);
    let c1 = s.get_char(i + 1);
    if !crate::decimal::is_digit_char(c0) || !crate::decimal::is_digit_char(c1) {
        return None;
    }
    let v = crate::decimal::digit_of(c0) * 10 + crate::decimal::digit_of(c1);
    Some(v as u8)
}

/// Reads a timestamp in the fixed upstream pattern; see
/// [`spec_parse_data_time`] for the accepted shape.
pub fn parse_data_time(s: &str) -> (r: Option<CivilDateTime>)
    ensures
        r == spec_parse_data_time(s@),
{
    if s.unicode_len() != 16 {
        return None;
    }
    if s.get_char(4) != '-' || s.get_char(7) != '-' || s.get_char(10) != ' ' || s.get_char(13)
        != ':' {
        return None;
    }
    let y_hi = match two_digits(s, 0) {
        Some(v) => v,
        None => {
            return None;
        },
    };
    let y_lo = match two_digits(s, 2) {
        Some(v) => v,
        None => {
            return None;
        },
    };
    let month = match two_digits(s, 5) {
        Some(v) => v,
        None => {
            return None;
        },
    };
    let day = match two_digits(s, 8) {
        Some(v) => v,
        None => {
            return None;
        },
    };
    let hour = match two_digits(s, 11) {
        Some(v) => v,
        None => {
            return None;
        },
    };
    let minute = match two_digits(s, 14) {
        Some(v) => v,
        None => {
            return None;
        },
    };
    let year = y_hi as u16 * 100 + y_lo as u16;
    let t = CivilDateTime { year, month, day, hour, minute };
    if month < 1 || month > 12 {
        return None;
    }
    if day < 1 || day > days_in_month(year, month) {
        return None;
    }
    if hour > 23 || minute > 59 {
        return None;
    }
    if year < 1 {
        return None;
    }
    Some(t)
}

proof fn lemma_dbm_monotone(y: int, a: int, b: int)
    requires
        1 <= a <= b <= 13,
    ensures
        spec_days_before_month(y, a) <= spec_days_before_month(y, b),
    decreases b - a,
{
    if a < b {
        lemma_dbm_monotone(y, a, b - 1);
        assert(spec_days_in_month(y, b - 1) >= 28);
    }
}

proof fn lemma_day_number_in_year(y: int, m: int, d: int)
    requires
        1 <= m <= 12,
        1 <= d <= spec_days_in_month(y, m),
    ensures
        spec_days_before_year(y) <= spec_day_number(y, m, d),
        spec_day_number(y, m, d) < spec_days_before_year(y) + spec_days_in_year(y),
        spec_days_before_month(y, m) + (d - 1) < spec_days_before_month(y, m + 1),
{
    lemma_dbm_monotone(y, 1, m);
    lemma_dbm_monotone(y, m + 1, 13);
    lemma_days_before_month_full(y);
    assert(spec_days_before_month(y, m + 1) == spec_days_before_month(y, m) + spec_days_in_month(
        y,
        m,
    ));
}

proof fn lemma_dby_monotone(a: int, b: int)
    requires
        0 <= a <= b,
    ensures
        spec_days_before_year(a) <= spec_days_before_year(b),
    decreases b - a,
{
    if a < b {
        lemma_dby_monotone(a, b - 1);
        assert(spec_days_before_year(b) == spec_days_before_year(b - 1) + spec_days_in_year(b - 1));
    }
}

/// Two calendar-valid date-times with the same minute count are the same
/// date-time: the minute count pins a civil time, so a contract over
/// `minutes()` (with well-formedness) determines every field.
pub proof fn lemma_minutes_injective(a: CivilDateTime, b: CivilDateTime)
    requires
        a.wf(),
        b.wf(),
        a.minutes() == b.minutes(),
    ensures
        a == b,
{
    let ya = a.year as int;
    let yb = b.year as int;
    let dna = spec_day_number(ya, a.month as int, a.day as int);
    let dnb = spec_day_number(yb, b.month as int, b.day as int);
    let toda = a.hour as int * 60 + a.minute as int;
    let todb = b.hour as int * 60 + b.minute as int;
    assert(0 <= toda < 1440);
    assert(0 <= todb < 1440);
    assert(dna * 1440 + toda == dnb * 1440 + todb);
    assert(dna == dnb && toda == todb) by {
        if dna < dnb {
            assert(dnb * 1440 >= dna * 1440 + 1440);
        } else if dnb < dna {
            assert(dna * 1440 >= dnb * 1440 + 1440);
        }
    }
    assert(a.hour == b.hour && a.minute == b.minute);
    lemma_day_number_in_year(ya, a.month as int, a.day as int);
    lemma_day_number_in_year(yb, b.month as int, b.day as int);
    if ya < yb {
        lemma_dby_monotone(ya + 1, yb);
        assert(spec_days_before_year(ya + 1) == spec_days_before_year(ya) + spec_days_in_year(ya));
        assert(dna < dnb);
    } else if yb < ya {
        lemma_dby_monotone(yb + 1, ya);
        assert(spec_days_before_year(yb + 1) == spec_days_before_year(yb) + spec_days_in_year(yb));
        assert(dnb < dna);
    }
    assert(ya == yb);
    let ma = a.month as int;
    let mb = b.month as int;
    if ma < mb {
        lemma_dbm_monotone(ya, ma + 1, mb);
        assert(dna < dnb);
    } else if mb < ma {
        lemma_dbm_monotone(ya, mb + 1, ma);
        assert(dnb < dna);
    }
    assert(a.month == b.month);
    assert(a.day == b.day);
}

/// Relies on `chrono::Utc::now` and chrono's `Datelike`/`Timelike`
/// accessors: the current instant in UTC, by civil fields. chrono documents
/// each accessor's range (month 1–12, day valid for the month, hour 0–23,
/// minute 0–59), and the current year lies within the four-digit years.
#[verifier::external_body]
pub(crate) fn utc_now_civil() -> (r: CivilDateTime)
    ensures
        r.wf(),
        r.year >= 1,
{
    let now = chrono::Utc::now();
    CivilDateTime {
        year: now.year() as u16,
        month: now.month() as u8,
        day: now.day() as u8,
        hour: now.hour() as u8,
        minute: now.minute() as u8,
    }
}

} // verus!
