//! Calendar timestamps with minute precision.
//!
//! Tide predictions carry wall-clock times ("2022-01-10 05:05"); the
//! windowing and interpolation stages need to compare such times and to
//! measure distances between them in minutes, possibly across day, month
//! and year boundaries. A timestamp is therefore modelled as its plain
//! calendar fields, and linearized to a total minute count from the civil
//! epoch 0001-01-01 00:00.

use crate::errors::ParseError;
use crate::text::{all_digits, digits_val, is_digit};
use vstd::prelude::*;

verus! {

/// A calendar date and a time of day, minute precision, proleptic
/// Gregorian calendar, years 1 through 9999.
#[derive(Clone, Copy, Debug, PartialEq, Eq, Structural)]
pub struct Timestamp {
    pub year: u32,
    pub month: u32,
    pub day: u32,
    pub hour: u32,
    pub minute: u32,
}

/// Gregorian leap-year rule.
pub open spec fn is_leap_year(y: int) -> bool {
    (y % 4 == 0 && y % 100 != 0) || y % 400 == 0
}

/// Length of month `m` of year `y`, in days.
pub open spec fn days_in_month_spec(y: int, m: int) -> int {
    if m == 2 {
        if is_leap_year(y) {
            29
        } else {
            28
        }
    } else if m == 4 || m == 6 || m == 9 || m == 11 {
        30
    } else {
        31
    }
}

/// Days in the years 1 .. y, that is, days from 0001-01-01 to y-01-01.
pub open spec fn days_before_year(y: int) -> int {
    365 * (y - 1) + (y - 1) / 4 - (y - 1) / 100 + (y - 1) / 400
}

/// Days from y-01-01 to y-m-01.
pub open spec fn days_before_month(y: int, m: int) -> int {
    let base: int = if m == 1 {
        0
    } else if m == 2 {
        31
    } else if m == 3 {
        59
    } else if m == 4 {
        90
    } else if m == 5 {
        120
    } else if m == 6 {
        151
    } else if m == 7 {
        181
    } else if m == 8 {
        212
    } else if m == 9 {
        243
    } else if m == 10 {
        273
    } else if m == 11 {
        304
    } else {
        334
    };
    if m > 2 && is_leap_year(y) {
        base + 1
    } else {
        base
    }
}

impl Timestamp {
    /// The calendar fields form a real date and a real time of day.
    pub open spec fn wf(self) -> bool {
        &&& 1 <= self.year <= 9999
        &&& 1 <= self.month <= 12
        &&& 1 <= self.day <= days_in_month_spec(self.year as int, self.month as int)
        &&& self.hour < 24
        &&& self.minute < 60
    }

    /// Days from 0001-01-01 to this timestamp's date.
    pub open spec fn day_index(self) -> int {
        days_before_year(self.year as int) + days_before_month(
            self.year as int,
            self.month as int,
        ) + self.day - 1
    }

    /// Minutes from 0001-01-01 00:00 to this timestamp: the linear time
    /// scale on which all comparisons and windows are expressed.
    pub open spec fn linear_minutes(self) -> int {
        self.day_index() * 1440 + self.hour * 60 + self.minute
    }

    /// Minute of the day, 0 .. 1439: the raw x-coordinate of a chart point.
    pub open spec fn minute_of_day(self) -> int {
        self.hour * 60 + self.minute
    }

    /// Whole minutes elapsed since the civil epoch 0001-01-01 00:00.
    pub fn total_minutes(&self) -> (r: i64)
        requires
            self.wf(),
        ensures
            r == self.linear_minutes(),
    {
        proof {
            self.lemma_linear_minutes_bound();
        }
        let y = (self.year - 1) as u64;
        let before_year: u64 = 365 * y + y / 4 - y / 100 + y / 400;
        let leap = is_leap(self.year);
        let before_month: u64 = month_prefix_days(self.month, leap);
        let days: u64 = before_year + before_month + (self.day - 1) as u64;
        (days * 1440 + (self.hour * 60 + self.minute) as u64) as i64
    }

    /// The linear minute count of any well-formed timestamp is small:
    /// it fits comfortably in a signed 64-bit value even after the
    /// windowing stage widens it by a day in either direction.
    pub proof fn lemma_linear_minutes_bound(self)
        requires
            self.wf(),
        ensures
            0 <= self.linear_minutes() < 6_000_000_000,
    {
        let y = self.year as int;
        assert(0 <= (y - 1) / 4 <= 2499);
        assert(0 <= (y - 1) / 100 <= 99);
        assert(0 <= (y - 1) / 400 <= 24);
        assert((y - 1) / 100 <= (y - 1) / 4) by {
            vstd::arithmetic::div_mod::lemma_div_is_ordered_by_denominator(y - 1, 4, 100);
        }
    }
}

/// Whether year `y` is a Gregorian leap year.
pub fn is_leap(y: u32) -> (r: bool)
    ensures
        r == is_leap_year(y as int),
{
    (y % 4 == 0 && y % 100 != 0) || y % 400 == 0
}

/// Length of month `m` of year `y`, in days.
pub fn days_in_month(y: u32, m: u32) -> (r: u32)
    requires
        1 <= m <= 12,
    ensures
        r == days_in_month_spec(y as int, m as int),
{
    if m == 2 {
        if is_leap(y) {
            29
        } else {
            28
        }
    } else if m == 4 || m == 6 || m == 9 || m == 11 {
        30
    } else {
        31
    }
}

/// The timestamp denoted by a date-qualified 24-hour time string of the
/// exact shape `YYYY-MM-DD HH:MM`, if it denotes one.
pub open spec fn datetime_of(s: Seq<char>) -> Option<Timestamp> {
    if s.len() == 16 && s[4] == '-' && s[7] == '-' && s[10] == ' ' && s[13] == ':' && all_digits(
        s.subrange(0, 4),
    ) && all_digits(s.subrange(5, 7)) && all_digits(s.subrange(8, 10)) && all_digits(
        s.subrange(11, 13),
    ) && all_digits(s.subrange(14, 16)) {
        let t = Timestamp {
            year: digits_val(s.subrange(0, 4)) as u32,
            month: digits_val(s.subrange(5, 7)) as u32,
            day: digits_val(s.subrange(8, 10)) as u32,
            hour: digits_val(s.subrange(11, 13)) as u32,
            minute: digits_val(s.subrange(14, 16)) as u32,
        };
        if t.wf() {
            Some(t)
        } else {
            None
        }
    } else {
        None
    }
}

/// A digit string of at most four digits stays below 10000.
pub proof fn lemma_digits_val_small(s: Seq<char>)
    requires
        all_digits(s),
        s.len() <= 4,
    ensures
        0 <= digits_val(s),
        s.len() <= 1 ==> digits_val(s) <= 9,
        s.len() <= 2 ==> digits_val(s) <= 99,
        s.len() <= 3 ==> digits_val(s) <= 999,
        digits_val(s) <= 9999,
    decreases s.len(),
{
    if s.len() > 0 {
        assert(all_digits(s.drop_last()));
        lemma_digits_val_small(s.drop_last());
        crate::text::lemma_digits_val_nonneg(s.drop_last());
    }
}

/// Parse a date-qualified 24-hour time string `YYYY-MM-DD HH:MM` into a
/// timestamp; any other shape, or out-of-range fields, is a malformed
/// date.
pub fn parse_datetime(s: &str) -> (r: Result<Timestamp, ParseError>)
    ensures
        match r {
            Ok(t) => datetime_of(s@) == Some(t) && t.wf(),
            Err(e) => datetime_of(s@) is None && e == ParseError::MalformedDate,
        },
{
    let n = s.unicode_len();
    if n != 16 {
        return Err(ParseError::MalformedDate);
    }
    if !(s.get_char(4) == '-' && s.get_char(7) == '-' && s.get_char(10) == ' ' && s.get_char(13)
        == ':') {
        return Err(ParseError::MalformedDate);
    }
    let year = match parse_field(s, 0, 4) {
        Some(v) => v,
        None => {
            return Err(ParseError::MalformedDate);
        },
    };
    let month = match parse_field(s, 5, 7) {
        Some(v) => v,
        None => {
            return Err(ParseError::MalformedDate);
        },
    };
    let day = match parse_field(s, 8, 10) {
        Some(v) => v,
        None => {
            return Err(ParseError::MalformedDate);
        },
    };
    let hour = match parse_field(s, 11, 13) {
        Some(v) => v,
        None => {
            return Err(ParseError::MalformedDate);
        },
    };
    let minute = match parse_field(s, 14, 16) {
        Some(v) => v,
        None => {
            return Err(ParseError::MalformedDate);
        },
    };
    let t = Timestamp { year, month, day, hour, minute };
    if !(1 <= year && 1 <= month && month <= 12 && 1 <= day && day <= days_in_month(year, month)
        && hour < 24 && minute < 60) {
        return Err(ParseError::MalformedDate);
    }
    Ok(t)
}

/// Read the all-digit field `s[from .. to]` of a fixed-layout string.
fn parse_field(s: &str, from: usize, to: usize) -> (r: Option<u32>)
    requires
        from < to <= s@.len(),
        to - from <= 4,
    ensures
        match r {
            Some(v) => all_digits(s@.subrange(from as int, to as int)) && v == digits_val(
                s@.subrange(from as int, to as int),
            ) && v <= 9999,
            None => !all_digits(s@.subrange(from as int, to as int)),
        },
{
    let field = s.substring_char(from, to);
    proof {
        if all_digits(field@) {
            lemma_digits_val_small(field@);
        }
    }
    match crate::text::parse_uint(field, 9999) {
        Some(v) => Some(v as u32),
        None => None,
    }
}

/// Cumulative days before month `m`, with the leap-day adjustment.
fn month_prefix_days(m: u32, leap: bool) -> (r: u64)
    requires
        1 <= m <= 12,
    ensures
        forall|y: int| is_leap_year(y) == leap ==> r == days_before_month(y, m as int),
{
    let base: u64 = match m {
        1 => 0,
        2 => 31,
        3 => 59,
        4 => 90,
        5 => 120,
        6 => 151,
        7 => 181,
        8 => 212,
        9 => 243,
        10 => 273,
        11 => 304,
        _ => 334,
    };
    if m > 2 && leap {
        base + 1
    } else {
        base
    }
}

} // verus!
