//! Calendar date and time of day, as plain integers.
use chrono::{Datelike, Timelike};
use std::str::FromStr;
use vstd::prelude::*;

verus! {

/// Smallest and largest year that the calendar backend accepts.
pub const MIN_YEAR: i32 = -262143;
pub const MAX_YEAR: i32 = 262142;

/// A local date and time of day without a time zone. A nanosecond count of a
/// billion or more stands for a leap second, and only at second 59.
#[derive(Clone, Copy, Debug, PartialEq, Eq, Structural)]
pub struct Timestamp {
    pub year: i32,
    pub month: u32,
    pub day: u32,
    pub hour: u32,
    pub minute: u32,
    pub second: u32,
    pub nanosecond: u32,
}

pub open spec fn is_leap_year(y: int) -> bool {
    (y % 4 == 0 && y % 100 != 0) || y % 400 == 0
}

pub open spec fn days_in_month(y: int, m: int) -> int {
    if m == 2 {
        if is_leap_year(y) { 29 } else { 28 }
    } else if m == 4 || m == 6 || m == 9 || m == 11 {
        30
    } else {
        31
    }
}

pub open spec fn valid_date(y: int, m: int, d: int) -> bool {
    &&& MIN_YEAR <= y <= MAX_YEAR
    &&& 1 <= m <= 12
    &&& 1 <= d <= days_in_month(y, m)
}

pub open spec fn valid_time(h: int, mi: int, s: int, ns: int) -> bool {
    &&& 0 <= h < 24
    &&& 0 <= mi < 60
    &&& 0 <= s < 60
    &&& 0 <= ns < 2_000_000_000
    &&& (ns >= 1_000_000_000 ==> s == 59)
}

/// Chronological order: year first, nanosecond last.
pub open spec fn ts_le(a: Timestamp, b: Timestamp) -> bool {
    if a.year != b.year {
        a.year < b.year
    } else if a.month != b.month {
        a.month < b.month
    } else if a.day != b.day {
        a.day < b.day
    } else if a.hour != b.hour {
        a.hour < b.hour
    } else if a.minute != b.minute {
        a.minute < b.minute
    } else if a.second != b.second {
        a.second < b.second
    } else {
        a.nanosecond <= b.nanosecond
    }
}

impl Timestamp {
    pub open spec fn wf(self) -> bool {
        valid_date(self.year as int, self.month as int, self.day as int) && valid_time(
            self.hour as int,
            self.minute as int,
            self.second as int,
            self.nanosecond as int,
        )
    }

    /// Builds a timestamp from its parts; `None` when they name no date or time.
    pub fn new(
        year: i32,
        month: u32,
        day: u32,
        hour: u32,
        minute: u32,
        second: u32,
        nanosecond: u32,
    ) -> (r: Option<Timestamp>)
        ensures
            r is Some <==> valid_date(year as int, month as int, day as int) && valid_time(
                hour as int,
                minute as int,
                second as int,
                nanosecond as int,
            ),
            r is Some ==> r->0 == (Timestamp { year, month, day, hour, minute, second, nanosecond }),
    {
        let t = Timestamp { year, month, day, hour, minute, second, nanosecond };
        if t.is_valid() {
            Some(t)
        } else {
            None
        }
    }

    /// Midnight at the start of the given date.
    pub fn midnight(year: i32, month: u32, day: u32) -> (r: Option<Timestamp>)
        ensures
            r is Some <==> valid_date(year as int, month as int, day as int),
            r is Some ==> r->0 == (Timestamp {
                year,
                month,
                day,
                hour: 0,
                minute: 0,
                second: 0,
                nanosecond: 0,
            }),
    {
        Timestamp::new(year, month, day, 0, 0, 0, 0)
    }

    pub fn is_valid(&self) -> (r: bool)
        ensures
            r == self.wf(),
    {
        let dim: u32 = if self.month == 2 {
            let y = self.year;
            if (y % 4 == 0 && y % 100 != 0) || y % 400 == 0 {
                29
            } else {
                28
            }
        } else if self.month == 4 || self.month == 6 || self.month == 9 || self.month == 11 {
            30
        } else {
            31
        };
        MIN_YEAR <= self.year && self.year <= MAX_YEAR && 1 <= self.month && self.month <= 12
            && 1 <= self.day && self.day <= dim && self.hour < 24 && self.minute < 60
            && self.second < 60 && self.nanosecond < 2_000_000_000 && (self.nanosecond
            < 1_000_000_000 || self.second == 59)
    }

    /// Whether `self` comes no later than `other`.
    pub fn le(&self, other: &Timestamp) -> (r: bool)
        ensures
            r == ts_le(*self, *other),
    {
        if self.year != other.year {
            self.year < other.year
        } else if self.month != other.month {
            self.month < other.month
        } else if self.day != other.day {
            self.day < other.day
        } else if self.hour != other.hour {
            self.hour < other.hour
        } else if self.minute != other.minute {
            self.minute < other.minute
        } else if self.second != other.second {
            self.second < other.second
        } else {
            self.nanosecond <= other.nanosecond
        }
    }
}

/// The order on timestamps is total and transitive.
pub proof fn lemma_ts_le_total_order(a: Timestamp, b: Timestamp, c: Timestamp)
    ensures
        ts_le(a, a),
        ts_le(a, b) || ts_le(b, a),
        ts_le(a, b) && ts_le(b, c) ==> ts_le(a, c),
        ts_le(a, b) && ts_le(b, a) ==> a == b,
{
}

/// The character of a decimal digit.
pub open spec fn digit_char(n: int) -> char {
    seq!['0', '1', '2', '3', '4', '5', '6', '7', '8', '9'][n]
}

/// Two decimal digits of `n`, with a leading zero below ten.
pub open spec fn two_digits(n: int) -> Seq<char> {
    seq![digit_char((n / 10) % 10), digit_char(n % 10)]
}

/// `YYYY-MM-DD` for a year of four digits.
pub open spec fn iso_date(y: int, m: int, d: int) -> Seq<char> {
    two_digits(y / 100) + two_digits(y % 100) + seq!['-'] + two_digits(m) + seq!['-'] + two_digits(
        d,
    )
}

/// The text that the calendar backend gives for a date.
pub uninterp spec fn date_text_of(y: int, m: int, d: int) -> Seq<char>;

/// What the calendar backend reads from a `date-time` line.
pub uninterp spec fn datetime_parsed(s: Seq<char>) -> Option<Timestamp>;

/// What the calendar backend reads from a `date` line.
pub uninterp spec fn date_parsed(s: Seq<char>) -> Option<(i32, u32, u32)>;

/// Relies on chrono's `Local::now` and `DateTime::naive_local`: the wall-clock
/// time now, which is always a valid date and time.
#[verifier::external_body]
pub(crate) fn now_local() -> (r: Timestamp)
    ensures
        r.wf(),
{
    let dt = chrono::Local::now().naive_local();
    Timestamp {
        year: dt.year(),
        month: dt.month(),
        day: dt.day(),
        hour: dt.hour(),
        minute: dt.minute(),
        second: dt.second(),
        nanosecond: dt.nanosecond(),
    }
}

/// Relies on chrono's `NaiveDateTime::from_str` (a date, `T`, and a time with an optional fraction): a
/// value it returns is a valid date and time.
#[verifier::external_body]
pub(crate) fn parse_datetime(s: &str) -> (r: Option<Timestamp>)
    ensures
        r == datetime_parsed(s@),
        r is Some ==> r->0.wf(),
{
    chrono::NaiveDateTime::from_str(s).ok().map(|dt| Timestamp {
        year: dt.year(),
        month: dt.month(),
        day: dt.day(),
        hour: dt.hour(),
        minute: dt.minute(),
        second: dt.second(),
        nanosecond: dt.nanosecond(),
    })
}

/// Relies on chrono's `NaiveDate::from_str` (`%Y-%m-%d`): a value it returns
/// is a valid date.
#[verifier::external_body]
pub(crate) fn parse_date(s: &str) -> (r: Option<(i32, u32, u32)>)
    ensures
        r == date_parsed(s@),
        match r {
            Some((y, m, d)) => valid_date(y as int, m as int, d as int),
            None => true,
        },
{
    chrono::NaiveDate::from_str(s).ok().map(|d| (d.year(), d.month(), d.day()))
}

/// Relies on chrono's `NaiveDate::from_ymd_opt`, which accepts every valid
/// date, and on `Display` for `NaiveDate`, which writes `YYYY-MM-DD` for the
/// years 0 to 9999.
#[verifier::external_body]
pub(crate) fn date_text(year: i32, month: u32, day: u32) -> (r: String)
    requires
        valid_date(year as int, month as int, day as int),
    ensures
        r@ == date_text_of(year as int, month as int, day as int),
        0 <= year <= 9999 ==> r@ == iso_date(year as int, month as int, day as int),
{
    chrono::NaiveDate::from_ymd_opt(year, month, day).map(|d| d.to_string()).unwrap_or_default()
}

} // verus!
