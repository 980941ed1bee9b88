//! Calendar dates and times of day, held as plain numbers; their text comes
//! from `chrono`.
use vstd::prelude::*;

use crate::text::{digit_char, nat_text};

verus! {

/// The earliest year that a date may have.
pub const MIN_YEAR: i32 = -262143;

/// The latest year that a date may have.
pub const MAX_YEAR: i32 = 262142;

/// A leap year of the proleptic Gregorian calendar.
pub open spec fn is_leap_year(y: int) -> bool {
    (y % 4 == 0 && y % 100 != 0) || y % 400 == 0
}

/// The number of days of month `m` (1 to 12) in year `y`.
pub open spec fn days_in_month(y: int, m: int) -> int {
    if m == 2 {
        if is_leap_year(y) {
            29
        } else {
            28
        }
    } else if m == 4 || m == 6 || m == 9 || m == 11 {
        30
    } else {
        31
    }
}

/// A calendar date that exists, within the years that a date may have.
pub open spec fn date_valid(y: int, m: int, d: int) -> bool {
    &&& MIN_YEAR <= y <= MAX_YEAR
    &&& 1 <= m <= 12
    &&& 1 <= d <= days_in_month(y, m)
}

/// A time of day; a nanosecond count of a second or more marks a leap
/// second, which only the 59th second may hold.
pub open spec fn time_valid(h: int, mi: int, s: int, nano: int) -> bool {
    &&& 0 <= h < 24
    &&& 0 <= mi < 60
    &&& 0 <= s < 60
    &&& 0 <= nano < 2_000_000_000
    &&& nano >= 1_000_000_000 ==> s == 59
}

/// `t` preceded by zeros up to `width` characters.
pub open spec fn zero_padded(t: Seq<char>, width: nat) -> Seq<char> {
    if t.len() >= width {
        t
    } else {
        Seq::new((width - t.len()) as nat, |i: int| '0') + t
    }
}

/// Two decimal digits of `n` (0 to 99).
pub open spec fn two_digits(n: int) -> Seq<char> {
    seq![digit_char(n / 10), digit_char(n % 10)]
}

/// The text of a year: four digits from 0 to 9999, else an explicit sign and
/// at least four digits.
pub open spec fn year_text(y: int) -> Seq<char> {
    if 0 <= y <= 9999 {
        zero_padded(nat_text(y as nat), 4)
    } else if y < 0 {
        seq!['-'] + zero_padded(nat_text((-y) as nat), 4)
    } else {
        seq!['+'] + zero_padded(nat_text(y as nat), 4)
    }
}

/// The text of a date: `YYYY-MM-DD`.
pub open spec fn date_text(y: int, m: int, d: int) -> Seq<char> {
    year_text(y) + seq!['-'] + two_digits(m) + seq!['-'] + two_digits(d)
}

/// The fraction of a second after the seconds: nothing for none, else a dot
/// and three, six or nine digits, the fewest that hold it exactly.
pub open spec fn fraction_text(nano: int) -> Seq<char> {
    if nano == 0 {
        seq![]
    } else if nano % 1_000_000 == 0 {
        seq!['.'] + zero_padded(nat_text((nano / 1_000_000) as nat), 3)
    } else if nano % 1_000 == 0 {
        seq!['.'] + zero_padded(nat_text((nano / 1_000) as nat), 6)
    } else {
        seq!['.'] + zero_padded(nat_text(nano as nat), 9)
    }
}

/// The text of a time of day: `HH:MM:SS` and a fraction; a leap second
/// shows as second 60.
pub open spec fn time_text(h: int, mi: int, s: int, nano: int) -> Seq<char> {
    let (sec, frac) = if nano >= 1_000_000_000 {
        (s + 1, nano - 1_000_000_000)
    } else {
        (s, nano)
    };
    two_digits(h) + seq![':'] + two_digits(mi) + seq![':'] + two_digits(sec) + fraction_text(frac)
}

/// Relies on `chrono::NaiveDate::from_ymd_opt`: it gives a date exactly for
/// an existing calendar date within chrono's years.
#[verifier::external_body]
fn chrono_date_exists(y: i32, m: u32, d: u32) -> (r: bool)
    ensures
        r == date_valid(y as int, m as int, d as int),
{
    chrono::NaiveDate::from_ymd_opt(y, m, d).is_some()
}

/// Relies on `chrono::NaiveTime::from_hms_nano_opt`: it gives a time exactly
/// for the values that `time_valid` admits.
#[verifier::external_body]
fn chrono_time_exists(h: u32, mi: u32, s: u32, nano: u32) -> (r: bool)
    ensures
        r == time_valid(h as int, mi as int, s as int, nano as int),
{
    chrono::NaiveTime::from_hms_nano_opt(h, mi, s, nano).is_some()
}

/// Relies on chrono's `Display` for `NaiveDate`: `%Y-%m-%d`, with a sign on
/// years outside 0 to 9999.
#[verifier::external_body]
fn chrono_date_display(y: i32, m: u32, d: u32) -> (r: String)
    requires
        date_valid(y as int, m as int, d as int),
    ensures
        r@ == date_text(y as int, m as int, d as int),
{
    chrono::NaiveDate::from_ymd_opt(y, m, d).unwrap().to_string()
}

/// Relies on chrono's `Display` for `NaiveTime`: `%H:%M:%S` and the shortest
/// of three, six or nine fraction digits.
#[verifier::external_body]
fn chrono_time_display(h: u32, mi: u32, s: u32, nano: u32) -> (r: String)
    requires
        time_valid(h as int, mi as int, s as int, nano as int),
    ensures
        r@ == time_text(h as int, mi as int, s as int, nano as int),
{
    chrono::NaiveTime::from_hms_nano_opt(h, mi, s, nano).unwrap().to_string()
}

/// Relies on chrono's `Display` for `NaiveDateTime`: the date, a space and
/// the time.
#[verifier::external_body]
fn chrono_datetime_display(date: &SqlDate, time: &SqlTime) -> (r: String)
    requires
        date_valid(date.year as int, date.month as int, date.day as int),
        time_valid(time.hour as int, time.minute as int, time.second as int, time.nano as int),
    ensures
        r@ == date_text(date.year as int, date.month as int, date.day as int) + seq![' ']
            + time_text(time.hour as int, time.minute as int, time.second as int, time.nano as int),
{
    let d = chrono::NaiveDate::from_ymd_opt(date.year, date.month, date.day).unwrap();
    let t = chrono::NaiveTime::from_hms_nano_opt(time.hour, time.minute, time.second, time.nano);
    chrono::NaiveDateTime::new(d, t.unwrap()).to_string()
}

/// A calendar date.
#[derive(Clone, Copy, Debug, PartialEq, Eq, Structural)]
pub struct SqlDate {
    year: i32,
    month: u32,
    day: u32,
}

/// A time of day, to the nanosecond.
#[derive(Clone, Copy, Debug, PartialEq, Eq, Structural)]
pub struct SqlTime {
    hour: u32,
    minute: u32,
    second: u32,
    nano: u32,
}

/// A date and a time of day.
#[derive(Clone, Copy, Debug, PartialEq, Eq, Structural)]
pub struct SqlDateTime {
    pub date: SqlDate,
    pub time: SqlTime,
}

impl SqlDate {
    #[verifier::type_invariant]
    spec fn inv(self) -> bool {
        date_valid(self.year as int, self.month as int, self.day as int)
    }

    pub closed spec fn spec_year(self) -> int {
        self.year as int
    }

    pub closed spec fn spec_month(self) -> int {
        self.month as int
    }

    pub closed spec fn spec_day(self) -> int {
        self.day as int
    }

    /// The text of this date.
    pub open spec fn text(self) -> Seq<char> {
        date_text(self.spec_year(), self.spec_month(), self.spec_day())
    }

    /// The date of year `year`, month `month` (1 to 12) and day `day`, if it
    /// exists.
    pub fn new(year: i32, month: u32, day: u32) -> (r: Option<SqlDate>)
        ensures
            r is Some <==> date_valid(year as int, month as int, day as int),
            r matches Some(d) ==> d.spec_year() == year && d.spec_month() == month
                && d.spec_day() == day,
    {
        if chrono_date_exists(year, month, day) {
            Some(SqlDate { year, month, day })
        } else {
            None
        }
    }

    pub fn year(&self) -> (r: i32)
        ensures
            r == self.spec_year(),
    {
        self.year
    }

    pub fn month(&self) -> (r: u32)
        ensures
            r == self.spec_month(),
    {
        self.month
    }

    pub fn day(&self) -> (r: u32)
        ensures
            r == self.spec_day(),
    {
        self.day
    }

    /// The text of this date, `YYYY-MM-DD`.
    pub fn to_text(&self) -> (r: String)
        ensures
            r@ == self.text(),
    {
        proof {
            use_type_invariant(self);
        }
        chrono_date_display(self.year, self.month, self.day)
    }
}

impl SqlTime {
    #[verifier::type_invariant]
    spec fn inv(self) -> bool {
        time_valid(self.hour as int, self.minute as int, self.second as int, self.nano as int)
    }

    pub closed spec fn spec_hour(self) -> int {
        self.hour as int
    }

    pub closed spec fn spec_minute(self) -> int {
        self.minute as int
    }

    pub closed spec fn spec_second(self) -> int {
        self.second as int
    }

    pub closed spec fn spec_nano(self) -> int {
        self.nano as int
    }

    /// The text of this time of day.
    pub open spec fn text(self) -> Seq<char> {
        time_text(self.spec_hour(), self.spec_minute(), self.spec_second(), self.spec_nano())
    }

    /// The time `hour:minute:second` and `nano` nanoseconds, if it is one.
    pub fn new(hour: u32, minute: u32, second: u32, nano: u32) -> (r: Option<SqlTime>)
        ensures
            r is Some <==> time_valid(hour as int, minute as int, second as int, nano as int),
            r matches Some(t) ==> t.spec_hour() == hour && t.spec_minute() == minute
                && t.spec_second() == second && t.spec_nano() == nano,
    {
        if chrono_time_exists(hour, minute, second, nano) {
            Some(SqlTime { hour, minute, second, nano })
        } else {
            None
        }
    }

    pub fn hour(&self) -> (r: u32)
        ensures
            r == self.spec_hour(),
    {
        self.hour
    }

    pub fn minute(&self) -> (r: u32)
        ensures
            r == self.spec_minute(),
    {
        self.minute
    }

    pub fn second(&self) -> (r: u32)
        ensures
            r == self.spec_second(),
    {
        self.second
    }

    pub fn nano(&self) -> (r: u32)
        ensures
            r == self.spec_nano(),
    {
        self.nano
    }

    /// The text of this time, `HH:MM:SS` with a fraction where there is one.
    pub fn to_text(&self) -> (r: String)
        ensures
            r@ == self.text(),
    {
        proof {
            use_type_invariant(self);
        }
        chrono_time_display(self.hour, self.minute, self.second, self.nano)
    }
}

impl SqlDateTime {
    /// The text of this moment: the date, a space and the time.
    pub open spec fn text(self) -> Seq<char> {
        self.date.text() + seq![' '] + self.time.text()
    }

    pub fn new(date: SqlDate, time: SqlTime) -> (r: SqlDateTime)
        ensures
            r.date == date && r.time == time,
    {
        SqlDateTime { date, time }
    }

    /// The text of this moment, `YYYY-MM-DD HH:MM:SS`.
    pub fn to_text(&self) -> (r: String)
        ensures
            r@ == self.text(),
    {
        proof {
            use_type_invariant(&self.date);
            use_type_invariant(&self.time);
        }
        chrono_datetime_display(&self.date, &self.time)
    }
}

} // verus!
