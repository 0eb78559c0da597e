//! Calendar dates as plain values.
//!
//! A date is a year, month and day in the proleptic Gregorian calendar,
//! within years 1 through 9999. The pay period defaults implement
//! semi-monthly payroll: a period starts on the 1st or the 16th of the month
//! and ends on the current date. The current date itself is configuration the
//! caller injects; nothing here reads a clock.

use vstd::prelude::*;
use vstd::string::StringExecFns;

use crate::money::dec_digits;
use crate::money::digit_char;

verus! {

/// A calendar date.
#[derive(Debug, Clone, Copy, PartialEq, Eq, Structural)]
pub struct Date {
    pub year: i32,
    pub month: u8,
    pub day: u8,
}

pub open spec fn is_leap_year(y: int) -> bool {
    y % 4 == 0 && (y % 100 != 0 || y % 400 == 0)
}

pub open spec fn days_in_month(y: int, m: int) -> int {
    if m == 2 {
        if is_leap_year(y) {
            29
        } else {
            28
        }
    } else if m == 4 || m == 6 || m == 9 || m == 11 {
        30
    } else {
        31
    }
}

pub open spec fn valid_date(d: Date) -> bool {
    &&& 1 <= d.year <= 9999
    &&& 1 <= d.month <= 12
    &&& 1 <= d.day <= days_in_month(d.year as int, d.month as int)
}

impl Date {
    /// The day after this date.
    pub open spec fn next_spec(self) -> Date {
        if self.day < days_in_month(self.year as int, self.month as int) {
            Date { day: (self.day + 1) as u8, ..self }
        } else if self.month < 12 {
            Date { month: (self.month + 1) as u8, day: 1, ..self }
        } else {
            Date { year: (self.year + 1) as i32, month: 1, day: 1 }
        }
    }

    /// This date moved forward by `n` days.
    pub open spec fn plus_days_spec(self, n: nat) -> Date
        decreases n,
    {
        if n == 0 {
            self
        } else {
            self.next_spec().plus_days_spec((n - 1) as nat)
        }
    }

    /// The day after this date.
    pub fn next(self) -> (r: Date)
        requires
            valid_date(self),
            self.year < 9999 || !(self.month == 12 && self.day == 31),
        ensures
            r == self.next_spec(),
            valid_date(r),
    {
        let dim = days_in_month_exec(self.year, self.month);
        if self.day < dim {
            Date { day: self.day + 1, ..self }
        } else if self.month < 12 {
            Date { month: self.month + 1, day: 1, ..self }
        } else {
            Date { year: self.year + 1, month: 1, day: 1 }
        }
    }

    /// This date moved forward by `n` days. Walking at most a year crosses
    /// at most one year boundary, so the result stays within the supported
    /// range.
    pub fn plus_days(self, n: u32) -> (r: Date)
        requires
            valid_date(self),
            n <= 365,
            self.year < 9999,
        ensures
            r == self.plus_days_spec(n as nat),
            valid_date(r),
    {
        let mut d = self;
        let mut left: u32 = n;
        while left > 0
            invariant
                valid_date(d),
                d.plus_days_spec(left as nat) == self.plus_days_spec(n as nat),
                left <= 365,
                self.year < 9999,
                d.year <= self.year + 1,
                d.year == self.year + 1 ==> left + day_of_year(d) <= days_in_year(
                    d.year as int,
                ) - 1,
            decreases left,
        {
            proof {
                lemma_day_of_year_bounds(d);
                lemma_next_day_of_year(d);
            }
            d = d.next();
            left = left - 1;
        }
        d
    }
}

/// Days of the year before month `m` begins.
pub open spec fn days_before_month(y: int, m: int) -> int {
    let leap: int = if is_leap_year(y) {
        1
    } else {
        0
    };
    if m == 1 {
        0
    } else if m == 2 {
        31
    } else if m == 3 {
        59 + leap
    } else if m == 4 {
        90 + leap
    } else if m == 5 {
        120 + leap
    } else if m == 6 {
        151 + leap
    } else if m == 7 {
        181 + leap
    } else if m == 8 {
        212 + leap
    } else if m == 9 {
        243 + leap
    } else if m == 10 {
        273 + leap
    } else if m == 11 {
        304 + leap
    } else {
        334 + leap
    }
}

/// Zero-based ordinal of the date within its year.
pub open spec fn day_of_year(d: Date) -> int {
    days_before_month(d.year as int, d.month as int) + d.day - 1
}

pub open spec fn days_in_year(y: int) -> int {
    if is_leap_year(y) {
        366
    } else {
        365
    }
}

proof fn lemma_day_of_year_bounds(d: Date)
    requires
        valid_date(d),
    ensures
        0 <= day_of_year(d) <= days_in_year(d.year as int) - 1,
{
}

proof fn lemma_next_day_of_year(d: Date)
    requires
        valid_date(d),
    ensures
        d.month == 12 && d.day == 31 ==> d.next_spec() == (Date {
            year: (d.year + 1) as i32,
            month: 1,
            day: 1,
        }),
        !(d.month == 12 && d.day == 31) ==> d.next_spec().year == d.year && day_of_year(
            d.next_spec(),
        ) == day_of_year(d) + 1,
{
}

/// The number of days in the given month.
pub fn days_in_month_exec(year: i32, month: u8) -> (r: u8)
    requires
        1 <= month <= 12,
    ensures
        r as int == days_in_month(year as int, month as int),
{
    if month == 2 {
        if (year % 4 == 0) && (year % 100 != 0 || year % 400 == 0) {
            29
        } else {
            28
        }
    } else if month == 4 || month == 6 || month == 9 || month == 11 {
        30
    } else {
        31
    }
}

/// The default start of the pay period containing `today`: the 1st of the
/// month through the 15th, the 16th afterwards.
pub fn default_period_start(today: Date) -> (r: Date)
    requires
        valid_date(today),
    ensures
        today.day <= 15 ==> r == (Date { day: 1, ..today }),
        today.day > 15 ==> r == (Date { day: 16, ..today }),
        valid_date(r),
{
    if today.day <= 15 {
        Date { day: 1, ..today }
    } else {
        Date { day: 16, ..today }
    }
}

/// The default pay period when the client names no range: from the
/// semi-monthly boundary through today.
pub fn default_period(today: Date, start: Option<Date>, end: Option<Date>) -> (r: (Date, Date))
    requires
        valid_date(today),
    ensures
        r.0 == (match start {
            Some(s) => s,
            None => if today.day <= 15 {
                Date { day: 1, ..today }
            } else {
                Date { day: 16, ..today }
            },
        }),
        r.1 == (match end {
            Some(e) => e,
            None => today,
        }),
        (start is None) ==> valid_date(r.0),
        (end is None) ==> valid_date(r.1),
{
    let s = match start {
        Some(s) => s,
        None => default_period_start(today),
    };
    let e = match end {
        Some(e) => e,
        None => today,
    };
    (s, e)
}

/// The default job search window when the client names no range: from today
/// through fifteen days out.
pub fn default_search_range(today: Date, start: Option<Date>, end: Option<Date>) -> (r: (
    Date,
    Date,
))
    requires
        valid_date(today),
        today.year < 9999,
    ensures
        r.0 == (match start {
            Some(s) => s,
            None => today,
        }),
        r.1 == (match end {
            Some(e) => e,
            None => today.plus_days_spec(15),
        }),
        (start is None) ==> valid_date(r.0),
        (end is None) ==> valid_date(r.1),
{
    let s = match start {
        Some(s) => s,
        None => today,
    };
    let e = match end {
        Some(e) => e,
        None => today.plus_days(15),
    };
    (s, e)
}

/// The zero-padded two-digit numeral of `n`.
pub open spec fn two_digits(n: int) -> Seq<char> {
    seq![digit_char(n / 10), digit_char(n % 10)]
}

/// The zero-padded four-digit numeral of `n`.
pub open spec fn four_digits(n: int) -> Seq<char> {
    seq![
        digit_char(n / 1000 % 10),
        digit_char(n / 100 % 10),
        digit_char(n / 10 % 10),
        digit_char(n % 10),
    ]
}

/// The ISO display of a date: four-digit year, two-digit month and day,
/// separated by hyphens.
pub open spec fn iso_date_string(d: Date) -> Seq<char> {
    four_digits(d.year as int) + seq!['-'] + two_digits(d.month as int) + seq!['-'] + two_digits(
        d.day as int,
    )
}

/// The English name of month `m`.
pub open spec fn month_name(m: int) -> Seq<char> {
    if m == 1 {
        "January"@
    } else if m == 2 {
        "February"@
    } else if m == 3 {
        "March"@
    } else if m == 4 {
        "April"@
    } else if m == 5 {
        "May"@
    } else if m == 6 {
        "June"@
    } else if m == 7 {
        "July"@
    } else if m == 8 {
        "August"@
    } else if m == 9 {
        "September"@
    } else if m == 10 {
        "October"@
    } else if m == 11 {
        "November"@
    } else {
        "December"@
    }
}

/// The long display of a date: month name, day, a comma, and the year.
pub open spec fn long_date_string(d: Date) -> Seq<char> {
    month_name(d.month as int) + seq![' '] + dec_digits(d.day as nat) + seq![',', ' ']
        + dec_digits(d.year as nat)
}

fn append_two_digits(s: &mut String, n: u8)
    requires
        n < 100,
    ensures
        final(s)@ == old(s)@ + two_digits(n as int),
{
    crate::money::append_digit(s, n / 10);
    crate::money::append_digit(s, n % 10);
    proof {
        assert(s@ =~= old(s)@ + two_digits(n as int));
    }
}

/// The ISO "year-month-day" display of a date.
pub fn format_iso_date(d: Date) -> (r: String)
    requires
        valid_date(d),
    ensures
        r@ == iso_date_string(d),
{
    let y = d.year;
    let mut s = String::new();
    crate::money::append_digit(&mut s, (y / 1000 % 10) as u8);
    crate::money::append_digit(&mut s, (y / 100 % 10) as u8);
    crate::money::append_digit(&mut s, (y / 10 % 10) as u8);
    crate::money::append_digit(&mut s, (y % 10) as u8);
    s.append("-");
    append_two_digits(&mut s, d.month);
    s.append("-");
    append_two_digits(&mut s, d.day);
    proof {
        reveal_strlit("-");
        assert(s@ =~= iso_date_string(d));
    }
    s
}

fn month_name_str(m: u8) -> (r: &'static str)
    requires
        1 <= m <= 12,
    ensures
        r@ == month_name(m as int),
{
    match m {
        1 => "January",
        2 => "February",
        3 => "March",
        4 => "April",
        5 => "May",
        6 => "June",
        7 => "July",
        8 => "August",
        9 => "September",
        10 => "October",
        11 => "November",
        _ => "December",
    }
}

/// The long "Month day, year" display of a date.
pub fn format_long_date(d: Date) -> (r: String)
    requires
        valid_date(d),
    ensures
        r@ == long_date_string(d),
{
    let mut s = String::from_str(month_name_str(d.month));
    s.append(" ");
    crate::money::append_dec(&mut s, d.day as u64);
    s.append(", ");
    crate::money::append_dec(&mut s, d.year as u64);
    proof {
        reveal_strlit(" ");
        reveal_strlit(", ");
        assert(s@ =~= long_date_string(d));
    }
    s
}

} // verus!
