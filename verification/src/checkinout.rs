//! Check-in and check-out of a worker on a job.
//!
//! Times of day arrive and leave as "HH:MM" strings and are held as minutes
//! since midnight. Driving time arrives as separate hour and minute figures
//! and is stored as hundredths of hours; expenses arrive as a decimal string
//! and are stored as cents. A malformed time or expense field is invalid
//! client data and aborts before any mutation.

use vstd::prelude::*;
use vstd::string::StrSliceExecFns;

use crate::errors::CustomError;
use crate::money::decimal_cents_of;
use crate::money::digit_val;
use crate::money::is_plain_decimal;
use crate::money::is_digit;
use crate::money::plain_decimal_cents;
use crate::money::parse_money_cents;

verus! {

/// The minutes since midnight a five-character "HH:MM" string names, with
/// both fields zero-padded, the hour below 24 and the minute below 60.
pub open spec fn hhmm_value(s: Seq<char>) -> Option<u32> {
    if s.len() == 5 && is_digit(s[0]) && is_digit(s[1]) && s[2] == ':' && is_digit(s[3])
        && is_digit(s[4]) {
        let h = digit_val(s[0]) * 10 + digit_val(s[1]);
        let m = digit_val(s[3]) * 10 + digit_val(s[4]);
        if h < 24 && m < 60 {
            Some((h * 60 + m) as u32)
        } else {
            None
        }
    } else {
        None
    }
}

/// Parses an "HH:MM" time of day into minutes since midnight.
pub fn parse_hhmm(s: &str) -> (r: Option<u32>)
    ensures
        r == hhmm_value(s@),
{
    let n = s.unicode_len();
    if n != 5 {
        return None;
    }
    let c0 = s.get_char(0) as u32;
    let c1 = s.get_char(1) as u32;
    let sep = s.get_char(2);
    let c3 = s.get_char(3) as u32;
    let c4 = s.get_char(4) as u32;
    if c0 < 48 || c0 > 57 || c1 < 48 || c1 > 57 || sep != ':' || c3 < 48 || c3 > 57 || c4 < 48
        || c4 > 57 {
        return None;
    }
    let h = (c0 - 48) * 10 + (c1 - 48);
    let m = (c3 - 48) * 10 + (c4 - 48);
    if h < 24 && m < 60 {
        Some(h * 60 + m)
    } else {
        None
    }
}

/// The "HH:MM" display of minutes since midnight.
pub open spec fn hhmm_string(minutes: int) -> Seq<char> {
    crate::dates::two_digits(minutes / 60) + seq![':'] + crate::dates::two_digits(minutes % 60)
}

/// Formats minutes since midnight as "HH:MM".
pub fn format_hhmm(minutes: u32) -> (r: String)
    requires
        minutes < 1440,
    ensures
        r@ == hhmm_string(minutes as int),
{
    let mut s = String::new();
    crate::money::append_digit(&mut s, (minutes / 60 / 10) as u8);
    crate::money::append_digit(&mut s, (minutes / 60 % 10) as u8);
    s.append(":");
    crate::money::append_digit(&mut s, (minutes % 60 / 10) as u8);
    crate::money::append_digit(&mut s, (minutes % 60 % 10) as u8);
    proof {
        reveal_strlit(":");
        assert(s@ =~= hhmm_string(minutes as int));
    }
    s
}

/// The largest driving-time figure a submission may carry either way from
/// zero; it keeps the folded hour figure far from overflow.
pub const DRIVE_TIME_BOUND: i64 = 1000000000000000;

/// Driving time in hundredths of hours, from whole hours (hundredths) and
/// minutes (as hundredths of hours is minutes-with-two-decimals, the minute
/// figure is divided by sixty toward zero).
pub open spec fn drive_hours_h(hours_h: int, minutes_h: int) -> int {
    hours_h + (if minutes_h >= 0 {
        minutes_h / 60
    } else {
        -((-minutes_h) / 60)
    })
}

/// What a check-in/out submission stores on the job-worker row.
#[derive(Debug)]
pub struct CheckInOutUpdate {
    pub sign_in: Option<u32>,
    pub sign_out: Option<u32>,
    pub miles_driven_h: i64,
    pub hours_driven_h: i64,
    pub extra_expense_cents: i64,
    pub notes: String,
}

/// Validates a check-in/out submission: an empty time field clears the time,
/// a nonempty one must read "HH:MM"; the expense field must pass the decimal
/// parsing chain and a plain numeral of up to two decimal places stores its
/// exact cents; miles, notes and driving time are carried through, the
/// minutes folded into the hour figure.
pub fn checkinout_update(
    signin: &str,
    signout: &str,
    expenses: &str,
    miles_h: i64,
    hours_h: i64,
    minutes_h: i64,
    notes: &str,
) -> (r: Result<CheckInOutUpdate, CustomError>)
    requires
        -DRIVE_TIME_BOUND <= hours_h <= DRIVE_TIME_BOUND,
        -DRIVE_TIME_BOUND <= minutes_h <= DRIVE_TIME_BOUND,
    ensures
        (signin@.len() != 0 && hhmm_value(signin@) is None) ==> r == Err::<
            CheckInOutUpdate,
            CustomError,
        >(CustomError::InvalidClientData),
        (signout@.len() != 0 && hhmm_value(signout@) is None) ==> r == Err::<
            CheckInOutUpdate,
            CustomError,
        >(CustomError::InvalidClientData),
        decimal_cents_of(expenses@) is None ==> r == Err::<CheckInOutUpdate, CustomError>(
            CustomError::InvalidClientData,
        ),
        (r matches Ok(u) ==> {
            &&& u.sign_in == (if signin@.len() == 0 {
                None::<u32>
            } else {
                hhmm_value(signin@)
            })
            &&& u.sign_out == (if signout@.len() == 0 {
                None::<u32>
            } else {
                hhmm_value(signout@)
            })
            &&& u.miles_driven_h == miles_h
            &&& u.hours_driven_h == drive_hours_h(hours_h as int, minutes_h as int)
            &&& decimal_cents_of(expenses@) == Some(u.extra_expense_cents)
            &&& (is_plain_decimal(expenses@) && plain_decimal_cents(expenses@) <= i64::MAX
                ==> u.extra_expense_cents == plain_decimal_cents(expenses@))
            &&& u.notes@ == notes@
        }),
        (decimal_cents_of(expenses@) is Some && (signin@.len() == 0 || hhmm_value(signin@)
            is Some) && (signout@.len() == 0 || hhmm_value(signout@) is Some) ==> r is Ok),
        (is_plain_decimal(expenses@) && plain_decimal_cents(expenses@) <= i64::MAX && (
        signin@.len() == 0 || hhmm_value(signin@) is Some) && (signout@.len() == 0 || hhmm_value(
            signout@,
        ) is Some) ==> r is Ok),
        r is Err ==> r == Err::<CheckInOutUpdate, CustomError>(CustomError::InvalidClientData),
{
    let extra_expense_cents = match parse_money_cents(expenses) {
        Ok(v) => v,
        Err(_) => {
            return Err(CustomError::InvalidClientData);
        },
    };
    let sign_in = if signin.is_empty() {
        None
    } else {
        match parse_hhmm(signin) {
            Some(t) => Some(t),
            None => {
                return Err(CustomError::InvalidClientData);
            },
        }
    };
    let sign_out = if signout.is_empty() {
        None
    } else {
        match parse_hhmm(signout) {
            Some(t) => Some(t),
            None => {
                return Err(CustomError::InvalidClientData);
            },
        }
    };
    let frac: i64 = if minutes_h >= 0 {
        minutes_h / 60
    } else {
        -((-minutes_h) / 60)
    };
    Ok(
        CheckInOutUpdate {
            sign_in,
            sign_out,
            miles_driven_h: miles_h,
            hours_driven_h: hours_h + frac,
            extra_expense_cents,
            notes: notes.to_owned(),
        },
    )
}

/// Splits a driving-time figure in hundredths of hours back into the whole
/// hours and the minutes the check-in form shows, the minutes themselves in
/// hundredths so that nothing is lost: resubmitting the split through
/// `checkinout_update` stores the figure unchanged.
pub fn split_drive_time(hours_h: i64) -> (r: (i64, i64))
    requires
        hours_h >= 0,
    ensures
        r.0 == hours_h as int / 100,
        r.1 == (hours_h as int % 100) * 60,
        drive_hours_h(r.0 * 100, r.1 as int) == hours_h,
{
    let whole = hours_h / 100;
    let minutes_h = (hours_h % 100) * 60;
    proof {
        assert(minutes_h / 60 == hours_h % 100) by (nonlinear_arith)
            requires
                minutes_h == (hours_h as int % 100) * 60 && hours_h >= 0,
        ;
    }
    (whole, minutes_h)
}

} // verus!
