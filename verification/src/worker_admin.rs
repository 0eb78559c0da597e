//! Administration of worker accounts: parsing the create and change forms,
//! and rendering the pay rates back for display.
//!
//! Pay rates arrive as decimal strings and are stored as cents. The admin
//! checkbox arrives as one of a few accepted words; anything else is invalid
//! client data.

use vstd::prelude::*;

use crate::auth::Worker;
use crate::errors::CustomError;
use crate::money::decimal_cents_of;
use crate::money::is_plain_decimal;
use crate::money::plain_decimal_cents;
use crate::money::parse_money_cents;
use crate::money::format_hundredths;
use crate::money::signed_hundredths_string;
use crate::text::str_eq;

verus! {

/// The form that deactivates one worker.
#[derive(Debug, Clone, Copy, PartialEq, Eq, Structural)]
pub struct DeactivateForm {
    pub user: i64,
}

/// The form that restores one deactivated worker.
#[derive(Debug, Clone, Copy, PartialEq, Eq, Structural)]
pub struct RestoreForm {
    pub user: i64,
}

/// A worker's four pay rates, in cents.
#[derive(Debug, Clone, Copy, PartialEq, Eq, Structural)]
pub struct WorkerRates {
    pub hourly_cents: i64,
    pub mileage_cents: i64,
    pub drive_hourly_cents: i64,
    pub flat_rate_cents: i64,
}

/// Whether the submitted admin field names the role: a recognised yes-word,
/// a recognised no-word or an absent field decide it; any other word is
/// invalid client data.
pub open spec fn admin_flag_value(v: Option<Seq<char>>) -> Result<bool, CustomError> {
    match v {
        None => Ok(false),
        Some(s) => if s == "on"@ || s == "true"@ || s == "yes"@ {
            Ok(true)
        } else if s == "off"@ || s == "false"@ || s == "no"@ {
            Ok(false)
        } else {
            Err(CustomError::InvalidClientData)
        },
    }
}

/// Parses the admin checkbox field.
pub fn parse_admin_flag(v: &Option<String>) -> (r: Result<bool, CustomError>)
    ensures
        r == admin_flag_value(match v {
            Some(s) => Some(s@),
            None => None::<Seq<char>>,
        }),
{
    match v {
        None => Ok(false),
        Some(s) => {
            let t = s.as_str();
            if str_eq(t, "on") || str_eq(t, "true") || str_eq(t, "yes") {
                Ok(true)
            } else if str_eq(t, "off") || str_eq(t, "false") || str_eq(t, "no") {
                Ok(false)
            } else {
                Err(CustomError::InvalidClientData)
            }
        },
    }
}

/// Parses the four rate fields of the worker form into cents: a plain
/// numeral of up to two decimal places stores exactly one hundred times its
/// value, and a field the decimal parsing chain rejects is invalid client
/// data.
pub fn parse_rates(hourly: &str, mileage: &str, drivetime: &str, flatrate: &str) -> (r: Result<
    WorkerRates,
    CustomError,
>)
    ensures
        (r matches Ok(w) ==> {
            &&& decimal_cents_of(hourly@) == Some(w.hourly_cents)
            &&& decimal_cents_of(mileage@) == Some(w.mileage_cents)
            &&& decimal_cents_of(drivetime@) == Some(w.drive_hourly_cents)
            &&& decimal_cents_of(flatrate@) == Some(w.flat_rate_cents)
            &&& (is_plain_decimal(hourly@) && plain_decimal_cents(hourly@) <= i64::MAX
                ==> w.hourly_cents == plain_decimal_cents(hourly@))
            &&& (is_plain_decimal(mileage@) && plain_decimal_cents(mileage@) <= i64::MAX
                ==> w.mileage_cents == plain_decimal_cents(mileage@))
            &&& (is_plain_decimal(drivetime@) && plain_decimal_cents(drivetime@) <= i64::MAX
                ==> w.drive_hourly_cents == plain_decimal_cents(drivetime@))
            &&& (is_plain_decimal(flatrate@) && plain_decimal_cents(flatrate@) <= i64::MAX
                ==> w.flat_rate_cents == plain_decimal_cents(flatrate@))
        }),
        (r is Err <==> (decimal_cents_of(hourly@) is None || decimal_cents_of(mileage@) is None
            || decimal_cents_of(drivetime@) is None || decimal_cents_of(flatrate@) is None)),
        r is Err ==> r == Err::<WorkerRates, CustomError>(CustomError::InvalidClientData),
{
    let hourly_cents = match parse_money_cents(hourly) {
        Ok(v) => v,
        Err(_) => {
            return Err(CustomError::InvalidClientData);
        },
    };
    let mileage_cents = match parse_money_cents(mileage) {
        Ok(v) => v,
        Err(_) => {
            return Err(CustomError::InvalidClientData);
        },
    };
    let drive_hourly_cents = match parse_money_cents(drivetime) {
        Ok(v) => v,
        Err(_) => {
            return Err(CustomError::InvalidClientData);
        },
    };
    let flat_rate_cents = match parse_money_cents(flatrate) {
        Ok(v) => v,
        Err(_) => {
            return Err(CustomError::InvalidClientData);
        },
    };
    Ok(WorkerRates { hourly_cents, mileage_cents, drive_hourly_cents, flat_rate_cents })
}

/// Parses the whole worker form: the four rates, then the admin flag, as the
/// form handler does.
pub fn parse_worker_profile(
    hourly: &str,
    mileage: &str,
    drivetime: &str,
    flatrate: &str,
    admin: &Option<String>,
) -> (r: Result<(WorkerRates, bool), CustomError>)
    ensures
        (r matches Ok(p) ==> {
            &&& decimal_cents_of(hourly@) == Some(p.0.hourly_cents)
            &&& decimal_cents_of(mileage@) == Some(p.0.mileage_cents)
            &&& decimal_cents_of(drivetime@) == Some(p.0.drive_hourly_cents)
            &&& decimal_cents_of(flatrate@) == Some(p.0.flat_rate_cents)
            &&& (is_plain_decimal(hourly@) && plain_decimal_cents(hourly@) <= i64::MAX
                ==> p.0.hourly_cents == plain_decimal_cents(hourly@))
            &&& (is_plain_decimal(mileage@) && plain_decimal_cents(mileage@) <= i64::MAX
                ==> p.0.mileage_cents == plain_decimal_cents(mileage@))
            &&& (is_plain_decimal(drivetime@) && plain_decimal_cents(drivetime@) <= i64::MAX
                ==> p.0.drive_hourly_cents == plain_decimal_cents(drivetime@))
            &&& (is_plain_decimal(flatrate@) && plain_decimal_cents(flatrate@) <= i64::MAX
                ==> p.0.flat_rate_cents == plain_decimal_cents(flatrate@))
            &&& Ok::<bool, CustomError>(p.1) == admin_flag_value(
                match admin {
                    Some(s) => Some(s@),
                    None => None::<Seq<char>>,
                },
            )
        }),
        (r is Err <==> (decimal_cents_of(hourly@) is None || decimal_cents_of(mileage@) is None
            || decimal_cents_of(drivetime@) is None || decimal_cents_of(flatrate@) is None
            || admin_flag_value(
            match admin {
                Some(s) => Some(s@),
                None => None::<Seq<char>>,
            },
        ) is Err)),
        r is Err ==> r == Err::<(WorkerRates, bool), CustomError>(CustomError::InvalidClientData),
{
    let rates = match parse_rates(hourly, mileage, drivetime, flatrate) {
        Ok(w) => w,
        Err(_) => {
            return Err(CustomError::InvalidClientData);
        },
    };
    let admin_flag = match parse_admin_flag(admin) {
        Ok(b) => b,
        Err(_) => {
            return Err(CustomError::InvalidClientData);
        },
    };
    Ok((rates, admin_flag))
}

/// A worker's pay rates as the edit page displays them, two decimals each.
pub struct WorkerRatesDisplay {
    pub hourly: String,
    pub mileage: String,
    pub drive_hourly: String,
    pub flat_rate: String,
}

/// Renders a worker's stored rates for the edit page.
pub fn rates_display(w: &Worker) -> (r: WorkerRatesDisplay)
    requires
        w.rate_hourly_cents > i64::MIN,
        w.rate_mileage_cents > i64::MIN,
        w.rate_drive_hourly_cents > i64::MIN,
        w.flat_rate_cents > i64::MIN,
    ensures
        r.hourly@ == signed_hundredths_string(w.rate_hourly_cents as int),
        r.mileage@ == signed_hundredths_string(w.rate_mileage_cents as int),
        r.drive_hourly@ == signed_hundredths_string(w.rate_drive_hourly_cents as int),
        r.flat_rate@ == signed_hundredths_string(w.flat_rate_cents as int),
{
    WorkerRatesDisplay {
        hourly: format_hundredths(w.rate_hourly_cents),
        mileage: format_hundredths(w.rate_mileage_cents),
        drive_hourly: format_hundredths(w.rate_drive_hourly_cents),
        flat_rate: format_hundredths(w.flat_rate_cents),
    }
}

} // verus!
