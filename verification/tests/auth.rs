use cz4r::auth::authenticate;
use cz4r::auth::change_pw_decision;
use cz4r::auth::deactivate_guard;
use cz4r::auth::get_admin;
use cz4r::auth::get_user;
use cz4r::auth::login_decision;
use cz4r::auth::require_self_or_admin;
use cz4r::auth::selected_worker;
use cz4r::auth::ChangePwOutcome;
use cz4r::auth::LoginOutcome;
use cz4r::auth::LoginPageForm;
use cz4r::auth::Worker;
use cz4r::errors::CustomError;

fn worker(id: i64, admin: bool, hash: String, salt: String) -> Worker {
    Worker {
        id,
        name: String::from("pat"),
        hash,
        salt,
        admin,
        address: String::new(),
        phone: String::new(),
        email: String::new(),
        rate_hourly_cents: 2500,
        rate_mileage_cents: 67,
        rate_drive_hourly_cents: 1500,
        flat_rate_cents: 10000,
        must_change_pw: false,
        deactivated: false,
    }
}

#[test]
fn no_session_is_authentication_required() {
    assert_eq!(get_user(&None).unwrap_err(), CustomError::AuthenticationRequired);
    assert_eq!(get_admin(&None).unwrap_err(), CustomError::AuthenticationRequired);
}

#[test]
fn non_admin_is_authorization_denied() {
    let w = worker(3, false, String::new(), String::new());
    let (id, name, admin) = get_user(&Some(w.clone())).unwrap();
    assert_eq!((id, name.as_str(), admin), (3, "pat", false));
    assert_eq!(get_admin(&Some(w)).unwrap_err(), CustomError::AuthorizationDenied);
}

#[test]
fn worker_scope_gate() {
    assert!(require_self_or_admin(7, false, 7).is_ok());
    assert!(require_self_or_admin(7, true, 9).is_ok());
    assert_eq!(
        require_self_or_admin(7, false, 9).unwrap_err(),
        CustomError::AuthorizationDenied
    );
}

#[test]
fn nobody_deactivates_themselves() {
    assert!(deactivate_guard(1, 2).is_ok());
    assert_eq!(deactivate_guard(1, 1).unwrap_err(), CustomError::AuthorizationDenied);
}

// The scrypt scheme at its recommended parameters is deliberately slow, so
// no test derives a real hash; the tests below exercise every decision path
// that does not reach the key-derivation call.

#[test]
fn missing_account_never_authenticates() {
    assert!(authenticate(None, "hunter2").is_none());
}

#[test]
fn bad_salt_never_authenticates() {
    let w = worker(4, false, String::from("x"), String::from("!!"));
    assert!(authenticate(Some(w), "anything").is_none());
}

#[test]
fn login_outcomes_before_the_password_check() {
    assert_eq!(login_decision(None, "pw"), LoginOutcome::Failure);
    let good = worker(5, false, String::from("h"), String::from("!!"));
    let mut gone = good.clone();
    gone.deactivated = true;
    assert_eq!(login_decision(Some(gone), "pw"), LoginOutcome::Failure);
    let mut fresh = good.clone();
    fresh.must_change_pw = true;
    assert_eq!(login_decision(Some(fresh), "pw"), LoginOutcome::MustChangePw(5));
    // an account whose stored salt the hasher rejects fails cleanly
    assert_eq!(login_decision(Some(good), "pw"), LoginOutcome::Failure);
}

#[test]
fn change_pw_outcomes() {
    assert!(matches!(change_pw_decision(false, "a", "a"), ChangePwOutcome::Denied));
    assert!(matches!(change_pw_decision(true, "a", "b"), ChangePwOutcome::NoMatch));
}

#[test]
fn change_pw_page_needs_a_worker_id() {
    assert_eq!(selected_worker(Some(9)), Ok(9));
    assert_eq!(selected_worker(None), Err(CustomError::InvalidClientData));
}

#[test]
fn login_page_failure_banner() {
    assert!(LoginPageForm { failure: Some(true) }.failure_flag());
    assert!(!LoginPageForm { failure: Some(false) }.failure_flag());
    assert!(!LoginPageForm { failure: None }.failure_flag());
}

#[test]
fn error_messages_name_the_failure() {
    assert_eq!(CustomError::AuthenticationRequired.message(), "Not logged in");
    assert_eq!(CustomError::PersistenceFailure.message(), "Data store error");
}
#[test]
fn stored_rates_render_with_two_decimals() {
    let w = worker(8, false, String::new(), String::new());
    assert_eq!(w.id(), 8);
    let shown = cz4r::worker_admin::rates_display(&w);
    assert_eq!(shown.hourly, "25.00");
    assert_eq!(shown.mileage, "0.67");
    assert_eq!(shown.drive_hourly, "15.00");
    assert_eq!(shown.flat_rate, "100.00");
}
