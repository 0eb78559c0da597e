//! Accounts, sessions and the authorization gate.
//!
//! Every mutating or data-revealing operation first identifies a user and
//! checks their rights: admin-only operations demand the admin flag, and
//! worker-scoped operations accept the exact worker or an admin, before any
//! payload is even parsed. Password checking goes through the scrypt
//! password-hashing scheme of an outside crate; what the library proves is
//! the decision logic around it.

use vstd::prelude::*;
use vstd::string::StrSliceExecFns;

use crate::errors::CustomError;
use crate::text::str_eq;
use password_hash::PasswordHasher;

verus! {

/// One account row: identity, credentials, role, contact data and pay rates
/// in cents.
#[derive(Debug, Clone)]
pub struct Worker {
    pub id: i64,
    pub name: String,
    pub hash: String,
    pub salt: String,
    pub admin: bool,
    pub address: String,
    pub phone: String,
    pub email: String,
    pub rate_hourly_cents: i64,
    pub rate_mileage_cents: i64,
    pub rate_drive_hourly_cents: i64,
    pub flat_rate_cents: i64,
    pub must_change_pw: bool,
    pub deactivated: bool,
}

impl Worker {
    pub fn id(&self) -> (r: i64)
        ensures
            r == self.id,
    {
        self.id
    }
}

/// The credentials a login submits.
#[derive(Debug, Clone)]
pub struct LoginForm {
    pub username: String,
    pub password: String,
}

/// The query of the login page; `failure` marks a bounced attempt.
#[derive(Debug, Clone, Copy)]
pub struct LoginPageForm {
    pub failure: Option<bool>,
}

impl LoginPageForm {
    /// The page shows the failure banner only on an explicit true flag.
    pub fn failure_flag(&self) -> (r: bool)
        ensures
            r == (self.failure == Some(true)),
    {
        match self.failure {
            Some(true) => true,
            _ => false,
        }
    }
}

/// The form of a forced logout of one worker.
#[derive(Debug, Clone, Copy)]
pub struct LogoutForm {
    pub id: i64,
}

/// The PHC hash string that the scrypt scheme, at its recommended
/// parameters, derives from a password and a B64 salt string. It depends on
/// those two strings alone.
pub uninterp spec fn scrypt_hash_of(password: Seq<char>, salt_b64: Seq<char>) -> Seq<char>;

/// Whether the scrypt pipeline accepts a B64 salt string: its length and
/// characters pass salt validation and B64 decoding. It depends on the salt
/// string alone.
pub uninterp spec fn scrypt_salt_ok(salt_b64: Seq<char>) -> bool;

/// Relies on password_hash's `SaltString::from_b64` and scrypt's
/// `PasswordHasher::hash_password` at the recommended parameters: both
/// accept or reject on the salt string alone, and the PHC hash string they
/// produce is a function of the password and the salt strings alone.
#[verifier::external_body]
fn scrypt_hash_b64(password: &str, salt_b64: &str) -> (r: Option<String>)
    ensures
        r is Some <==> scrypt_salt_ok(salt_b64@),
        (r matches Some(h) ==> h@ == scrypt_hash_of(password@, salt_b64@)),
{
    match password_hash::SaltString::from_b64(salt_b64) {
        Ok(salt) => match scrypt::Scrypt.hash_password(password.as_bytes(), salt.as_salt()) {
            Ok(h) => Some(h.to_string()),
            Err(_) => None,
        },
        Err(_) => None,
    }
}

/// Relies on password_hash's `SaltString::generate`: a fresh salt encodes
/// sixteen random bytes as standard B64, which salt validation and the
/// scrypt pipeline accept.
#[verifier::external_body]
fn generate_salt() -> (r: String)
    ensures
        scrypt_salt_ok(r@),
{
    password_hash::SaltString::generate(&mut rand::thread_rng()).as_str().to_owned()
}

/// Derives the stored hash and salt for a new password.
pub fn hash_new_password(password: &str) -> (r: (String, String))
    ensures
        scrypt_salt_ok(r.1@),
        r.0@ == scrypt_hash_of(password@, r.1@),
{
    let salt = generate_salt();
    match scrypt_hash_b64(password, salt.as_str()) {
        Some(hash) => (hash, salt),
        None => {
            // a generated salt is always accepted
            proof {
                assert(false);
            }
            (String::new(), salt)
        },
    }
}

/// The user of the current session, or the demand to authenticate first.
pub fn get_user(user: &Option<Worker>) -> (r: Result<(i64, String, bool), CustomError>)
    ensures
        r is Ok <==> user is Some,
        (r matches Ok(t) ==> user matches Some(u) && t.0 == u.id && t.1@ == u.name@ && t.2
            == u.admin),
        r is Err ==> r == Err::<(i64, String, bool), CustomError>(
            CustomError::AuthenticationRequired,
        ),
{
    match user {
        Some(u) => Ok((u.id, u.name.clone(), u.admin)),
        None => Err(CustomError::AuthenticationRequired),
    }
}

/// The admin of the current session, or the exact refusal: no session at
/// all, or a session without the admin role.
pub fn get_admin(user: &Option<Worker>) -> (r: Result<(i64, String), CustomError>)
    ensures
        r is Ok <==> (user matches Some(u) && u.admin),
        (r matches Ok(t) ==> user matches Some(u) && t.0 == u.id && t.1@ == u.name@),
        user is None ==> r == Err::<(i64, String), CustomError>(
            CustomError::AuthenticationRequired,
        ),
        (user matches Some(u) ==> (!u.admin ==> r == Err::<(i64, String), CustomError>(
            CustomError::AuthorizationDenied,
        ))),
{
    match get_user(user) {
        Ok((id, name, admin)) => {
            if admin {
                Ok((id, name))
            } else {
                Err(CustomError::AuthorizationDenied)
            }
        },
        Err(e) => Err(e),
    }
}

/// Gate of worker-scoped operations: the acting user must be an admin or the
/// exact worker acted upon. Checked before the payload is parsed, so nothing
/// leaks through differential errors.
pub fn require_self_or_admin(my_id: i64, admin: bool, target_worker: i64) -> (r: Result<
    (),
    CustomError,
>)
    ensures
        r is Ok <==> (admin || my_id == target_worker),
        r is Err ==> r == Err::<(), CustomError>(CustomError::AuthorizationDenied),
{
    if admin || my_id == target_worker {
        Ok(())
    } else {
        Err(CustomError::AuthorizationDenied)
    }
}

/// An admin cannot deactivate their own account.
pub fn deactivate_guard(my_id: i64, target_worker: i64) -> (r: Result<(), CustomError>)
    ensures
        r is Ok <==> my_id != target_worker,
        r is Err ==> r == Err::<(), CustomError>(CustomError::AuthorizationDenied),
{
    if my_id == target_worker {
        Err(CustomError::AuthorizationDenied)
    } else {
        Ok(())
    }
}

/// Checks a password against a stored account row: the account passes only
/// when its salt is accepted and the derived hash equals the stored one. A
/// row whose salt the pipeline rejects never authenticates.
pub fn authenticate(user: Option<Worker>, password: &str) -> (r: Option<Worker>)
    ensures
        r is Some <==> (user matches Some(u) && scrypt_salt_ok(u.salt@) && scrypt_hash_of(
            password@,
            u.salt@,
        ) == u.hash@),
        (r matches Some(w) ==> user matches Some(u) && w == u),
{
    match user {
        Some(u) => match scrypt_hash_b64(password, u.salt.as_str()) {
            Some(challenge) => {
                if str_eq(challenge.as_str(), u.hash.as_str()) {
                    Some(u)
                } else {
                    None
                }
            },
            None => None,
        },
        None => None,
    }
}

/// What a login attempt leads to.
#[derive(Debug, Clone, Copy, PartialEq, Eq, Structural)]
pub enum LoginOutcome {
    /// Bounce back to the login page with the failure banner.
    Failure,
    /// The account must set a new password before it can log in.
    MustChangePw(i64),
    /// Log the session in.
    Success(i64),
}

/// Decides a login attempt against the account row fetched for the submitted
/// name: a missing or deactivated account fails; an account flagged for a
/// password change is sent there before any hash comparison; otherwise the
/// password decides.
pub fn login_decision(worker: Option<Worker>, password: &str) -> (r: LoginOutcome)
    ensures
        worker is None ==> r == LoginOutcome::Failure,
        (worker matches Some(u) ==> r == (if u.deactivated {
            LoginOutcome::Failure
        } else if u.must_change_pw {
            LoginOutcome::MustChangePw(u.id)
        } else if scrypt_salt_ok(u.salt@) && scrypt_hash_of(password@, u.salt@) == u.hash@ {
            LoginOutcome::Success(u.id)
        } else {
            LoginOutcome::Failure
        })),
{
    match worker {
        None => LoginOutcome::Failure,
        Some(u) => {
            if u.deactivated {
                LoginOutcome::Failure
            } else if u.must_change_pw {
                LoginOutcome::MustChangePw(u.id)
            } else {
                let id = u.id;
                match authenticate(Some(u), password) {
                    Some(_) => LoginOutcome::Success(id),
                    None => LoginOutcome::Failure,
                }
            }
        },
    }
}

/// What a password-change request leads to.
pub enum ChangePwOutcome {
    /// The account is not flagged for a password change; refuse.
    Denied,
    /// The two entered passwords differ; bounce back to the form.
    NoMatch,
    /// Store this hash and salt and clear the change flag.
    Update { hash: String, salt: String },
}

/// Decides a password change: only an account flagged for the change may set
/// a password, the two entries must agree, and the stored credentials become
/// the scrypt hash of the new password under a fresh salt.
pub fn change_pw_decision(must_change: bool, password1: &str, password2: &str) -> (r:
    ChangePwOutcome)
    ensures
        !must_change ==> (r is Denied),
        (must_change && password1@ != password2@ ==> (r is NoMatch)),
        (must_change && password1@ == password2@ ==> (r matches ChangePwOutcome::Update {
            hash,
            salt,
        } && scrypt_salt_ok(salt@) && hash@ == scrypt_hash_of(password1@, salt@))),
{
    if !must_change {
        return ChangePwOutcome::Denied;
    }
    if !str_eq(password1, password2) {
        return ChangePwOutcome::NoMatch;
    }
    let (hash, salt) = hash_new_password(password1);
    ChangePwOutcome::Update { hash, salt }
}

/// The worker a password-change page is for; a request without one is
/// invalid client data.
pub fn selected_worker(id: Option<i64>) -> (r: Result<i64, CustomError>)
    ensures
        r == (match id {
            Some(v) => Ok::<i64, CustomError>(v),
            None => Err::<i64, CustomError>(CustomError::InvalidClientData),
        }),
{
    match id {
        Some(v) => Ok(v),
        None => Err(CustomError::InvalidClientData),
    }
}

} // verus!
