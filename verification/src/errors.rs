//! The error taxonomy of the library. Authentication and authorization are
//! checked before any other work; invalid client data aborts before any
//! mutation; persistence failures abort a whole transaction.

use vstd::prelude::*;

verus! {

/// One failure of a request, in the order it can arise: no session,
/// a session without the needed rights, a malformed field in the
/// client's payload, or a failure of the data store.
#[derive(Debug, Clone, Copy, PartialEq, Eq, Structural)]
pub enum CustomError {
    AuthenticationRequired,
    AuthorizationDenied,
    InvalidClientData,
    PersistenceFailure,
}

impl CustomError {
    /// A human-readable message for a rendered error response.
    pub fn message(&self) -> (r: &'static str)
        ensures
            r@ == self.message_spec(),
    {
        match self {
            CustomError::AuthenticationRequired => "Not logged in",
            CustomError::AuthorizationDenied => "Operation not permitted for this user",
            CustomError::InvalidClientData => "Malformed field in request",
            CustomError::PersistenceFailure => "Data store error",
        }
    }

    pub open spec fn message_spec(&self) -> Seq<char> {
        match self {
            CustomError::AuthenticationRequired => "Not logged in"@,
            CustomError::AuthorizationDenied => "Operation not permitted for this user"@,
            CustomError::InvalidClientData => "Malformed field in request"@,
            CustomError::PersistenceFailure => "Data store error"@,
        }
    }
}

} // verus!
