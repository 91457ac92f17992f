//! The error shapes of the authentication layer, and how a failed
//! credential check surfaces to the login route.  Credential storage
//! and password hashing live with the web application, outside this
//! core.

use vstd::prelude::*;

verus! {

/// Why a credential check failed.
pub enum AuthError {
    /// The supplied credentials do not match a known user.
    InvalidCredentials(String),
    /// Anything else went wrong while checking them.
    UnexpectedError(String),
}

impl AuthError {
    /// The HTTP status a failed check maps to.
    pub fn status_code(&self) -> (r: u16)
        ensures
            self matches AuthError::InvalidCredentials(_) ==> r == 401,
            self matches AuthError::UnexpectedError(_) ==> r == 500,
    {
        match self {
            AuthError::InvalidCredentials(_) => 401,
            AuthError::UnexpectedError(_) => 500,
        }
    }
}

/// Why a login attempt failed.
pub enum LoginError {
    AuthError(String),
    UnexpectedError(String),
}

impl LoginError {
    /// How the login route classifies a failed credential check:
    /// variant for variant, carrying the message through.
    pub fn from_auth_error(e: AuthError) -> (r: LoginError)
        ensures
            e matches AuthError::InvalidCredentials(m) ==> r == LoginError::AuthError(m),
            e matches AuthError::UnexpectedError(m) ==> r == LoginError::UnexpectedError(m),
    {
        match e {
            AuthError::InvalidCredentials(m) => LoginError::AuthError(m),
            AuthError::UnexpectedError(m) => LoginError::UnexpectedError(m),
        }
    }
}

} // verus!
