//! Outcome kinds of the codec and of the authentication flows.

use vstd::prelude::*;

verus! {

/// Why a token could not be issued or read.
#[derive(Debug, Clone, Copy, PartialEq, Eq, Structural)]
pub enum CodecError {
    /// The token or its payload is not a well-formed claim set.
    Malformed,
    /// The claim set's expiry time has passed.
    Expired,
    /// The signature does not match the secret.
    InvalidSignature,
    /// The signing step reported a failure; it does not for a canonical claim
    /// set text.
    Signing,
    /// The clock is so far ahead that the expiry time does not fit.
    TimeOutOfRange,
}

/// The coarse outcome kinds that reach a client.
#[derive(Debug, Clone, Copy, PartialEq, Eq, Structural)]
pub enum AuthError {
    /// Malformed input, such as a project reference of the wrong shape.
    BadInput,
    /// The username is already taken.
    Conflict,
    /// The credentials do not match any account.
    InvalidCredentials,
    /// No bearer token was presented.
    MissingToken,
    /// The presented token failed verification.
    InvalidToken,
    /// The account resolved from a one-time pass is not the caller.
    IdentityMismatch,
    /// A store failure, a missing realm secret or a missing expected row.
    InternalError,
}

impl AuthError {
    /// The response status this outcome maps to.
    pub fn status_code(&self) -> (r: u16)
        ensures
            r == match *self {
                AuthError::BadInput => 400u16,
                AuthError::Conflict => 409u16,
                AuthError::InvalidCredentials | AuthError::MissingToken
                | AuthError::InvalidToken => 401u16,
                AuthError::IdentityMismatch | AuthError::InternalError => 500u16,
            },
    {
        match self {
            AuthError::BadInput => 400,
            AuthError::Conflict => 409,
            AuthError::InvalidCredentials => 401,
            AuthError::MissingToken => 401,
            AuthError::InvalidToken => 401,
            AuthError::IdentityMismatch => 500,
            AuthError::InternalError => 500,
        }
    }
}

} // verus!
