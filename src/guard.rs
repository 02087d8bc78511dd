//! The verification step in front of endpoints that need an identity. It is
//! anchored to the global secret only.

use vstd::prelude::*;
use crate::claims::{decode_spec, Claims, ClaimsView};
use crate::config::ConfigGetter;
use crate::error::{AuthError, CodecError};
use crate::jwt::now_timestamp;
use crate::jwt::{payload_of, signature_ok};
use crate::token::{strip_bearer, Token};

verus! {

pub open spec fn guard_result_view(r: Result<Claims, AuthError>) -> Result<ClaimsView, AuthError> {
    match r {
        Ok(c) => Ok(c@),
        Err(e) => Err(e),
    }
}

/// The guard's result for a decoding result: any failure becomes an invalid
/// token.
pub open spec fn guard_spec(d: Result<ClaimsView, CodecError>) -> Result<ClaimsView, AuthError> {
    match d {
        Ok(v) => Ok(v),
        Err(_) => Err(AuthError::InvalidToken),
    }
}

/// Checks the authorization header value with the global secret at time `now`.
pub fn authenticate_at(authorization: Option<&str>, secret: &[u8], now: i64) -> (r: Result<
    Claims,
    AuthError,
>)
    ensures
        authorization is None ==> r == Err::<Claims, AuthError>(AuthError::MissingToken),
        authorization matches Some(h) ==> guard_result_view(r) == guard_spec(
            decode_spec(
                payload_of(strip_bearer(h@)),
                signature_ok(strip_bearer(h@), secret@),
                now,
            ),
        ),
{
    let token = match Token::from_header(authorization) {
        None => return Err(AuthError::MissingToken),
        Some(t) => t,
    };
    match token.decode_at(secret, now) {
        Ok(c) => Ok(c),
        Err(_) => Err(AuthError::InvalidToken),
    }
}

/// Checks the authorization header value with the configured global secret at
/// the current time.
pub fn authenticate(authorization: Option<&str>, config: &ConfigGetter) -> (r: Result<
    Claims,
    AuthError,
>)
    ensures
        authorization is None ==> r == Err::<Claims, AuthError>(AuthError::MissingToken),
        authorization matches Some(h) ==> exists|now: i64|
            guard_result_view(r) == guard_spec(
                decode_spec(
                    payload_of(strip_bearer(h@)),
                    signature_ok(strip_bearer(h@), vstd::utf8::encode_utf8(config.secret_key@)),
                    now,
                ),
            ),
{
    let now = now_timestamp();
    authenticate_at(authorization, config.secret_key.as_str().as_bytes(), now)
}

} // verus!
