//! The signing and verification primitives of `jsonwebtoken`, and the clock.

use vstd::prelude::*;
use crate::claims::ClaimsView;
use crate::claims_json::claims_text;

verus! {

#[verifier::external_type_specification]
#[verifier::external_body]
pub struct ExJwtError(jsonwebtoken::errors::Error);

/// The compact HS256 token whose payload segment carries the JSON value of
/// `payload`, signed with `secret`.
pub uninterp spec fn hs256_token(payload: Seq<char>, secret: Seq<u8>) -> Seq<char>;

/// The JSON text carried by the payload segment of `token`, or `None` when
/// the token cannot be taken apart.
pub uninterp spec fn payload_of(token: Seq<char>) -> Option<Seq<char>>;

/// Whether `signature` is the HS256 signature of `message` under `secret`.
pub uninterp spec fn hs256_verifies(signature: Seq<char>, message: Seq<char>, secret: Seq<u8>) -> bool;

/// The position of the last `.` in `t`, or -1.
pub open spec fn last_dot(t: Seq<char>) -> int
    decreases t.len(),
{
    if t.len() == 0 {
        -1
    } else if t.last() == '.' {
        t.len() - 1
    } else {
        last_dot(t.drop_last())
    }
}

/// The signed message and the signature of a compact token: what stands
/// before and after its last `.`.
pub open spec fn signature_split(t: Seq<char>) -> Option<(Seq<char>, Seq<char>)> {
    let k = last_dot(t);
    if k < 0 {
        None
    } else {
        Some((t.subrange(0, k), t.subrange(k + 1, t.len() as int)))
    }
}

/// Whether the signature of `t` checks out under `secret`; `None` when `t`
/// has no signature segment.
pub open spec fn signature_ok(t: Seq<char>, secret: Seq<u8>) -> Option<bool> {
    match signature_split(t) {
        Some((m, s)) => Some(hs256_verifies(s, m, secret)),
        None => None,
    }
}

/// Whether `p` is the canonical text of some claim set.
pub open spec fn canonical_text(p: Seq<char>) -> bool {
    exists|v: ClaimsView| p == claims_text(v)
}

/// Whether token `t` carries the canonical text of `v` and is signed with
/// `secret`.
pub open spec fn carries(t: Seq<char>, secret: Seq<u8>, v: ClaimsView) -> bool {
    payload_of(t) == Some(claims_text(v)) && signature_ok(t, secret) == Some(true)
}

/// Relies on `jsonwebtoken::encode` with an HS256 header, the payload passed
/// as a `serde_json` raw value, which keeps its text apart from surrounding
/// whitespace. A canonical claim set text is JSON without surrounding
/// whitespace, so it is signed, and the token reads back as that text: its
/// last segment is the base64 signature of what stands before it.
#[verifier::external_body]
pub(crate) fn sign_hs256(payload: &str, secret: &[u8]) -> (r: Result<String, jsonwebtoken::errors::Error>)
    ensures
        r matches Ok(t) ==> t@ == hs256_token(payload@, secret@),
        canonical_text(payload@) ==> r is Ok,
        r matches Ok(t) ==> (canonical_text(payload@) ==> payload_of(t@) == Some(payload@)),
        r matches Ok(t) ==> (canonical_text(payload@) ==> signature_ok(t@, secret@) == Some(true)),
{
    let raw = serde_json::value::RawValue::from_string(payload.to_string())?;
    let header = jsonwebtoken::Header::new(jsonwebtoken::Algorithm::HS256);
    jsonwebtoken::encode(&header, &raw, &jsonwebtoken::EncodingKey::from_secret(secret))
}

/// Relies on `jsonwebtoken::decode` with signature and claim validation
/// switched off: the raw JSON text of the token's payload segment, unchecked.
/// Whether it succeeds depends on the token alone.
#[verifier::external_body]
pub(crate) fn read_payload(token: &str) -> (r: Result<String, jsonwebtoken::errors::Error>)
    ensures
        match r {
            Ok(p) => payload_of(token@) == Some(p@),
            Err(_) => payload_of(token@) is None,
        },
{
    let mut v = jsonwebtoken::Validation::new(jsonwebtoken::Algorithm::HS256);
    v.insecure_disable_signature_validation();
    v.validate_exp = false;
    v.validate_aud = false;
    v.required_spec_claims.clear();
    let key = jsonwebtoken::DecodingKey::from_secret(&[]);
    let data = jsonwebtoken::decode::<Box<serde_json::value::RawValue>>(token, &key, &v)?;
    Ok(data.claims.get().to_string())
}

/// Relies on `jsonwebtoken::crypto::verify` with HS256, which signs `message`
/// again with `secret` and compares the result with `signature`; for HS256 it
/// always answers.
#[verifier::external_body]
pub(crate) fn verify_hs256(signature: &str, message: &str, secret: &[u8]) -> (r: Result<
    bool,
    jsonwebtoken::errors::Error,
>)
    ensures
        r is Ok,
        r matches Ok(b) ==> b == hs256_verifies(signature@, message@, secret@),
{
    let key = jsonwebtoken::DecodingKey::from_secret(secret);
    jsonwebtoken::crypto::verify(signature, message.as_bytes(), &key, jsonwebtoken::Algorithm::HS256)
}

/// Relies on `chrono::Utc::now`: the current time in whole seconds since the
/// epoch. Nothing is known of its value.
#[verifier::external_body]
pub(crate) fn now_timestamp() -> (r: i64) {
    chrono::Utc::now().timestamp()
}

} // verus!
