//! The signed claim set of an access token.

use vstd::prelude::*;
use crate::claims_json::{claims_json, claims_of_text, claims_text, parse_claims};
use crate::error::CodecError;
use crate::jwt::{carries, hs256_token, now_timestamp, sign_hs256};

verus! {

/// What a claim set states, as mathematical values.
pub struct ClaimsView {
    pub ns: Seq<char>,
    pub db: Seq<char>,
    pub sc: Seq<char>,
    pub tk: Seq<char>,
    pub id: Seq<char>,
    pub role: Option<Seq<char>>,
    pub iat: i64,
    pub exp: i64,
}

/// The payload of an access token: namespace, data partition, scope and token
/// identifiers, subject, optional role, and issue and expiry times in seconds.
pub struct Claims {
    pub ns: String,
    pub db: String,
    pub sc: String,
    pub tk: String,
    pub id: String,
    pub role: Option<String>,
    pub iat: i64,
    pub exp: i64,
}

pub open spec fn opt_view(o: Option<String>) -> Option<Seq<char>> {
    match o {
        Some(s) => Some(s@),
        None => None,
    }
}

impl View for Claims {
    type V = ClaimsView;

    open spec fn view(&self) -> ClaimsView {
        ClaimsView {
            ns: self.ns@,
            db: self.db@,
            sc: self.sc@,
            tk: self.tk@,
            id: self.id@,
            role: opt_view(self.role),
            iat: self.iat,
            exp: self.exp,
        }
    }
}

/// How long an issued token stays valid, in seconds.
pub const TOKEN_LIFETIME: i64 = 60 * 60 * 24;

/// `v` with its issue time set to `now` and its expiry one lifetime later.
pub open spec fn stamped(v: ClaimsView, now: i64) -> ClaimsView {
    ClaimsView {
        ns: v.ns,
        db: v.db,
        sc: v.sc,
        tk: v.tk,
        id: v.id,
        role: v.role,
        iat: now,
        exp: (now + TOKEN_LIFETIME) as i64,
    }
}

/// Whether `now` leaves room for an expiry time one lifetime later.
pub open spec fn stampable(now: i64) -> bool {
    now <= i64::MAX - TOKEN_LIFETIME
}

pub open spec fn claims_result_view(r: Result<Claims, CodecError>) -> Result<ClaimsView, CodecError> {
    match r {
        Ok(c) => Ok(c@),
        Err(e) => Err(e),
    }
}

/// What decoding decides from the payload text read out of a token, the
/// signature check's answer and the time: `None` stands for a step that failed.
pub open spec fn decode_spec(payload: Option<Seq<char>>, signature_ok: Option<bool>, now: i64) -> Result<
    ClaimsView,
    CodecError,
> {
    match payload {
        None => Err(CodecError::Malformed),
        Some(p) => match claims_of_text(p) {
            None => Err(CodecError::Malformed),
            Some(v) => if v.exp < now {
                Err(CodecError::Expired)
            } else {
                match signature_ok {
                    None => Err(CodecError::Malformed),
                    Some(false) => Err(CodecError::InvalidSignature),
                    Some(true) => Ok(v),
                }
            },
        },
    }
}

impl Claims {
    /// A claim set with the given fields, not yet stamped with times.
    pub fn new(ns: String, db: String, sc: String, tk: String, id: String, role: Option<String>) -> (r:
        Claims)
        ensures
            r@ == (ClaimsView {
                ns: ns@,
                db: db@,
                sc: sc@,
                tk: tk@,
                id: id@,
                role: opt_view(role),
                iat: 0,
                exp: 0,
            }),
    {
        Claims { ns, db, sc, tk, id, role, iat: 0, exp: 0 }
    }

    /// Stamps the claim set with `now` and signs its canonical text with
    /// `secret`; this succeeds whenever the expiry time fits.
    pub fn encode_for_access_at(&mut self, secret: &[u8], now: i64) -> (r: Result<String, CodecError>)
        ensures
            !stampable(now) ==> r == Err::<String, CodecError>(CodecError::TimeOutOfRange)
                && final(self)@ == old(self)@,
            stampable(now) ==> final(self)@ == stamped(old(self)@, now),
            stampable(now) ==> (r matches Ok(t) && t@ == hs256_token(claims_text(final(self)@), secret@)
                && carries(t@, secret@, final(self)@)),
    {
        if now > i64::MAX - TOKEN_LIFETIME {
            return Err(CodecError::TimeOutOfRange);
        }
        self.iat = now;
        self.exp = now + TOKEN_LIFETIME;
        let text = claims_json(self);
        assert(text@ == claims_text(self@));
        match sign_hs256(text.as_str(), secret) {
            Ok(t) => Ok(t),
            Err(_) => Err(CodecError::Signing),
        }
    }

    /// Stamps the claim set with the current time and signs it with `secret`;
    /// this succeeds unless the clock is too far ahead for the expiry time.
    pub fn encode_for_access(&mut self, secret: &[u8]) -> (r: Result<String, CodecError>)
        ensures
            r == Err::<String, CodecError>(CodecError::TimeOutOfRange) ==> final(self)@ == old(self)@,
            r != Err::<String, CodecError>(CodecError::TimeOutOfRange) ==> final(self)@ == stamped(
                old(self)@,
                final(self).iat,
            ),
            r != Err::<String, CodecError>(CodecError::TimeOutOfRange) ==> (r matches Ok(t) && t@
                == hs256_token(claims_text(final(self)@), secret@) && carries(t@, secret@, final(self)@)),
    {
        let now = now_timestamp();
        self.encode_for_access_at(secret, now)
    }
}

/// Decides the outcome of decoding from the payload text read out of a token
/// (if it could be read), the signature check's answer (if it could be made)
/// and the time `now`.
pub fn decode_outcome(payload: Option<String>, signature_ok: Option<bool>, now: i64) -> (r: Result<
    Claims,
    CodecError,
>)
    ensures
        claims_result_view(r) == decode_spec(opt_view(payload), signature_ok, now),
{
    let p = match payload {
        None => return Err(CodecError::Malformed),
        Some(p) => p,
    };
    let c = match parse_claims(p.as_str()) {
        None => return Err(CodecError::Malformed),
        Some(c) => c,
    };
    if c.exp < now {
        return Err(CodecError::Expired);
    }
    match signature_ok {
        None => Err(CodecError::Malformed),
        Some(false) => Err(CodecError::InvalidSignature),
        Some(true) => Ok(c),
    }
}

} // verus!
