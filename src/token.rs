//! A bearer token as presented by a client, and its verification.

use vstd::prelude::*;
use crate::claims::{claims_result_view, decode_outcome, decode_spec, Claims, ClaimsView};
use crate::claims_json::{claims_text, lemma_claims_text_round_trip};
use crate::error::CodecError;
use crate::jwt::{
    carries, last_dot, now_timestamp, payload_of, read_payload, signature_ok,
    signature_split, verify_hs256,
};
use crate::text::{chars_of, has_lit_at, lit_at, string_of_range};

verus! {

/// The prefix a bearer credential may carry in the authorization header.
pub open spec fn bearer_prefix() -> Seq<char> {
    seq!['B', 'e', 'a', 'r', 'e', 'r', ' ']
}

/// The header value with a leading bearer prefix removed, if it has one.
pub open spec fn strip_bearer(h: Seq<char>) -> Seq<char> {
    if lit_at(h, 0, bearer_prefix()) {
        h.subrange(7, h.len() as int)
    } else {
        h
    }
}

proof fn lemma_last_dot_at(t: Seq<char>, k: int)
    requires
        -1 <= k < t.len(),
        k >= 0 ==> t[k] == '.',
        forall|q: int| k < q < t.len() ==> t[q] != '.',
    ensures
        last_dot(t) == k,
    decreases t.len(),
{
    if t.len() > 0 && k < t.len() - 1 {
        assert(t.last() != '.');
        lemma_last_dot_at(t.drop_last(), k);
    }
}

/// Splits a compact token at its last `.`.
fn split_signature(t: &Vec<char>) -> (r: Option<(String, String)>)
    ensures
        match r {
            Some((m, s)) => signature_split(t@) == Some((m@, s@)),
            None => signature_split(t@) is None,
        },
{
    let mut k: usize = t.len();
    while k > 0 && t[k - 1] != '.'
        invariant
            k <= t.len(),
            forall|q: int| k <= q < t.len() ==> t@[q] != '.',
        decreases k,
    {
        k -= 1;
    }
    if k == 0 {
        proof {
            lemma_last_dot_at(t@, -1);
        }
        return None;
    }
    proof {
        lemma_last_dot_at(t@, k - 1);
    }
    Some((string_of_range(t, 0, k - 1), string_of_range(t, k, t.len())))
}

/// A bearer credential.
pub struct Token(pub String);

impl Token {
    /// The token carried by an authorization header value, with a leading
    /// `"Bearer "` removed; a raw token is taken as it is.
    pub fn from_header(authorization: Option<&str>) -> (r: Option<Token>)
        ensures
            match authorization {
                None => r is None,
                Some(h) => r matches Some(t) && t.0@ == strip_bearer(h@),
            },
    {
        match authorization {
            None => None,
            Some(h) => {
                let t = chars_of(h);
                let prefix = vec!['B', 'e', 'a', 'r', 'e', 'r', ' '];
                assert(prefix@ =~= bearer_prefix());
                if has_lit_at(&t, 0, &prefix) {
                    Some(Token(string_of_range(&t, 7, t.len())))
                } else {
                    Some(Token(string_of_range(&t, 0, t.len())))
                }
            },
        }
    }

    /// Decodes the token with `secret` at time `now`: the payload is read and
    /// its expiry checked first, then the signature.
    pub fn decode_at(&self, secret: &[u8], now: i64) -> (r: Result<Claims, CodecError>)
        ensures
            claims_result_view(r) == decode_spec(
                payload_of(self.0@),
                signature_ok(self.0@, secret@),
                now,
            ),
    {
        let payload = match read_payload(self.0.as_str()) {
            Ok(p) => Some(p),
            Err(_) => None,
        };
        let t = chars_of(self.0.as_str());
        let signature_ok = match split_signature(&t) {
            None => None,
            Some((message, signature)) => match verify_hs256(
                signature.as_str(),
                message.as_str(),
                secret,
            ) {
                Ok(b) => Some(b),
                Err(_) => None,
            },
        };
        proof {
            assert(crate::claims::opt_view(payload) == payload_of(self.0@));
        }
        decode_outcome(payload, signature_ok, now)
    }

    /// Decodes the token with `secret` at the current time.
    pub fn decode(&self, secret: &[u8]) -> (r: Result<Claims, CodecError>)
        ensures
            exists|now: i64|
                claims_result_view(r) == decode_spec(
                    payload_of(self.0@),
                    signature_ok(self.0@, secret@),
                    now,
                ),
    {
        let now = now_timestamp();
        self.decode_at(secret, now)
    }
}

/// A token issued for a claim set with a secret decodes with that secret to
/// that claim set, at any time up to its expiry.
pub proof fn lemma_decode_after_encode(t: Seq<char>, secret: Seq<u8>, v: ClaimsView, now: i64)
    requires
        carries(t, secret, v),
        now <= v.exp,
    ensures
        decode_spec(payload_of(t), signature_ok(t, secret), now) == Ok::<ClaimsView, CodecError>(v),
{
    lemma_claims_text_round_trip(v);
}

/// An unexpired token decoded with a secret under which its signature does
/// not check out is refused as an invalid signature.
pub proof fn lemma_wrong_secret_refused(
    t: Seq<char>,
    issued_with: Seq<u8>,
    other: Seq<u8>,
    v: ClaimsView,
    now: i64,
)
    requires
        carries(t, issued_with, v),
        now <= v.exp,
        signature_ok(t, other) != Some(true),
    ensures
        decode_spec(payload_of(t), signature_ok(t, other), now) == Err::<ClaimsView, CodecError>(
            CodecError::InvalidSignature,
        ),
{
    lemma_claims_text_round_trip(v);
}

/// A token whose claim set has expired is refused as expired, with any
/// secret, whatever its signature.
pub proof fn lemma_expired_refused(t: Seq<char>, secret: Seq<u8>, v: ClaimsView, now: i64)
    requires
        payload_of(t) == Some(claims_text(v)),
        v.exp < now,
    ensures
        decode_spec(payload_of(t), signature_ok(t, secret), now) == Err::<ClaimsView, CodecError>(
            CodecError::Expired,
        ),
{
    lemma_claims_text_round_trip(v);
}

/// Tokens that carry different claim sets differ; in particular, encoding
/// the same fields at two different times gives two different tokens.
pub proof fn lemma_distinct_claims_distinct_tokens(
    t1: Seq<char>,
    t2: Seq<char>,
    k1: Seq<u8>,
    k2: Seq<u8>,
    v1: ClaimsView,
    v2: ClaimsView,
)
    requires
        carries(t1, k1, v1),
        carries(t2, k2, v2),
        v1 != v2,
    ensures
        t1 != t2,
{
    lemma_claims_text_round_trip(v1);
    lemma_claims_text_round_trip(v2);
}

} // verus!
