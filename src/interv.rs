//! Project ("intervention") realms: one-time passes, joining a realm from a
//! global identity, and refreshing tokens.

use vstd::prelude::*;
use crate::claims::{decode_spec, opt_view, stampable, stamped, ClaimsView, Claims};
use crate::claims_json::claims_text;
use crate::config::ConfigGetter;
use crate::error::{AuthError, CodecError};
use crate::global::{issue_realm_token, realm_claims};
use crate::jwt::{carries, hs256_token, now_timestamp, payload_of, signature_ok};
use crate::models::{CredentialsJoin, CredentialsRefresh, StoreFailure};
use crate::text::{chars_of, same_chars};
use crate::token::Token;

verus! {

/// The answer to a guest injection: the fresh pass the store wrote, handed out
/// once; anything else is an internal error.
pub fn guest_pass_result(stored: Result<Option<String>, StoreFailure>) -> (r: Result<String, AuthError>)
    ensures
        match stored {
            Ok(Some(p)) => r == Ok::<String, AuthError>(p),
            _ => r == Err::<String, AuthError>(AuthError::InternalError),
        },
{
    match stored {
        Ok(Some(p)) => Ok(p),
        _ => Err(AuthError::InternalError),
    }
}

/// The account a one-time pass resolves to: no match is invalid credentials,
/// a store failure an internal error.
pub fn pass_owner_result(found: Result<Option<String>, StoreFailure>) -> (r: Result<String, AuthError>)
    ensures
        match found {
            Ok(Some(id)) => r == Ok::<String, AuthError>(id),
            Ok(None) => r == Err::<String, AuthError>(AuthError::InvalidCredentials),
            Err(_) => r == Err::<String, AuthError>(AuthError::InternalError),
        },
{
    match found {
        Ok(Some(id)) => Ok(id),
        Ok(None) => Err(AuthError::InvalidCredentials),
        Err(_) => Err(AuthError::InternalError),
    }
}

/// A realm's signing secret: a realm without one is a configuration fault.
pub fn project_secret_result(found: Result<Option<String>, StoreFailure>) -> (r: Result<
    String,
    AuthError,
>)
    ensures
        match found {
            Ok(Some(k)) => r == Ok::<String, AuthError>(k),
            _ => r == Err::<String, AuthError>(AuthError::InternalError),
        },
{
    match found {
        Ok(Some(k)) => Ok(k),
        _ => Err(AuthError::InternalError),
    }
}

/// What a successful join hands back: the realm token, and the account whose
/// one-time pass the store must now spend so that it cannot be presented
/// again.
pub struct JoinGrant {
    pub token: String,
    pub spend_pass_of: String,
}

/// What joining a realm answers, given who the one-time pass resolved to,
/// the realm's secret, and the caller's verified global claims.
pub open spec fn join_spec(
    claims: ClaimsView,
    ns: Seq<char>,
    db: Seq<char>,
    owner: Result<Option<String>, StoreFailure>,
    secret: Result<Option<String>, StoreFailure>,
    now: i64,
    r: Result<JoinGrant, AuthError>,
) -> bool {
    match owner {
        Err(_) => r == Err::<JoinGrant, AuthError>(AuthError::InternalError),
        Ok(None) => r == Err::<JoinGrant, AuthError>(AuthError::InvalidCredentials),
        Ok(Some(uid)) => match secret {
            Ok(Some(k)) => if uid@ != claims.id {
                r == Err::<JoinGrant, AuthError>(AuthError::IdentityMismatch)
            } else if stampable(now) {
                r matches Ok(g) && g.spend_pass_of@ == uid@ && g.token@ == hs256_token(
                    claims_text(stamped(realm_claims(ns, db, uid@, claims.role), now)),
                    vstd::utf8::encode_utf8(k@),
                ) && carries(
                    g.token@,
                    vstd::utf8::encode_utf8(k@),
                    stamped(realm_claims(ns, db, uid@, claims.role), now),
                )
            } else {
                r == Err::<JoinGrant, AuthError>(AuthError::InternalError)
            },
            _ => r == Err::<JoinGrant, AuthError>(AuthError::InternalError),
        },
    }
}

/// Joins a realm: the pass must resolve to an account, the realm must have a
/// secret, and the account must be the caller of the verified global claims;
/// the realm token carries the role of the global claims.
pub fn join_at(
    claims: &Claims,
    cred: &CredentialsJoin,
    owner: Result<Option<String>, StoreFailure>,
    secret: Result<Option<String>, StoreFailure>,
    now: i64,
) -> (r: Result<JoinGrant, AuthError>)
    ensures
        join_spec(claims@, cred.ns@, cred.db@, owner, secret, now, r),
{
    let uid = pass_owner_result(owner)?;
    let key = project_secret_result(secret)?;
    if uid != claims.id {
        return Err(AuthError::IdentityMismatch);
    }
    let token = issue_realm_token(
        cred.ns.clone(),
        cred.db.clone(),
        &uid,
        &claims.role,
        key.as_str().as_bytes(),
        now,
    )?;
    Ok(JoinGrant { token, spend_pass_of: uid })
}

/// `join_at` at the current time.
pub fn join(
    claims: &Claims,
    cred: &CredentialsJoin,
    owner: Result<Option<String>, StoreFailure>,
    secret: Result<Option<String>, StoreFailure>,
) -> (r: Result<JoinGrant, AuthError>)
    ensures
        exists|now: i64| join_spec(claims@, cred.ns@, cred.db@, owner, secret, now, r),
{
    let now = now_timestamp();
    join_at(claims, cred, owner, secret, now)
}

/// A join succeeds exactly when the pass resolved to an account, the realm
/// has a secret, that account is the caller, and the time leaves room for an
/// expiry; any one mismatch is a failure, and a success spends the pass.
pub proof fn lemma_join_needs_match(
    claims: ClaimsView,
    ns: Seq<char>,
    db: Seq<char>,
    owner: Result<Option<String>, StoreFailure>,
    secret: Result<Option<String>, StoreFailure>,
    now: i64,
    r: Result<JoinGrant, AuthError>,
)
    requires
        join_spec(claims, ns, db, owner, secret, now, r),
    ensures
        r is Ok ==> (owner matches Ok(Some(uid)) && uid@ == claims.id),
        r is Ok ==> (secret matches Ok(Some(_))),
        r matches Ok(g) ==> (owner matches Ok(Some(uid)) && g.spend_pass_of@ == uid@),
        owner matches Ok(None) ==> r == Err::<JoinGrant, AuthError>(AuthError::InvalidCredentials),
        (owner matches Ok(Some(uid)) && uid@ != claims.id && secret matches Ok(Some(_))) ==> r
            == Err::<JoinGrant, AuthError>(AuthError::IdentityMismatch),
        (owner matches Ok(Some(uid)) && uid@ == claims.id && (secret matches Ok(Some(_)))
            && stampable(now)) ==> r is Ok,
{
}

/// What a refresh answers: a token that does not decode is an invalid token;
/// otherwise the same claims are stamped again and signed with the same secret,
/// which succeeds whenever the new expiry time fits.
pub open spec fn refresh_spec(decoded: Result<ClaimsView, CodecError>, secret: Seq<u8>, now: i64, r: Result<
    String,
    AuthError,
>) -> bool {
    match decoded {
        Err(_) => r == Err::<String, AuthError>(AuthError::InvalidToken),
        Ok(v) => if stampable(now) {
            r matches Ok(t) && t@ == hs256_token(claims_text(stamped(v, now)), secret) && carries(
                t@,
                secret,
                stamped(v, now),
            )
        } else {
            r == Err::<String, AuthError>(AuthError::InternalError)
        },
    }
}

/// Decodes `token` with `secret` and re-encodes the same claims with it.
fn refresh_with(token: &Token, secret: &[u8], now: i64) -> (r: Result<String, AuthError>)
    ensures
        refresh_spec(
            decode_spec(payload_of(token.0@), signature_ok(token.0@, secret@), now),
            secret@,
            now,
            r,
        ),
{
    let mut claims = match token.decode_at(secret, now) {
        Ok(c) => c,
        Err(_) => return Err(AuthError::InvalidToken),
    };
    match claims.encode_for_access_at(secret, now) {
        Ok(t) => Ok(t),
        Err(_) => Err(AuthError::InternalError),
    }
}

/// Refreshes a global-realm token with the global secret.
pub fn refresh_global_token_at(token: &Token, secret: &[u8], now: i64) -> (r: Result<String, AuthError>)
    ensures
        refresh_spec(
            decode_spec(payload_of(token.0@), signature_ok(token.0@, secret@), now),
            secret@,
            now,
            r,
        ),
{
    refresh_with(token, secret, now)
}

/// Refreshes a realm token: the realm's secret must be found first, and is
/// then used to decode and to sign again.
pub fn refresh_interv_token_at(secret: Result<Option<String>, StoreFailure>, token: &Token, now: i64) -> (r:
    Result<String, AuthError>)
    ensures
        !(secret matches Ok(Some(_))) ==> r == Err::<String, AuthError>(AuthError::InternalError),
        secret matches Ok(Some(k)) ==> refresh_spec(
            decode_spec(payload_of(token.0@), signature_ok(token.0@, vstd::utf8::encode_utf8(k@)), now),
            vstd::utf8::encode_utf8(k@),
            now,
            r,
        ),
{
    let key = project_secret_result(secret)?;
    refresh_with(token, key.as_str().as_bytes(), now)
}

/// The routing key of the global realm.
pub open spec fn global_ns() -> Seq<char> {
    seq!['g', 'l', 'o', 'b', 'a', 'l']
}

/// Whether a refresh request is routed to the global realm.
pub fn is_global_route(cred: &CredentialsRefresh) -> (r: bool)
    ensures
        r == (cred.ns@ == global_ns()),
{
    let g = vec!['g', 'l', 'o', 'b', 'a', 'l'];
    assert(g@ =~= global_ns());
    same_chars(&chars_of(cred.ns.as_str()), &g)
}

/// What refreshing answers for a request: `"global"` is decoded and signed
/// again with the global secret; any other namespace needs the realm's secret,
/// which is then used for both.
pub open spec fn refresh_route_spec(
    cred: CredentialsRefresh,
    global_secret: Seq<u8>,
    realm_secret: Result<Option<String>, StoreFailure>,
    now: i64,
    r: Result<String, AuthError>,
) -> bool {
    if cred.ns@ == global_ns() {
        refresh_spec(
            decode_spec(payload_of(cred.token@), signature_ok(cred.token@, global_secret), now),
            global_secret,
            now,
            r,
        )
    } else {
        match realm_secret {
            Ok(Some(k)) => refresh_spec(
            decode_spec(payload_of(cred.token@), signature_ok(cred.token@, vstd::utf8::encode_utf8(k@)), now),
            vstd::utf8::encode_utf8(k@),
            now,
            r,
        ),
            _ => r == Err::<String, AuthError>(AuthError::InternalError),
        }
    }
}

/// Refreshes the token of a refresh request: `"global"` is refreshed with the
/// global secret, any other namespace with the secret of the realm named by
/// the request's partition (looked up by the caller: `realm_secret`).
pub fn refresh_at(
    cred: &CredentialsRefresh,
    global_secret: &[u8],
    realm_secret: Result<Option<String>, StoreFailure>,
    now: i64,
) -> (r: Result<String, AuthError>)
    ensures
        refresh_route_spec(*cred, global_secret@, realm_secret, now, r),
{
    let token = Token(cred.token.clone());
    if is_global_route(cred) {
        refresh_global_token_at(&token, global_secret, now)
    } else {
        refresh_interv_token_at(realm_secret, &token, now)
    }
}

/// `refresh_at` at the current time, with the configured global secret.
pub fn refresh(
    cred: &CredentialsRefresh,
    config: &ConfigGetter,
    realm_secret: Result<Option<String>, StoreFailure>,
) -> (r: Result<String, AuthError>)
    ensures
        exists|now: i64|
            refresh_route_spec(
                *cred,
                vstd::utf8::encode_utf8(config.secret_key@),
                realm_secret,
                now,
                r,
            ),
{
    let now = now_timestamp();
    refresh_at(cred, config.secret_key.as_str().as_bytes(), realm_secret, now)
}

/// What redeeming a one-time pass does to the slot holding it: a match empties
/// the slot, anything else leaves it as it was.
pub open spec fn redeem_spec(current: Option<Seq<char>>, presented: Seq<char>) -> (bool, Option<
    Seq<char>,
>) {
    if current == Some(presented) {
        (true, None)
    } else {
        (false, current)
    }
}

/// The one-time pass an account holds in a realm, under the rotation policy
/// of this library: a new injection replaces the pass, and a successful
/// redemption spends it. A successful join is such a redemption: its grant
/// names the account (`spend_pass_of`) whose pass the store then clears.
pub struct PassSlot {
    pub current: Option<String>,
}

impl PassSlot {
    /// An empty slot.
    pub fn new() -> (r: PassSlot)
        ensures
            r.current is None,
    {
        PassSlot { current: None }
    }

    /// Stores a freshly generated pass, replacing any earlier one.
    pub fn inject(&mut self, fresh: String)
        ensures
            final(self).current == Some(fresh),
    {
        self.current = Some(fresh);
    }

    /// Redeems `presented`: true exactly when it is the current pass, which
    /// is then spent.
    pub fn redeem(&mut self, presented: &str) -> (r: bool)
        ensures
            (r, opt_view(final(self).current)) == redeem_spec(opt_view(old(self).current), presented@),
    {
        let matches = match &self.current {
            Some(p) => same_chars(&chars_of(p.as_str()), &chars_of(presented)),
            None => false,
        };
        if matches {
            self.current = None;
        }
        matches
    }
}

/// A pass that was redeemed once cannot be redeemed again.
pub proof fn lemma_pass_single_use(current: Option<Seq<char>>, presented: Seq<char>)
    requires
        redeem_spec(current, presented).0,
    ensures
        !redeem_spec(redeem_spec(current, presented).1, presented).0,
{
}

} // verus!
