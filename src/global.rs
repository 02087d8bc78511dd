//! The global realm: signup, login, and the tokens attached to an
//! authenticated user.

use vstd::prelude::*;
use crate::claims::{opt_view, stampable, stamped, Claims, ClaimsView};
use crate::claims_json::claims_text;
use crate::config::ConfigGetter;
use crate::error::AuthError;
use crate::jwt::{carries, hs256_token, now_timestamp};
use crate::models::{
    AccountRows, AuthUser, CredentialsSignup, Project, ProjectToSend, StoreFailure,
};
use crate::role::{role_name, Role};
use crate::text::{
    chars_of, contains_chars, contains_seq, has_lit_at, lit_at, string_of, string_of_range,
};

verus! {

pub open spec fn projects_prefix() -> Seq<char> {
    seq!['p', 'r', 'o', 'j', 'e', 'c', 't', 's', ':']
}

/// The key of a `projects:<key>` reference: exactly one `:`, the table
/// `projects` before it and a nonempty key after it.
pub open spec fn project_key_of(s: Seq<char>) -> Option<Seq<char>> {
    if s.len() > 9 && lit_at(s, 0, projects_prefix()) && (forall|q: int|
        9 <= q < s.len() ==> s[q] != ':') {
        Some(s.subrange(9, s.len() as int))
    } else {
        None
    }
}

/// A record reference: table and key.
pub struct RecordRef {
    pub table: String,
    pub key: String,
}

/// Parses a client-supplied `projects:<key>` reference.
pub fn parse_project_ref(s: &str) -> (r: Result<RecordRef, AuthError>)
    ensures
        match project_key_of(s@) {
            Some(k) => r matches Ok(rr) && rr.table@ == projects_prefix().drop_last() && rr.key@
                == k,
            None => r == Err::<RecordRef, AuthError>(AuthError::BadInput),
        },
{
    let t = chars_of(s);
    let prefix = vec!['p', 'r', 'o', 'j', 'e', 'c', 't', 's', ':'];
    assert(prefix@ =~= projects_prefix());
    if t.len() <= 9 || !has_lit_at(&t, 0, &prefix) {
        return Err(AuthError::BadInput);
    }
    let mut q: usize = 9;
    while q < t.len()
        invariant
            9 <= q <= t.len(),
            t@ == s@,
            lit_at(t@, 0, projects_prefix()),
            forall|p: int| 9 <= p < q ==> t@[p] != ':',
        decreases t.len() - q,
    {
        if t[q] == ':' {
            assert(s@[q as int] == ':');
            return Err(AuthError::BadInput);
        }
        q += 1;
    }
    assert(t@.subrange(0, 8) =~= t@.subrange(0, 9).subrange(0, 8));
    assert(projects_prefix().drop_last() =~= projects_prefix().subrange(0, 8));
    Ok(RecordRef { table: string_of_range(&t, 0, 8), key: string_of_range(&t, 9, t.len()) })
}

/// What the signup transaction is asked to create: the account, its optional
/// project binding, and the role edge it starts with.
pub struct SignupPlan {
    pub username: String,
    pub project: Option<RecordRef>,
    pub role: Role,
}

/// Validates a signup request and plans the transaction. New accounts always
/// start as participants.
pub fn signup_plan(cred: &CredentialsSignup) -> (r: Result<SignupPlan, AuthError>)
    ensures
        r matches Ok(p) ==> p.username@ == cred.username@ && p.role == Role::Parti,
        cred.project is None ==> (r matches Ok(p) && p.project is None),
        cred.project matches Some(s) ==> match project_key_of(s@) {
            Some(k) => r matches Ok(p) && p.project matches Some(rr) && rr.key@ == k
                && rr.table@ == projects_prefix().drop_last(),
            None => r == Err::<SignupPlan, AuthError>(AuthError::BadInput),
        },
{
    let project = match &cred.project {
        None => None,
        Some(s) => match parse_project_ref(s.as_str()) {
            Ok(rr) => Some(rr),
            Err(e) => return Err(e),
        },
    };
    Ok(SignupPlan { username: cred.username.clone(), project, role: Role::Parti })
}

/// The name of the store's uniqueness index on usernames.
pub open spec fn username_index() -> Seq<char> {
    seq!['u', 's', 'e', 'r', 's', '_', 'u', 's', 'e', 'r', 'n', 'a', 'm', 'e']
}

/// The outcome kind of a failed signup transaction: a violation of the
/// username index is a conflict, anything else an internal error.
pub open spec fn signup_failure_kind(message: Seq<char>) -> AuthError {
    if contains_seq(message, username_index()) {
        AuthError::Conflict
    } else {
        AuthError::InternalError
    }
}

/// Classifies a failed signup transaction by the store's diagnostic text.
pub fn classify_signup_failure(f: &StoreFailure) -> (r: AuthError)
    ensures
        r == signup_failure_kind(f.message@),
{
    let index = vec!['u', 's', 'e', 'r', 's', '_', 'u', 's', 'e', 'r', 'n', 'a', 'm', 'e'];
    assert(index@ =~= username_index());
    if contains_chars(&chars_of(f.message.as_str()), &index) {
        AuthError::Conflict
    } else {
        AuthError::InternalError
    }
}

pub open spec fn scope_user() -> Seq<char> {
    seq!['u', 's', 'e', 'r']
}

pub open spec fn scope_token() -> Seq<char> {
    seq!['u', 's', 'e', 'r', '_', 's', 'c', 'o', 'p', 'e']
}

/// The claims of a global-realm token for user `id` with `role`.
pub open spec fn global_claims(id: Seq<char>, role: Option<Seq<char>>) -> ClaimsView {
    ClaimsView {
        ns: seq!['g', 'l', 'o', 'b', 'a', 'l'],
        db: seq!['m', 'a', 'i', 'n'],
        sc: scope_user(),
        tk: scope_token(),
        id,
        role,
        iat: 0,
        exp: 0,
    }
}

/// The claims of a realm token: the realm's namespace and partition, user
/// `id` and `role`.
pub open spec fn realm_claims(ns: Seq<char>, db: Seq<char>, id: Seq<char>, role: Option<Seq<char>>) -> ClaimsView {
    ClaimsView { ns, db, sc: scope_user(), tk: scope_token(), id, role, iat: 0, exp: 0 }
}

pub(crate) fn clone_opt(o: &Option<String>) -> (r: Option<String>)
    ensures
        r == *o,
{
    match o {
        Some(s) => Some(s.clone()),
        None => None,
    }
}

fn scope_strings() -> (r: (String, String))
    ensures
        r.0@ == scope_user(),
        r.1@ == scope_token(),
{
    let sc = vec!['u', 's', 'e', 'r'];
    let tk = vec!['u', 's', 'e', 'r', '_', 's', 'c', 'o', 'p', 'e'];
    assert(sc@ =~= scope_user());
    assert(tk@ =~= scope_token());
    (string_of(&sc), string_of(&tk))
}

/// Issues a realm-scoped token signed with the realm's own secret.
pub(crate) fn issue_realm_token(
    ns: String,
    db: String,
    user_id: &String,
    role: &Option<String>,
    secret: &[u8],
    now: i64,
) -> (r: Result<String, AuthError>)
    ensures
        stampable(now) ==> (r matches Ok(t) && t@ == hs256_token(
            claims_text(stamped(realm_claims(ns@, db@, user_id@, opt_view(*role)), now)),
            secret@,
        ) && carries(t@, secret@, stamped(realm_claims(ns@, db@, user_id@, opt_view(*role)), now))),
        !stampable(now) ==> r == Err::<String, AuthError>(AuthError::InternalError),
{
    let (sc, tk) = scope_strings();
    let mut claims = Claims::new(ns, db, sc, tk, user_id.clone(), clone_opt(role));
    match claims.encode_for_access_at(secret, now) {
        Ok(t) => Ok(t),
        Err(_) => Err(AuthError::InternalError),
    }
}

/// Issues the global-realm token for a user, signed with the global secret.
fn generate_global_token(user_id: &String, role: &Option<String>, secret: &[u8], now: i64) -> (r:
    Result<String, AuthError>)
    ensures
        stampable(now) ==> (r matches Ok(t) && t@ == hs256_token(
            claims_text(stamped(global_claims(user_id@, opt_view(*role)), now)),
            secret@,
        ) && carries(t@, secret@, stamped(global_claims(user_id@, opt_view(*role)), now))),
        !stampable(now) ==> r == Err::<String, AuthError>(AuthError::InternalError),
{
    let ns = vec!['g', 'l', 'o', 'b', 'a', 'l'];
    let db = vec!['m', 'a', 'i', 'n'];
    assert(ns@ =~= seq!['g', 'l', 'o', 'b', 'a', 'l']);
    assert(db@ =~= seq!['m', 'a', 'i', 'n']);
    let r = issue_realm_token(string_of(&ns), string_of(&db), user_id, role, secret, now);
    assert(realm_claims(ns@, db@, user_id@, opt_view(*role)) == global_claims(
        user_id@,
        opt_view(*role),
    ));
    r
}

/// Issues the project-realm token for a user: namespace is the center's name,
/// partition the project's name, signed with the project's own secret.
fn generate_project_token(
    center: String,
    project_name: String,
    project_secret: &String,
    user_id: &String,
    role: &Option<String>,
    now: i64,
) -> (r: Result<Option<String>, AuthError>)
    ensures
        stampable(now) ==> (r matches Ok(Some(t)) && t@ == hs256_token(
            claims_text(
                stamped(realm_claims(center@, project_name@, user_id@, opt_view(*role)), now),
            ),
            vstd::utf8::encode_utf8(project_secret@),
        ) && carries(
            t@,
            vstd::utf8::encode_utf8(project_secret@),
            stamped(realm_claims(center@, project_name@, user_id@, opt_view(*role)), now),
        )),
        !stampable(now) ==> r == Err::<Option<String>, AuthError>(AuthError::InternalError),
{
    match issue_realm_token(
        center,
        project_name,
        user_id,
        role,
        project_secret.as_str().as_bytes(),
        now,
    ) {
        Ok(t) => Ok(Some(t)),
        Err(e) => Err(e),
    }
}

/// The project part of an authenticated user's view: the project as shown to
/// clients, with its center, and a token for the project's realm.
pub open spec fn project_issued(
    au: AuthUser,
    p: Project,
    center: Option<String>,
    id: Seq<char>,
    role: Option<Seq<char>>,
    now: i64,
) -> bool {
    &&& center is Some
    &&& au.project matches Some(pts) && pts.id@ == p.id@ && pts.name@ == p.name@ && opt_view(
        pts.center,
    ) == opt_view(center)
    &&& au.p_token matches Some(pt) && pt@ == hs256_token(
        claims_text(stamped(realm_claims(center->Some_0@, p.name@, id, role), now)),
        vstd::utf8::encode_utf8(p.token@),
    ) && carries(
        pt@,
        vstd::utf8::encode_utf8(p.token@),
        stamped(realm_claims(center->Some_0@, p.name@, id, role), now),
    )
}

/// The view a successful signup, login or refresh hands back for account `id`.
pub open spec fn issued_user(
    au: AuthUser,
    id: Seq<char>,
    username: Seq<char>,
    role: Option<Seq<char>>,
    project: Option<Project>,
    center: Option<String>,
    secret: Seq<u8>,
    now: i64,
) -> bool {
    &&& au.id@ == id
    &&& au.username@ == username
    &&& opt_view(au.role) == role
    &&& stampable(now)
    &&& au.g_token@ == hs256_token(claims_text(stamped(global_claims(id, role), now)), secret)
    &&& carries(au.g_token@, secret, stamped(global_claims(id, role), now))
    &&& match project {
        None => au.project is None && au.p_token is None,
        Some(p) => project_issued(au, p, center, id, role, now),
    }
}

/// Whether tokens can be issued at `now` for an account with `project` and
/// `center`: the expiry time fits, and a project comes with its center.
pub open spec fn issuable(project: Option<Project>, center: Option<String>, now: i64) -> bool {
    stampable(now) && (project is Some ==> center is Some)
}

/// What the store rows of a found account give: its authenticated view when
/// tokens can be issued, an internal error otherwise.
pub open spec fn account_outcome(
    id: Seq<char>,
    username: Seq<char>,
    role: Option<Seq<char>>,
    project: Option<Project>,
    center: Option<String>,
    secret: Seq<u8>,
    now: i64,
    r: Result<AuthUser, AuthError>,
) -> bool {
    if issuable(project, center, now) {
        r matches Ok(au) && issued_user(au, id, username, role, project, center, secret, now)
    } else {
        r == Err::<AuthUser, AuthError>(AuthError::InternalError)
    }
}

/// Attaches the global token, and where the user has a project, the project
/// view and the project token.
pub fn add_tokens(
    user: &mut AuthUser,
    project: Option<Project>,
    center: Option<String>,
    secret: &[u8],
    now: i64,
) -> (r: Result<(), AuthError>)
    ensures
        final(user).id == old(user).id,
        final(user).username == old(user).username,
        final(user).role == old(user).role,
        r is Ok <==> issuable(project, center, now),
        r is Err ==> r == Err::<(), AuthError>(AuthError::InternalError),
        r is Ok ==> final(user).g_token@ == hs256_token(
            claims_text(stamped(global_claims(old(user).id@, opt_view(old(user).role)), now)),
            secret@,
        ),
        r is Ok ==> carries(
            final(user).g_token@,
            secret@,
            stamped(global_claims(old(user).id@, opt_view(old(user).role)), now),
        ),
        r is Ok && project is None ==> final(user).project == old(user).project,
        r is Ok && project is None ==> final(user).p_token == old(user).p_token,
        r is Ok ==> (project matches Some(p) ==> project_issued(
            *final(user),
            p,
            center,
            old(user).id@,
            opt_view(old(user).role),
            now,
        )),
{
    user.g_token = generate_global_token(&user.id, &user.role, secret, now)?;
    if let Some(project) = project {
        let c = match &center {
            Some(c) => c.clone(),
            None => return Err(AuthError::InternalError),
        };
        let project_name = project.name.clone();
        let project_secret = project.token.clone();
        let mut shown = ProjectToSend::from(project);
        shown.center = clone_opt(&center);
        user.project = Some(shown);
        user.p_token = generate_project_token(
            c,
            project_name,
            &project_secret,
            &user.id,
            &user.role,
            now,
        )?;
    }
    Ok(())
}

/// Builds the authenticated view for the account in `rows` with `role`;
/// `missing` is the outcome when the store returned no account.
fn assemble_at(rows: AccountRows, role: Option<String>, missing: AuthError, secret: &[u8], now: i64) -> (r:
    Result<AuthUser, AuthError>)
    ensures
        rows.user is None ==> r == Err::<AuthUser, AuthError>(missing),
        rows.user matches Some(u) ==> account_outcome(
            u.id@,
            u.username@,
            opt_view(role),
            rows.project,
            rows.center,
            secret@,
            now,
            r,
        ),
{
    let u = match rows.user {
        None => return Err(missing),
        Some(u) => u,
    };
    let mut au = AuthUser {
        id: u.id,
        role,
        project: None,
        username: u.username,
        g_token: String::new(),
        p_token: None,
    };
    match add_tokens(&mut au, rows.project, rows.center, secret, now) {
        Ok(()) => Ok(au),
        Err(e) => Err(e),
    }
}

/// What signup answers for the transaction's outcome, at time `now`.
pub open spec fn signup_spec(
    created: Result<AccountRows, StoreFailure>,
    secret: Seq<u8>,
    now: i64,
    r: Result<AuthUser, AuthError>,
) -> bool {
    match created {
        Err(f) => r == Err::<AuthUser, AuthError>(signup_failure_kind(f.message@)),
        Ok(rows) => match rows.user {
            None => r == Err::<AuthUser, AuthError>(AuthError::InternalError),
            Some(u) => account_outcome(
                u.id@,
                u.username@,
                Some(role_name(Role::Parti)),
                rows.project,
                rows.center,
                secret,
                now,
                r,
            ),
        },
    }
}

/// Turns the signup transaction's outcome into the response: the created
/// account as a participant with its tokens, a conflict for a taken username,
/// or an internal error.
pub fn signup_result_at(created: Result<AccountRows, StoreFailure>, secret: &[u8], now: i64) -> (r:
    Result<AuthUser, AuthError>)
    ensures
        signup_spec(created, secret@, now, r),
{
    match created {
        Err(f) => Err(classify_signup_failure(&f)),
        Ok(rows) => {
            let parti = Role::Parti.name();
            assemble_at(rows, Some(parti), AuthError::InternalError, secret, now)
        },
    }
}

/// `signup_result_at` at the current time, with the configured global secret.
pub fn signup_result(created: Result<AccountRows, StoreFailure>, config: &ConfigGetter) -> (r:
    Result<AuthUser, AuthError>)
    ensures
        exists|now: i64| signup_spec(created, vstd::utf8::encode_utf8(config.secret_key@), now, r),
{
    let now = now_timestamp();
    signup_result_at(created, config.secret_key.as_str().as_bytes(), now)
}

/// What a lookup by credentials answers: no row means the credentials match
/// no account, whichever part was wrong.
pub open spec fn login_spec(
    found: Result<AccountRows, StoreFailure>,
    secret: Seq<u8>,
    now: i64,
    r: Result<AuthUser, AuthError>,
) -> bool {
    match found {
        Err(_) => r == Err::<AuthUser, AuthError>(AuthError::InternalError),
        Ok(rows) => match rows.user {
            None => r == Err::<AuthUser, AuthError>(AuthError::InvalidCredentials),
            Some(u) => account_outcome(
                u.id@,
                u.username@,
                opt_view(rows.role),
                rows.project,
                rows.center,
                secret,
                now,
                r,
            ),
        },
    }
}

/// A wrong password and an unknown username reach login the same way, as a
/// lookup that found no account, and get the same answer.
pub proof fn lemma_login_failures_alike(
    wrong_password: AccountRows,
    unknown_user: AccountRows,
    secret: Seq<u8>,
    now: i64,
    r1: Result<AuthUser, AuthError>,
    r2: Result<AuthUser, AuthError>,
)
    requires
        wrong_password.user is None,
        unknown_user.user is None,
        login_spec(Ok(wrong_password), secret, now, r1),
        login_spec(Ok(unknown_user), secret, now, r2),
    ensures
        r1 == r2,
        r1 == Err::<AuthUser, AuthError>(AuthError::InvalidCredentials),
{
}

/// Turns the credential lookup's outcome into the login response.
pub fn login_result_at(found: Result<AccountRows, StoreFailure>, secret: &[u8], now: i64) -> (r:
    Result<AuthUser, AuthError>)
    ensures
        login_spec(found, secret@, now, r),
{
    match found {
        Err(_) => Err(AuthError::InternalError),
        Ok(rows) => {
            let role = clone_opt(&rows.role);
            assemble_at(rows, role, AuthError::InvalidCredentials, secret, now)
        },
    }
}

/// `login_result_at` at the current time, with the configured global secret.
pub fn login_result(found: Result<AccountRows, StoreFailure>, config: &ConfigGetter) -> (r: Result<
    AuthUser,
    AuthError,
>)
    ensures
        exists|now: i64| login_spec(found, vstd::utf8::encode_utf8(config.secret_key@), now, r),
{
    let now = now_timestamp();
    login_result_at(found, config.secret_key.as_str().as_bytes(), now)
}

/// What a lookup by account id answers: the id comes from a verified token,
/// so a missing account is an internal error.
pub open spec fn auth_from_id_spec(
    found: Result<AccountRows, StoreFailure>,
    secret: Seq<u8>,
    now: i64,
    r: Result<AuthUser, AuthError>,
) -> bool {
    match found {
        Err(_) => r == Err::<AuthUser, AuthError>(AuthError::InternalError),
        Ok(rows) => match rows.user {
            None => r == Err::<AuthUser, AuthError>(AuthError::InternalError),
            Some(u) => account_outcome(
                u.id@,
                u.username@,
                opt_view(rows.role),
                rows.project,
                rows.center,
                secret,
                now,
                r,
            ),
        },
    }
}

/// Turns the lookup by id into a refreshed authenticated view.
pub fn auth_from_id_result_at(found: Result<AccountRows, StoreFailure>, secret: &[u8], now: i64) -> (r:
    Result<AuthUser, AuthError>)
    ensures
        auth_from_id_spec(found, secret@, now, r),
{
    match found {
        Err(_) => Err(AuthError::InternalError),
        Ok(rows) => {
            let role = clone_opt(&rows.role);
            assemble_at(rows, role, AuthError::InternalError, secret, now)
        },
    }
}

/// `auth_from_id_result_at` at the current time, with the configured global
/// secret.
pub fn auth_from_id_result(found: Result<AccountRows, StoreFailure>, config: &ConfigGetter) -> (r:
    Result<AuthUser, AuthError>)
    ensures
        exists|now: i64|
            auth_from_id_spec(found, vstd::utf8::encode_utf8(config.secret_key@), now, r),
{
    let now = now_timestamp();
    auth_from_id_result_at(found, config.secret_key.as_str().as_bytes(), now)
}

} // verus!
