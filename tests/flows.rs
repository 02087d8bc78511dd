use realm_auth::claims::Claims;
use realm_auth::config::ConfigGetter;
use realm_auth::error::AuthError;
use realm_auth::global::{
    auth_from_id_result_at, classify_signup_failure, login_result, login_result_at,
    parse_project_ref, signup_plan, signup_result, signup_result_at,
};
use realm_auth::guard::{authenticate, authenticate_at};
use realm_auth::interv::{
    guest_pass_result, is_global_route, join, join_at, pass_owner_result, project_secret_result,
    refresh, refresh_at, refresh_global_token_at, refresh_interv_token_at, PassSlot,
};
use realm_auth::models::{
    AccountRows, AuthToken, CredentialsJoin, CredentialsRefresh, CredentialsSignup, Project,
    ProjectToSend, StoreFailure, UserInterv, UserRecord,
};
use realm_auth::role::{Role, UserState};
use realm_auth::token::Token;

const NOW: i64 = 1_700_000_000;
const GLOBAL: &[u8] = b"global-secret";

fn project_one() -> Project {
    Project {
        id: "projects:p1".to_string(),
        name: "Project One".to_string(),
        state: "active".to_string(),
        token: "p1-secret".to_string(),
        center: "centers:c1".to_string(),
    }
}

fn alice_rows(project: Option<Project>, role: Option<&str>) -> AccountRows {
    AccountRows {
        user: Some(UserRecord {
            id: "users:alice".to_string(),
            username: "alice".to_string(),
            project: project.as_ref().map(|p| p.id.clone()),
        }),
        center: project.as_ref().map(|_| "Center A".to_string()),
        project,
        role: role.map(|r| r.to_string()),
    }
}

fn no_rows() -> AccountRows {
    AccountRows { user: None, project: None, center: None, role: None }
}

fn failure(m: &str) -> StoreFailure {
    StoreFailure { message: m.to_string() }
}

fn global_claims(id: &str, role: Option<&str>) -> Claims {
    Claims::new(
        "global".to_string(),
        "main".to_string(),
        "user".to_string(),
        "user_scope".to_string(),
        id.to_string(),
        role.map(|r| r.to_string()),
    )
}

fn config() -> ConfigGetter {
    ConfigGetter {
        origin_url: "https://app.example".to_string(),
        secret_key: "global-secret".to_string(),
    }
}

#[test]
fn status_codes() {
    assert_eq!(AuthError::BadInput.status_code(), 400);
    assert_eq!(AuthError::Conflict.status_code(), 409);
    assert_eq!(AuthError::InvalidCredentials.status_code(), 401);
    assert_eq!(AuthError::MissingToken.status_code(), 401);
    assert_eq!(AuthError::InvalidToken.status_code(), 401);
    assert_eq!(AuthError::IdentityMismatch.status_code(), 500);
    assert_eq!(AuthError::InternalError.status_code(), 500);
}

#[test]
fn role_names_round_trip_and_fallback() {
    for r in [Role::Robot, Role::Admin, Role::Coord, Role::Thera, Role::Parti, Role::Guest] {
        assert_eq!(Role::from_name(&r.name()), r);
    }
    assert_eq!(Role::Coord.name(), "coord");
    assert_eq!(Role::from_name("superuser"), Role::Parti);
    assert_eq!(Role::from_name("Admin"), Role::Parti);
}

#[test]
fn user_state_names_round_trip_and_fallback() {
    for s in [UserState::Active, UserState::Exited, UserState::Standby, UserState::Completed] {
        assert_eq!(UserState::from_name(&s.name()), s);
    }
    assert_eq!(UserState::Standby.name(), "standby");
    assert_eq!(UserState::from_name("gone"), UserState::Active);
}

#[test]
fn user_interv_decodes_role() {
    let u = UserInterv::from_row("users:x".to_string(), "thera", "active".to_string());
    assert_eq!(u.role, Role::Thera);
    assert_eq!(u.id, "users:x");
    let v = UserInterv::from_row("users:y".to_string(), "???", "active".to_string());
    assert_eq!(v.role, Role::Parti);
}

#[test]
fn config_getters() {
    let c = config();
    assert_eq!(c.get_origin_url(), "https://app.example");
    assert_eq!(c.get_secret_key(), "global-secret");
}

#[test]
fn conversions() {
    let shown = ProjectToSend::from(project_one());
    assert_eq!(shown.id, "projects:p1");
    assert_eq!(shown.name, "Project One");
    assert!(shown.center.is_none());
    assert_eq!(AuthToken::from("t".to_string()).token, "t");
}

#[test]
fn project_ref_parsing() {
    let r = parse_project_ref("projects:p1").unwrap();
    assert_eq!(r.table, "projects");
    assert_eq!(r.key, "p1");
    for bad in ["projects:", "projects", ":p1", "proj:p1", "projects:a:b", "", "users:p1", "projects::"] {
        assert_eq!(parse_project_ref(bad).err(), Some(AuthError::BadInput), "{}", bad);
    }
}

#[test]
fn signup_plan_starts_as_participant() {
    let cred = CredentialsSignup { username: "alice".to_string(), project: Some("projects:p1".to_string()) };
    let plan = signup_plan(&cred).unwrap();
    assert_eq!(plan.username, "alice");
    assert_eq!(plan.role, Role::Parti);
    assert_eq!(plan.project.unwrap().key, "p1");
    let plain = signup_plan(&CredentialsSignup { username: "bob".to_string(), project: None }).unwrap();
    assert!(plain.project.is_none());
    let bad = CredentialsSignup { username: "c".to_string(), project: Some("p1".to_string()) };
    assert_eq!(signup_plan(&bad).err(), Some(AuthError::BadInput));
}

#[test]
fn signup_failure_classification() {
    let dup = failure("Database index `users_username` already contains 'alice'");
    assert_eq!(classify_signup_failure(&dup), AuthError::Conflict);
    assert_eq!(classify_signup_failure(&failure("connection reset")), AuthError::InternalError);
    assert_eq!(classify_signup_failure(&failure("users_user")), AuthError::InternalError);
}

#[test]
fn signup_duplicate_username_is_conflict() {
    let dup = failure("Database index `users_username` already contains 'alice'");
    assert_eq!(signup_result_at(Err(dup), GLOBAL, NOW).err(), Some(AuthError::Conflict));
    assert_eq!(signup_result_at(Err(failure("timeout")), GLOBAL, NOW).err(), Some(AuthError::InternalError));
    assert_eq!(signup_result_at(Ok(no_rows()), GLOBAL, NOW).err(), Some(AuthError::InternalError));
}

#[test]
fn signup_alice_into_p1() {
    let au = signup_result_at(Ok(alice_rows(Some(project_one()), None)), GLOBAL, NOW).expect("signed up");
    assert_eq!(au.role.as_deref(), Some("parti"));
    assert_eq!(au.id, "users:alice");
    assert_eq!(au.username, "alice");
    let shown = au.project.as_ref().expect("project view");
    assert_eq!(shown.name, "Project One");
    assert_eq!(shown.id, "projects:p1");
    assert_eq!(shown.center.as_deref(), Some("Center A"));
    let g = Token(au.g_token.clone()).decode_at(GLOBAL, NOW).expect("global token decodes");
    assert_eq!(g.id, "users:alice");
    assert_eq!(g.ns, "global");
    assert_eq!(g.db, "main");
    assert_eq!(g.role.as_deref(), Some("parti"));
    assert_eq!(g.exp, NOW + 86400);
    let p = Token(au.p_token.clone().expect("project token")).decode_at(b"p1-secret", NOW).expect("decodes");
    assert_eq!(p.ns, "Center A");
    assert_eq!(p.db, "Project One");
    assert_eq!(p.id, "users:alice");
    assert!(Token(au.p_token.unwrap()).decode_at(GLOBAL, NOW).is_err());
}

#[test]
fn signup_without_project_has_no_project_token() {
    let au = signup_result_at(Ok(alice_rows(None, None)), GLOBAL, NOW).unwrap();
    assert!(au.project.is_none());
    assert!(au.p_token.is_none());
    assert!(Token(au.g_token).decode_at(GLOBAL, NOW).is_ok());
}

#[test]
fn signup_with_clock_and_config() {
    let au = signup_result(Ok(alice_rows(None, None)), &config()).unwrap();
    assert!(Token(au.g_token).decode(GLOBAL).is_ok());
}

#[test]
fn project_without_center_is_internal_error() {
    let mut rows = alice_rows(Some(project_one()), None);
    rows.center = None;
    assert_eq!(signup_result_at(Ok(rows), GLOBAL, NOW).err(), Some(AuthError::InternalError));
}

#[test]
fn login_wrong_password_is_invalid_credentials() {
    assert_eq!(login_result_at(Ok(no_rows()), GLOBAL, NOW).err(), Some(AuthError::InvalidCredentials));
    assert_eq!(login_result(Ok(no_rows()), &config()).err(), Some(AuthError::InvalidCredentials));
    assert_eq!(login_result_at(Err(failure("down")), GLOBAL, NOW).err(), Some(AuthError::InternalError));
}

#[test]
fn login_carries_the_realm_role() {
    let au = login_result_at(Ok(alice_rows(Some(project_one()), Some("coord"))), GLOBAL, NOW).unwrap();
    assert_eq!(au.role.as_deref(), Some("coord"));
    let g = Token(au.g_token).decode_at(GLOBAL, NOW).unwrap();
    assert_eq!(g.role.as_deref(), Some("coord"));
    let none = login_result_at(Ok(alice_rows(None, None)), GLOBAL, NOW).unwrap();
    let g2 = Token(none.g_token).decode_at(GLOBAL, NOW).unwrap();
    assert!(g2.role.is_none());
}

#[test]
fn auth_from_id_missing_user_is_internal_error() {
    assert_eq!(auth_from_id_result_at(Ok(no_rows()), GLOBAL, NOW).err(), Some(AuthError::InternalError));
    let au = auth_from_id_result_at(Ok(alice_rows(None, Some("admin"))), GLOBAL, NOW).unwrap();
    assert_eq!(au.role.as_deref(), Some("admin"));
}

#[test]
fn guard_outcomes() {
    assert_eq!(authenticate_at(None, GLOBAL, NOW).err(), Some(AuthError::MissingToken));
    assert_eq!(authenticate_at(Some("Bearer junk"), GLOBAL, NOW).err(), Some(AuthError::InvalidToken));
    let t = global_claims("users:alice", None).encode_for_access_at(GLOBAL, NOW).unwrap();
    let c = authenticate_at(Some(&format!("Bearer {}", t)), GLOBAL, NOW).unwrap();
    assert_eq!(c.id, "users:alice");
    assert!(authenticate_at(Some(&t), GLOBAL, NOW).is_ok());
    assert_eq!(authenticate_at(Some(&t), b"project-secret", NOW).err(), Some(AuthError::InvalidToken));
    assert_eq!(authenticate_at(Some(&t), GLOBAL, NOW + 86401).err(), Some(AuthError::InvalidToken));
    let fresh = global_claims("users:bob", None).encode_for_access(GLOBAL).unwrap();
    assert_eq!(authenticate(Some(&fresh), &config()).unwrap().id, "users:bob");
    assert_eq!(authenticate(None, &config()).err(), Some(AuthError::MissingToken));
}

#[test]
fn store_answers() {
    assert_eq!(guest_pass_result(Ok(Some("01HX".to_string()))).unwrap(), "01HX");
    assert_eq!(guest_pass_result(Ok(None)).err(), Some(AuthError::InternalError));
    assert_eq!(guest_pass_result(Err(failure("x"))).err(), Some(AuthError::InternalError));
    assert_eq!(pass_owner_result(Ok(Some("users:a".to_string()))).unwrap(), "users:a");
    assert_eq!(pass_owner_result(Ok(None)).err(), Some(AuthError::InvalidCredentials));
    assert_eq!(pass_owner_result(Err(failure("x"))).err(), Some(AuthError::InternalError));
    assert_eq!(project_secret_result(Ok(Some("k".to_string()))).unwrap(), "k");
    assert_eq!(project_secret_result(Ok(None)).err(), Some(AuthError::InternalError));
}

fn join_cred() -> CredentialsJoin {
    CredentialsJoin { ns: "Center A".to_string(), db: "Project One".to_string(), pass: "01HX".to_string() }
}

#[test]
fn join_succeeds_only_on_full_match() {
    let caller = global_claims("users:alice", Some("thera"));
    let owner = || Ok(Some("users:alice".to_string()));
    let secret = || Ok(Some("p1-secret".to_string()));
    let grant = join_at(&caller, &join_cred(), owner(), secret(), NOW).expect("joins");
    assert_eq!(grant.spend_pass_of, "users:alice");
    let c = Token(grant.token).decode_at(b"p1-secret", NOW).unwrap();
    assert_eq!(c.ns, "Center A");
    assert_eq!(c.db, "Project One");
    assert_eq!(c.id, "users:alice");
    assert_eq!(c.role.as_deref(), Some("thera"));
    let other = Ok(Some("users:mallory".to_string()));
    assert_eq!(join_at(&caller, &join_cred(), other, secret(), NOW).err(), Some(AuthError::IdentityMismatch));
    assert_eq!(join_at(&caller, &join_cred(), Ok(None), secret(), NOW).err(), Some(AuthError::InvalidCredentials));
    assert_eq!(join_at(&caller, &join_cred(), owner(), Ok(None), NOW).err(), Some(AuthError::InternalError));
    assert_eq!(join_at(&caller, &join_cred(), Err(failure("x")), secret(), NOW).err(), Some(AuthError::InternalError));
    assert!(join(&caller, &join_cred(), owner(), secret()).is_ok());
}

#[test]
fn one_time_pass_is_single_use() {
    let mut slot = PassSlot::new();
    assert!(!slot.redeem("01HX"));
    slot.inject("01HX".to_string());
    assert!(!slot.redeem("01HY"));
    assert!(slot.redeem("01HX"));
    assert!(!slot.redeem("01HX"));
    slot.inject("01HZ".to_string());
    assert!(!slot.redeem("01HX"));
    assert!(slot.redeem("01HZ"));
}

fn refresh_cred(ns: &str, token: String) -> CredentialsRefresh {
    CredentialsRefresh { ns: ns.to_string(), db: "Project One".to_string(), token }
}

#[test]
fn refresh_global_expired_is_invalid_token() {
    let old = global_claims("users:alice", None).encode_for_access_at(GLOBAL, NOW).unwrap();
    let later = NOW + 86400 + 5;
    let r = refresh_at(&refresh_cred("global", old), GLOBAL, Ok(None), later);
    assert_eq!(r.err(), Some(AuthError::InvalidToken));
}

#[test]
fn refresh_global_reissues_same_claims() {
    let old = global_claims("users:alice", Some("admin")).encode_for_access_at(GLOBAL, NOW).unwrap();
    let t = refresh_at(&refresh_cred("global", old.clone()), GLOBAL, Ok(None), NOW + 10).unwrap();
    let c = Token(t).decode_at(GLOBAL, NOW + 10).unwrap();
    assert_eq!(c.id, "users:alice");
    assert_eq!(c.role.as_deref(), Some("admin"));
    assert_eq!(c.iat, NOW + 10);
    assert_eq!(c.exp, NOW + 10 + 86400);
    assert!(refresh_global_token_at(&Token(old), GLOBAL, NOW).is_ok());
}

#[test]
fn refresh_realm_token() {
    let mut realm = Claims::new(
        "Center A".to_string(),
        "Project One".to_string(),
        "user".to_string(),
        "user_scope".to_string(),
        "users:alice".to_string(),
        None,
    );
    let old = realm.encode_for_access_at(b"p1-secret", NOW).unwrap();
    let cred = refresh_cred("Center A", old.clone());
    assert!(!is_global_route(&cred));
    assert!(is_global_route(&refresh_cred("global", String::new())));
    let t = refresh_at(&cred, GLOBAL, Ok(Some("p1-secret".to_string())), NOW + 1).unwrap();
    assert_eq!(Token(t).decode_at(b"p1-secret", NOW + 1).unwrap().db, "Project One");
    assert_eq!(refresh_at(&cred, GLOBAL, Ok(None), NOW).err(), Some(AuthError::InternalError));
    assert_eq!(refresh_at(&cred, GLOBAL, Ok(Some("wrong".to_string())), NOW).err(), Some(AuthError::InvalidToken));
    assert_eq!(refresh_interv_token_at(Err(failure("x")), &Token(old.clone()), NOW).err(), Some(AuthError::InternalError));
    assert_eq!(refresh(&cred, &config(), Ok(None)).err(), Some(AuthError::InternalError));
    let fresh = realm.encode_for_access(b"p1-secret").unwrap();
    let live = refresh_cred("Center A", fresh);
    assert!(refresh(&live, &config(), Ok(Some("p1-secret".to_string()))).is_ok());
}
