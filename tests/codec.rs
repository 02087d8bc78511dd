use realm_auth::claims::{decode_outcome, Claims, TOKEN_LIFETIME};
use realm_auth::claims_json::{claims_json, parse_claims};
use realm_auth::error::CodecError;
use realm_auth::token::Token;

const NOW: i64 = 1_700_000_000;

fn sample() -> Claims {
    Claims::new(
        "global".to_string(),
        "main".to_string(),
        "user".to_string(),
        "user_scope".to_string(),
        "users:alice".to_string(),
        Some("parti".to_string()),
    )
}

fn same(a: &Claims, b: &Claims) -> bool {
    a.ns == b.ns
        && a.db == b.db
        && a.sc == b.sc
        && a.tk == b.tk
        && a.id == b.id
        && a.role == b.role
        && a.iat == b.iat
        && a.exp == b.exp
}

#[test]
fn new_claims_are_unstamped() {
    let c = sample();
    assert_eq!(c.ns, "global");
    assert_eq!(c.id, "users:alice");
    assert_eq!(c.role.as_deref(), Some("parti"));
    assert_eq!(c.iat, 0);
    assert_eq!(c.exp, 0);
}

#[test]
fn claims_json_exact_text() {
    let mut c = sample();
    c.iat = 5;
    c.exp = -12;
    assert_eq!(
        claims_json(&c),
        r#"{"ns":"global","db":"main","sc":"user","tk":"user_scope","id":"users:alice","role":"parti","iat":5,"exp":-12}"#
    );
}

#[test]
fn claims_json_null_role_and_escapes() {
    let mut c = Claims::new(
        "a\"b".to_string(),
        "c\\d".to_string(),
        "line\nbreak".to_string(),
        "tab\there".to_string(),
        "ünï".to_string(),
        None,
    );
    c.iat = 0;
    c.exp = 86400;
    let text = claims_json(&c);
    assert_eq!(
        text,
        "{\"ns\":\"a\\\"b\",\"db\":\"c\\\\d\",\"sc\":\"line\\u000abreak\",\"tk\":\"tab\\u0009here\",\"id\":\"ünï\",\"role\":null,\"iat\":0,\"exp\":86400}"
    );
    let back = parse_claims(&text).expect("canonical text reads back");
    assert!(same(&back, &c));
}

#[test]
fn claims_json_round_trip_extreme_times() {
    let mut c = sample();
    c.iat = i64::MIN;
    c.exp = i64::MAX;
    let back = parse_claims(&claims_json(&c)).expect("reads back");
    assert!(same(&back, &c));
}

#[test]
fn parse_claims_refuses_non_canonical_text() {
    let c = sample();
    let text = claims_json(&c);
    assert!(parse_claims(&text.replace(":", ": ")).is_none());
    assert!(parse_claims(&text.replace("\"iat\":0", "\"iat\":00")).is_none());
    assert!(parse_claims(&format!("{} ", text)).is_none());
    assert!(parse_claims("").is_none());
    assert!(parse_claims("{}").is_none());
    assert!(parse_claims(&text.replace("\"exp\":0", "\"exp\":99999999999999999999")).is_none());
}

#[test]
fn encode_stamps_one_day_lifetime() {
    let mut c = sample();
    let t = c.encode_for_access_at(b"secret", NOW).expect("signs");
    assert_eq!(c.iat, NOW);
    assert_eq!(c.exp, NOW + 86400);
    assert_eq!(TOKEN_LIFETIME, 86400);
    assert_eq!(t.split('.').count(), 3);
    assert_ne!(t, claims_json(&c));
}

#[test]
fn encode_refuses_time_past_range() {
    let mut c = sample();
    let r = c.encode_for_access_at(b"secret", i64::MAX - 10);
    assert_eq!(r, Err(CodecError::TimeOutOfRange));
    assert_eq!(c.iat, 0);
    assert_eq!(c.exp, 0);
}

#[test]
fn encode_with_clock_sets_current_time() {
    let mut c = sample();
    c.encode_for_access(b"secret").expect("signs");
    assert!(c.iat > 1_600_000_000);
    assert_eq!(c.exp, c.iat + 86400);
}

#[test]
fn decode_round_trip_same_secret() {
    let mut c = sample();
    let t = c.encode_for_access_at(b"secret", NOW).unwrap();
    let back = Token(t).decode_at(b"secret", NOW + 100).expect("decodes");
    assert!(same(&back, &c));
}

#[test]
fn decode_with_clock_accepts_fresh_token() {
    let mut c = sample();
    let t = c.encode_for_access(b"secret").unwrap();
    let back = Token(t).decode(b"secret").expect("decodes");
    assert!(same(&back, &c));
}

#[test]
fn decode_wrong_secret_is_invalid_signature() {
    let mut c = sample();
    let t = c.encode_for_access_at(b"secret-b", NOW).unwrap();
    assert_eq!(Token(t).decode_at(b"secret-a", NOW).err(), Some(CodecError::InvalidSignature));
}

#[test]
fn decode_expired_token_is_expired_whatever_the_secret() {
    let mut c = sample();
    let t = c.encode_for_access_at(b"secret", NOW).unwrap();
    let later = NOW + 86400 + 1;
    assert_eq!(Token(t.clone()).decode_at(b"secret", later).err(), Some(CodecError::Expired));
    assert_eq!(Token(t.clone()).decode_at(b"other", later).err(), Some(CodecError::Expired));
    assert!(Token(t).decode_at(b"secret", NOW + 86400).is_ok());
}

#[test]
fn decode_tampered_signature_is_invalid() {
    let mut c = sample();
    let t = c.encode_for_access_at(b"secret", NOW).unwrap();
    let mut parts: Vec<&str> = t.split('.').collect();
    let forged = format!("{}x", parts[2]);
    parts[2] = &forged;
    let r = Token(parts.join(".")).decode_at(b"secret", NOW);
    assert_eq!(r.err(), Some(CodecError::InvalidSignature));
}

#[test]
fn decode_garbage_is_malformed() {
    assert_eq!(Token("not a token".to_string()).decode_at(b"s", NOW).err(), Some(CodecError::Malformed));
    assert_eq!(Token(String::new()).decode_at(b"s", NOW).err(), Some(CodecError::Malformed));
}

#[test]
fn decode_outcome_decisions() {
    let mut c = sample();
    c.iat = 10;
    c.exp = 20;
    let text = claims_json(&c);
    assert_eq!(decode_outcome(None, Some(true), 0).err(), Some(CodecError::Malformed));
    assert_eq!(decode_outcome(Some("{".to_string()), Some(true), 0).err(), Some(CodecError::Malformed));
    assert_eq!(decode_outcome(Some(text.clone()), Some(true), 21).err(), Some(CodecError::Expired));
    assert_eq!(decode_outcome(Some(text.clone()), Some(false), 21).err(), Some(CodecError::Expired));
    assert_eq!(decode_outcome(Some(text.clone()), None, 21).err(), Some(CodecError::Expired));
    assert_eq!(decode_outcome(Some(text.clone()), Some(false), 20).err(), Some(CodecError::InvalidSignature));
    assert_eq!(decode_outcome(Some(text.clone()), None, 20).err(), Some(CodecError::Malformed));
    let ok = decode_outcome(Some(text), Some(true), 20).expect("accepted");
    assert!(same(&ok, &c));
}

#[test]
fn from_header_strips_bearer_prefix() {
    assert_eq!(Token::from_header(Some("Bearer abc.def")).unwrap().0, "abc.def");
    assert_eq!(Token::from_header(Some("abc.def")).unwrap().0, "abc.def");
    assert_eq!(Token::from_header(Some("Bearer ")).unwrap().0, "");
    assert_eq!(Token::from_header(Some("bearer abc")).unwrap().0, "bearer abc");
    assert!(Token::from_header(None).is_none());
}

#[test]
fn claims_json_round_trip_empty_and_wide_characters() {
    let mut empty = Claims::new(String::new(), String::new(), String::new(), String::new(), String::new(), Some(String::new()));
    empty.iat = 0;
    empty.exp = 0;
    let text = claims_json(&empty);
    assert_eq!(text, r#"{"ns":"","db":"","sc":"","tk":"","id":"","role":"","iat":0,"exp":0}"#);
    assert!(same(&parse_claims(&text).unwrap(), &empty));
    let mut wide = sample();
    wide.ns = "centre 🏥 \u{1f}\u{0}".to_string();
    let text = claims_json(&wide);
    assert!(text.contains("\\u001f\\u0000"));
    assert!(same(&parse_claims(&text).unwrap(), &wide));
}

#[test]
fn token_carries_claims_text_as_payload() {
    let mut c = sample();
    c.ns = "quote\"here".to_string();
    let t = c.encode_for_access_at(b"k", NOW).unwrap();
    let back = Token(t).decode_at(b"k", NOW).unwrap();
    assert_eq!(back.ns, "quote\"here");
}

#[test]
fn same_second_same_token_other_second_other_token() {
    let mut a = sample();
    let mut b = sample();
    let ta = a.encode_for_access_at(b"k", NOW).unwrap();
    let tb = b.encode_for_access_at(b"k", NOW).unwrap();
    assert_eq!(ta, tb);
    let mut c = sample();
    let tc = c.encode_for_access_at(b"k", NOW + 1).unwrap();
    assert_ne!(ta, tc);
}
