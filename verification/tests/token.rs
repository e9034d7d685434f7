use vnq_server::graphql::token::issue_token;
use vnq_server::graphql::{Claims, Context};

const KEY: &[u8] = b"test-signing-key";

#[test]
fn issued_claims_parse_back_identically() {
    let claims = Claims::new(false, Some(7), Some("alice".to_string()));
    let token = issue_token(&claims, KEY).expect("issue");
    let ctx = Context::from_token(Some(&token), KEY);
    assert_eq!(ctx.claims.is_admin, false);
    assert_eq!(ctx.claims.user_id, Some(7));
    assert_eq!(ctx.claims.username.as_deref(), Some("alice"));
}

#[test]
fn admin_flag_round_trips() {
    let claims = Claims::new(true, Some(1), Some("root".to_string()));
    let token = issue_token(&claims, KEY).expect("issue");
    let ctx = Context::from_token(Some(&token), KEY);
    assert!(ctx.claims.is_admin);
}

#[test]
fn anonymous_claims_round_trip() {
    let claims = Claims::default();
    let token = issue_token(&claims, KEY).expect("issue");
    let ctx = Context::from_token(Some(&token), KEY);
    assert_eq!(ctx.claims.is_admin, false);
    assert_eq!(ctx.claims.user_id, None);
    assert_eq!(ctx.claims.username, None);
}

#[test]
fn tampered_signature_leaves_the_context_anonymous() {
    let claims = Claims::new(false, Some(7), Some("alice".to_string()));
    let token = issue_token(&claims, KEY).expect("issue");
    let mut tampered = token.clone();
    let last = tampered.pop().expect("token is not empty");
    tampered.push(if last == 'A' { 'B' } else { 'A' });
    let ctx = Context::from_token(Some(&tampered), KEY);
    assert_eq!(ctx.claims.user_id, None);
    assert_eq!(ctx.claims.username, None);
    assert!(!ctx.claims.is_admin);
}

#[test]
fn wrong_key_leaves_the_context_anonymous() {
    let claims = Claims::new(false, Some(7), Some("alice".to_string()));
    let token = issue_token(&claims, KEY).expect("issue");
    let ctx = Context::from_token(Some(&token), b"another-key");
    assert_eq!(ctx.claims.user_id, None);
}

#[test]
fn garbage_token_leaves_the_context_anonymous() {
    let ctx = Context::from_token(Some("not.a.token"), KEY);
    assert_eq!(ctx.claims.user_id, None);
    assert!(!ctx.claims.is_admin);
}

#[test]
fn absent_token_is_first_class_anonymous_access() {
    let ctx = Context::from_token(None, KEY);
    assert!(!ctx.claims.is_admin);
    assert_eq!(ctx.claims.user_id, None);
    assert_eq!(ctx.claims.username, None);
    assert_eq!(ctx.ip, None);
}

#[test]
fn wire_shape_is_a_signed_hs256_jwt() {
    let claims = Claims::new(false, Some(7), Some("alice".to_string()));
    let token = issue_token(&claims, KEY).expect("issue");
    assert_eq!(token.split('.').count(), 3, "header.payload.signature");

    // an independent decoder accepts the signature and sees the claims object
    let mut validation = jsonwebtoken::Validation::new(jsonwebtoken::Algorithm::HS256);
    validation.validate_exp = false;
    validation.required_spec_claims = std::collections::HashSet::new();
    let data = jsonwebtoken::decode::<serde_json::Value>(
        &token,
        &jsonwebtoken::DecodingKey::from_secret(KEY),
        &validation,
    )
    .expect("independently decodable");
    assert_eq!(data.claims["is_admin"], serde_json::Value::Bool(false));
    assert_eq!(data.claims["user_id"], serde_json::Value::from(7));
    assert_eq!(data.claims["username"], serde_json::Value::from("alice"));
}

#[test]
fn context_records_the_remote_address() {
    let mut ctx = Context::new();
    assert_eq!(ctx.ip, None);
    ctx.ip("1.2.3.4");
    assert_eq!(ctx.ip.as_deref(), Some("1.2.3.4"));
}

#[test]
fn context_seeding_replaces_only_the_claims() {
    let mut ctx = Context::new();
    ctx.ip("1.2.3.4");
    ctx.with(Claims::new(true, Some(3), Some("mod".to_string())));
    assert!(ctx.claims.is_admin);
    assert_eq!(ctx.claims.user_id, Some(3));
    assert_eq!(ctx.ip.as_deref(), Some("1.2.3.4"));
}
