use vstd::prelude::*;

use crate::error::Error;
use crate::graphql::{anonymous_claims, Claims, ClaimsV, Context};

verus! {

/// The signed bearer token that the issuer produces for these claims and
/// this symmetric key: an HS256 JSON web token, a function of its
/// arguments alone. Tokens deliberately carry no expiry.
pub uninterp spec fn token_of(
    is_admin: bool,
    user_id: Option<i32>,
    username: Option<Seq<char>>,
    key: Seq<u8>,
) -> Seq<char>;

/// Relies on jsonwebtoken::encode with an HS256 header: serializes the
/// claims object ({"is_admin", "user_id", "username"}, keys in that
/// order) and signs it with the symmetric key. Deterministic in the
/// claims and key, and infallible for an HMAC key, per its source.
#[verifier::external_body]
pub(crate) fn jwt_encode(claims: &Claims, key: &[u8]) -> (r: Result<String, Error>)
    ensures
        r is Ok,
        r matches Ok(t) ==> t@ == token_of(
            claims@.is_admin,
            claims@.user_id,
            claims@.username,
            key@,
        ),
{
    let mut m = serde_json::Map::new();
    m.insert("is_admin".to_string(), serde_json::Value::from(claims.is_admin));
    m.insert("user_id".to_string(), serde_json::Value::from(claims.user_id));
    m.insert("username".to_string(), serde_json::Value::from(claims.username.clone()));
    let header = jsonwebtoken::Header::new(jsonwebtoken::Algorithm::HS256);
    let key = jsonwebtoken::EncodingKey::from_secret(key);
    jsonwebtoken::encode(&header, &serde_json::Value::Object(m), &key).map_err(|_| Error::Token)
}

/// Relies on jsonwebtoken::decode with HS256, expiry validation off and
/// no required claims (tokens are long-lived by construction): verifies
/// the signature against the key and hands the carried claims back, so
/// that decoding what `jwt_encode` produced yields those claims again.
#[verifier::external_body]
pub(crate) fn jwt_decode(token: &str, key: &[u8]) -> (r: Option<Claims>)
    ensures
        (exists|a: bool, u: Option<i32>, n: Option<Seq<char>>|
            token@ == token_of(a, u, n, key@)) ==> r is Some,
        r matches Some(c) ==> (forall|a: bool, u: Option<i32>, n: Option<Seq<char>>|
            token@ == token_of(a, u, n, key@) ==> c@ == (ClaimsV {
                is_admin: a,
                user_id: u,
                username: n,
            })),
{
    let mut v = jsonwebtoken::Validation::new(jsonwebtoken::Algorithm::HS256);
    v.validate_exp = false;
    v.required_spec_claims = std::collections::HashSet::new();
    let dk = jsonwebtoken::DecodingKey::from_secret(key);
    let c = jsonwebtoken::decode::<serde_json::Value>(token, &dk, &v).ok()?.claims;
    let user_id = match c.get("user_id")? {
        serde_json::Value::Null => None,
        x => Some(i32::try_from(x.as_i64()?).ok()?),
    };
    let username = match c.get("username")? {
        serde_json::Value::Null => None,
        x => Some(x.as_str()?.to_string()),
    };
    Some(Claims { is_admin: c.get("is_admin")?.as_bool()?, user_id, username })
}

/// Issues the signed bearer token carrying these claims.
pub fn issue_token(claims: &Claims, key: &[u8]) -> (r: Result<String, Error>)
    ensures
        r is Ok,
        r matches Ok(t) ==> t@ == token_of(
            claims@.is_admin,
            claims@.user_id,
            claims@.username,
            key@,
        ),
{
    jwt_encode(claims, key)
}

impl Context {
    /// Builds the per-request context from an optional bearer token: a
    /// token this issuer signed for some claims seeds exactly those
    /// claims; an absent token leaves the anonymous default, and so does
    /// one that fails validation — never an error, since unauthenticated
    /// access is a first-class mode.
    pub fn from_token(token: Option<&str>, key: &[u8]) -> (r: Context)
        ensures
            r@.ip is None,
            token is None ==> r@.claims == anonymous_claims(),
            forall|a: bool, u: Option<i32>, n: Option<Seq<char>>|
                (token matches Some(t) && t@ == token_of(a, u, n, key@)) ==> r@.claims == (ClaimsV {
                    is_admin: a,
                    user_id: u,
                    username: n,
                }),
    {
        let mut ctx = Context::new();
        match token {
            None => ctx,
            Some(t) => {
                match jwt_decode(t, key) {
                    Some(claims) => {
                        ctx.with(claims);
                        ctx
                    },
                    None => ctx,
                }
            },
        }
    }
}

} // verus!
