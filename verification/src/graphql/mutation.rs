use vstd::prelude::*;

use crate::credentials::{derived_key, hex_of, CREDENTIAL_LEN};
use crate::db::models::{QuoteV, User, UserV};
use crate::db::queries::{author_of, create_quote, create_user, find_by_username, has_username,
    login_ok, next_quote_id, next_user_id, opt_user_view, verify_login, Store};
use crate::error::Error;
use crate::graphql::models as gm;
use crate::graphql::models::quote_out_of;
use crate::graphql::token::{issue_token, token_of};
use crate::graphql::{Claims, Context};

verus! {

/// The mutation operations of the caller-facing surface.
pub struct Mutation;

/// Issues the signed claims token for a freshly authenticated user:
/// their admin flag, user id and username, signed with the process-wide
/// key.
pub fn generate_token(user: &User, key: &[u8]) -> (r: Result<String, Error>)
    ensures
        r is Ok,
        r matches Ok(t) ==> t@ == token_of(
            user@.is_admin,
            Some(user@.id),
            Some(user@.username),
            key@,
        ),
{
    let claims = Claims::new(user.is_admin, Some(user.id), Some(user.username.clone()));
    issue_token(&claims, key)
}

impl Mutation {
    /// Creates a quote from the submitted text: the author reference
    /// comes from the context's claims (absent, when anonymous), the
    /// recorded address from the context (empty, when unavailable). The
    /// new quote is born invisible and unmoderated, with zero votes. The
    /// only failure is `Persistence`, surfaced without internal detail.
    pub fn new_quote(ctx: &Context, store: &mut Store, quote: String) -> (r: Result<
        gm::Quote,
        Error,
    >)
        requires
            old(store).wf(),
        ensures
            final(store).wf(),
            final(store).users_v() == old(store).users_v(),
            r is Err <==> next_quote_id(old(store).quotes_v()) > i32::MAX,
            r matches Err(e) ==> e == Error::Persistence && final(store).quotes_v() == old(
                store,
            ).quotes_v(),
            r matches Ok(out) ==> (exists|q: QuoteV|
                {
                    &&& #[trigger] final(store).quotes_v() == old(store).quotes_v().push(q)
                    &&& q.content == quote@
                    &&& q.votes == 0
                    &&& q.visible == false
                    &&& q.moderated_by is None
                    &&& q.user_id == ctx@.claims.user_id
                    &&& q.ip == (match ctx@.ip {
                        Some(s) => s,
                        None => Seq::<char>::empty(),
                    })
                    &&& q.id == next_quote_id(old(store).quotes_v())
                    &&& out@ == quote_out_of(q, author_of(old(store).users_v(), q.user_id))
                }),
    {
        let ip = match &ctx.ip {
            Some(ip) => ip.as_str(),
            None => "",
        };
        proof {
            reveal_strlit("");
            if ctx@.ip is None {
                assert(ip@ =~= Seq::<char>::empty());
            }
        }
        let pair = match create_quote(store, quote.as_str(), ip, ctx.claims.user_id) {
            Ok(p) => p,
            Err(e) => {
                return Err(e);
            },
        };
        let ghost qv = pair.0@;
        let ghost av = opt_user_view(pair.1);
        let out = gm::Quote::from(pair);
        proof {
            assert(out@ == quote_out_of(qv, av));
        }
        Ok(out)
    }

    /// Logs a user in: on the unique matching of username, stored
    /// credentials and password, their signed claims token; on every
    /// failure the same `InvalidCredentials`, with no distinguishing
    /// signal.
    pub fn login(store: &Store, key: &[u8], username: &str, password: &str) -> (r: Result<
        String,
        Error,
    >)
        requires
            store.wf(),
        ensures
            r is Ok <==> login_ok(store.users_v(), username@, password@),
            r matches Err(e) ==> e == Error::InvalidCredentials,
            r matches Ok(t) ==> (exists|u: UserV|
                {
                    &&& #[trigger] find_by_username(store.users_v(), username@) == Some(u)
                    &&& t@ == token_of(u.is_admin, Some(u.id), Some(u.username), key@)
                }),
    {
        let user = match verify_login(store, username, password) {
            Ok(u) => u,
            Err(e) => {
                return Err(e);
            },
        };
        match generate_token(&user, key) {
            Ok(t) => Ok(t),
            Err(e) => Err(e),
        }
    }

    /// Signs a user up: creates the user (never an admin) and returns
    /// their signed claims token. A duplicate username fails with
    /// `DuplicateUsername` exactly; `Persistence` covers the storage
    /// layer's own failures.
    pub fn signup(store: &mut Store, key: &[u8], username: &str, password: &str) -> (r: Result<
        String,
        Error,
    >)
        requires
            old(store).wf(),
        ensures
            final(store).wf(),
            final(store).quotes_v() == old(store).quotes_v(),
            r is Err ==> final(store).users_v() == old(store).users_v(),
            r == Result::<String, Error>::Err(Error::DuplicateUsername) <==> has_username(
                old(store).users_v(),
                username@,
            ),
            r matches Err(e) ==> e == Error::DuplicateUsername || e == Error::Persistence,
            r matches Ok(t) ==> (exists|u: UserV|
                {
                    &&& #[trigger] final(store).users_v() == old(store).users_v().push(u)
                    &&& u.username == username@
                    &&& u.is_admin == false
                    &&& u.id == next_user_id(old(store).users_v())
                    &&& (exists|salt: Seq<u8>|
                        #![auto]
                        salt.len() == CREDENTIAL_LEN && u.salt == hex_of(salt) && u.password
                            == hex_of(derived_key(salt, password@)))
                    &&& t@ == token_of(false, Some(u.id), Some(u.username), key@)
                }),
    {
        let user = match create_user(store, username, password) {
            Ok(u) => u,
            Err(e) => {
                return Err(e);
            },
        };
        match generate_token(&user, key) {
            Ok(t) => Ok(t),
            Err(e) => Err(e),
        }
    }
}

} // verus!
