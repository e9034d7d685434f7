pub mod models;
pub mod mutation;
pub mod query;
pub mod token;

use vstd::prelude::*;

verus! {

/// Mathematical model of a claims payload.
pub ghost struct ClaimsV {
    pub is_admin: bool,
    pub user_id: Option<i32>,
    pub username: Option<Seq<char>>,
}

/// The anonymous claims: not an admin, no user, no name.
pub open spec fn anonymous_claims() -> ClaimsV {
    ClaimsV { is_admin: false, user_id: None, username: None }
}

/// The identity assertion carried inside a signed token: admin flag,
/// optional user id, optional username.
pub struct Claims {
    pub is_admin: bool,
    pub user_id: Option<i32>,
    pub username: Option<String>,
}

impl View for Claims {
    type V = ClaimsV;

    open spec fn view(&self) -> ClaimsV {
        ClaimsV {
            is_admin: self.is_admin,
            user_id: self.user_id,
            username: match self.username {
                None => None,
                Some(s) => Some(s@),
            },
        }
    }
}

impl Claims {
    pub fn new(is_admin: bool, user_id: Option<i32>, username: Option<String>) -> (r: Self)
        ensures
            r@ == (ClaimsV {
                is_admin,
                user_id,
                username: match username {
                    None => None,
                    Some(s) => Some(s@),
                },
            }),
    {
        Self { is_admin, user_id, username }
    }
}

impl Default for Claims {
    /// The anonymous default, in force until a valid token seeds the
    /// context.
    fn default() -> (r: Self)
        ensures
            r@ == anonymous_claims(),
    {
        Self { is_admin: false, user_id: None, username: None }
    }
}

/// Mathematical model of a request context.
pub ghost struct ContextV {
    pub claims: ClaimsV,
    pub ip: Option<Seq<char>>,
}

/// The per-request holder of the caller's identity and address: anonymous
/// by default, seeded at most once from a validated token before any
/// operation runs.
pub struct Context {
    pub claims: Claims,
    pub ip: Option<String>,
}

impl View for Context {
    type V = ContextV;

    open spec fn view(&self) -> ContextV {
        ContextV {
            claims: self.claims@,
            ip: match self.ip {
                None => None,
                Some(s) => Some(s@),
            },
        }
    }
}

impl Context {
    /// A fresh context: anonymous, with no recorded address.
    pub fn new() -> (r: Self)
        ensures
            r@.claims == anonymous_claims(),
            r@.ip is None,
    {
        Self { claims: Claims::default(), ip: None }
    }

    /// Replaces the context's claims with those from a validated token.
    pub fn with(&mut self, claims: Claims)
        ensures
            final(self)@.claims == claims@,
            final(self)@.ip == old(self)@.ip,
    {
        self.claims = claims;
    }

    /// Records the request's remote address.
    pub fn ip(&mut self, ip: &str)
        ensures
            final(self)@.ip == Some(ip@),
            final(self)@.claims == old(self)@.claims,
    {
        self.ip = Some(ip.to_owned());
    }
}

} // verus!
