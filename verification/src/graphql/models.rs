use vstd::prelude::*;

use crate::db::models as dbm;
use crate::db::models::{QuoteV, UserV};

verus! {

/// Model of the publicly exposed user shape.
pub ghost struct UserOutV {
    pub username: Seq<char>,
    pub is_admin: bool,
}

/// The publicly available information about a user: the username and
/// admin flag only, never the password hash or salt.
pub struct User {
    pub username: String,
    pub is_admin: bool,
}

impl View for User {
    type V = UserOutV;

    open spec fn view(&self) -> UserOutV {
        UserOutV { username: self.username@, is_admin: self.is_admin }
    }
}

/// The public shape of a stored user row.
pub open spec fn user_out_of(u: UserV) -> UserOutV {
    UserOutV { username: u.username, is_admin: u.is_admin }
}

/// The information a client supplies to create a new user.
pub struct NewUser {
    pub username: String,
    pub password: String,
}

impl From<dbm::User> for User {
    fn from(user: dbm::User) -> (r: Self) {
        Self { username: user.username, is_admin: user.is_admin }
    }
}

impl vstd::std_specs::convert::FromSpecImpl<dbm::User> for User {
    open spec fn obeys_from_spec() -> bool {
        true
    }

    open spec fn from_spec(user: dbm::User) -> Self {
        User { username: user.username, is_admin: user.is_admin }
    }
}

/// Model of the publicly exposed quote shape.
pub ghost struct QuoteOutV {
    pub id: i32,
    pub content: Seq<char>,
    pub votes: i32,
    pub visible: bool,
    pub user: Option<UserOutV>,
}

/// A user-submitted quote in its caller-facing shape, joined with the
/// public shape of its author, if it has one.
pub struct Quote {
    pub id: i32,
    pub content: String,
    pub votes: i32,
    pub visible: bool,
    pub user: Option<User>,
}

impl View for Quote {
    type V = QuoteOutV;

    open spec fn view(&self) -> QuoteOutV {
        QuoteOutV {
            id: self.id,
            content: self.content@,
            votes: self.votes,
            visible: self.visible,
            user: match self.user {
                None => None,
                Some(u) => Some(u@),
            },
        }
    }
}

/// The caller-facing shape of a stored quote row and its optional author.
pub open spec fn quote_out_of(q: QuoteV, author: Option<UserV>) -> QuoteOutV {
    QuoteOutV {
        id: q.id,
        content: q.content,
        votes: q.votes,
        visible: q.visible,
        user: match author {
            None => None,
            Some(u) => Some(user_out_of(u)),
        },
    }
}

impl From<(dbm::Quote, Option<dbm::User>)> for Quote {
    fn from(pair: (dbm::Quote, Option<dbm::User>)) -> (r: Self) {
        let (quote, user) = pair;
        Self {
            id: quote.id,
            content: quote.content,
            votes: quote.votes,
            visible: quote.visible,
            user: match user {
                None => None,
                Some(u) => Some(User { username: u.username, is_admin: u.is_admin }),
            },
        }
    }
}

impl vstd::std_specs::convert::FromSpecImpl<(dbm::Quote, Option<dbm::User>)> for Quote {
    open spec fn obeys_from_spec() -> bool {
        true
    }

    open spec fn from_spec(pair: (dbm::Quote, Option<dbm::User>)) -> Self {
        Quote {
            id: pair.0.id,
            content: pair.0.content,
            votes: pair.0.votes,
            visible: pair.0.visible,
            user: match pair.1 {
                None => None,
                Some(u) => Some(User { username: u.username, is_admin: u.is_admin }),
            },
        }
    }
}

} // verus!
