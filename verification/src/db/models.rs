use vstd::prelude::*;

verus! {

/// Mathematical model of a stored user row.
pub ghost struct UserV {
    pub id: i32,
    pub username: Seq<char>,
    pub salt: Seq<char>,
    pub password: Seq<char>,
    pub is_admin: bool,
    pub created_at: i64,
    pub updated_at: i64,
}

/// A registered user, as the storage layer holds it.
///
/// `salt` and `password` hold the lowercase-hex encodings of the per-user
/// random salt and of the derived password hash; the raw password is never
/// stored.
#[derive(Debug)]
pub struct User {
    pub id: i32,
    pub username: String,
    pub salt: String,
    pub password: String,
    pub is_admin: bool,
    pub created_at: i64,
    pub updated_at: i64,
}

impl View for User {
    type V = UserV;

    open spec fn view(&self) -> UserV {
        UserV {
            id: self.id,
            username: self.username@,
            salt: self.salt@,
            password: self.password@,
            is_admin: self.is_admin,
            created_at: self.created_at,
            updated_at: self.updated_at,
        }
    }
}

impl DeepView for User {
    type V = UserV;

    open spec fn deep_view(&self) -> UserV {
        self.view()
    }
}

impl User {
    /// Field-for-field copy of the row.
    pub fn duplicate(&self) -> (r: User)
        ensures
            r@ == self@,
    {
        User {
            id: self.id,
            username: self.username.clone(),
            salt: self.salt.clone(),
            password: self.password.clone(),
            is_admin: self.is_admin,
            created_at: self.created_at,
            updated_at: self.updated_at,
        }
    }
}

/// Mathematical model of a stored quote row.
pub ghost struct QuoteV {
    pub id: i32,
    pub content: Seq<char>,
    pub votes: i32,
    pub visible: bool,
    pub moderated_by: Option<i32>,
    pub ip: Seq<char>,
    pub created_at: i64,
    pub updated_at: i64,
    pub user_id: Option<i32>,
}

/// A submitted quote, as the storage layer holds it.
///
/// A quote is born invisible and unmoderated; `moderated_by` names the admin
/// who later flipped its visibility, never the submitter. `user_id` is the
/// author when the submission was authenticated, and absent for an anonymous
/// submission.
#[derive(Debug)]
pub struct Quote {
    pub id: i32,
    pub content: String,
    pub votes: i32,
    pub visible: bool,
    pub moderated_by: Option<i32>,
    pub ip: String,
    pub created_at: i64,
    pub updated_at: i64,
    pub user_id: Option<i32>,
}

impl View for Quote {
    type V = QuoteV;

    open spec fn view(&self) -> QuoteV {
        QuoteV {
            id: self.id,
            content: self.content@,
            votes: self.votes,
            visible: self.visible,
            moderated_by: self.moderated_by,
            ip: self.ip@,
            created_at: self.created_at,
            updated_at: self.updated_at,
            user_id: self.user_id,
        }
    }
}

impl DeepView for Quote {
    type V = QuoteV;

    open spec fn deep_view(&self) -> QuoteV {
        self.view()
    }
}

impl Quote {
    /// Field-for-field copy of the row.
    pub fn duplicate(&self) -> (r: Quote)
        ensures
            r@ == self@,
    {
        Quote {
            id: self.id,
            content: self.content.clone(),
            votes: self.votes,
            visible: self.visible,
            moderated_by: self.moderated_by,
            ip: self.ip.clone(),
            created_at: self.created_at,
            updated_at: self.updated_at,
            user_id: self.user_id,
        }
    }
}

} // verus!
