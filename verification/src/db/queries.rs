use vstd::prelude::*;

use crate::credentials::{derived_key, generate_salt, hex_decode, hex_encode, hex_from, hex_of,
    verifies, verify, CREDENTIAL_LEN};
use crate::db::models::{Quote, QuoteV, User, UserV};
use crate::error::Error;

verus! {

/// Greatest number of quotes the ranked listing returns.
pub const TOP_QUOTES_LIMIT: usize = 30;

/// The views of a sequence of user rows, element for element.
pub open spec fn user_views(s: Seq<User>) -> Seq<UserV> {
    Seq::new(s.len(), |i: int| s[i]@)
}

/// The views of a sequence of quote rows, element for element.
pub open spec fn quote_views(s: Seq<Quote>) -> Seq<QuoteV> {
    Seq::new(s.len(), |i: int| s[i]@)
}

/// Whether some user row carries this username.
pub open spec fn has_username(users: Seq<UserV>, name: Seq<char>) -> bool {
    exists|i: int| 0 <= i < users.len() && #[trigger] users[i].username == name
}

/// The first user row carrying this username, if any.
pub open spec fn find_by_username(users: Seq<UserV>, name: Seq<char>) -> Option<UserV>
    decreases users.len(),
{
    if users.len() == 0 {
        None
    } else if users[0].username == name {
        Some(users[0])
    } else {
        find_by_username(users.drop_first(), name)
    }
}

/// The first user row carrying this id, if any.
pub open spec fn find_user(users: Seq<UserV>, id: i32) -> Option<UserV>
    decreases users.len(),
{
    if users.len() == 0 {
        None
    } else if users[0].id == id {
        Some(users[0])
    } else {
        find_user(users.drop_first(), id)
    }
}

/// The author joined to a quote row: the referenced user, when the
/// reference is present and resolves; a dangling or absent reference
/// yields no author, never an error.
pub open spec fn author_of(users: Seq<UserV>, user_id: Option<i32>) -> Option<UserV> {
    match user_id {
        None => None,
        Some(id) => find_user(users, id),
    }
}

/// The id the storage layer assigns to the next user row.
pub open spec fn next_user_id(users: Seq<UserV>) -> int {
    if users.len() == 0 {
        1
    } else {
        users.last().id + 1
    }
}

/// The id the storage layer assigns to the next quote row.
pub open spec fn next_quote_id(quotes: Seq<QuoteV>) -> int {
    if quotes.len() == 0 {
        1
    } else {
        quotes.last().id + 1
    }
}

/// The storage layer: user and quote rows, held in insertion order.
///
/// Stands in for the backing database; each id is assigned once, by the
/// insert itself, so concurrent creators can never observe each other's
/// rows when resolving the row they just inserted.
pub struct Store {
    pub users: Vec<User>,
    pub quotes: Vec<Quote>,
}

impl Store {
    pub open spec fn users_v(self) -> Seq<UserV> {
        user_views(self.users@)
    }

    pub open spec fn quotes_v(self) -> Seq<QuoteV> {
        quote_views(self.quotes@)
    }

    /// Storage invariant: ids are positive and strictly increase in
    /// insertion order (so ids are unique), and usernames are unique.
    pub open spec fn wf(self) -> bool {
        &&& forall|i: int, j: int|
            0 <= i < j < self.users_v().len() ==> (#[trigger] self.users_v()[i]).id < (
            #[trigger] self.users_v()[j]).id
        &&& forall|i: int, j: int|
            0 <= i < j < self.users_v().len() ==> (#[trigger] self.users_v()[i]).username != (
            #[trigger] self.users_v()[j]).username
        &&& forall|i: int| 0 <= i < self.users_v().len() ==> (#[trigger] self.users_v()[i]).id >= 1
        &&& forall|i: int, j: int|
            0 <= i < j < self.quotes_v().len() ==> (#[trigger] self.quotes_v()[i]).id < (
            #[trigger] self.quotes_v()[j]).id
        &&& forall|i: int|
            0 <= i < self.quotes_v().len() ==> (#[trigger] self.quotes_v()[i]).id >= 1
    }

    /// An empty store.
    pub fn new() -> (r: Store)
        ensures
            r.wf(),
            r.users_v() == Seq::<UserV>::empty(),
            r.quotes_v() == Seq::<QuoteV>::empty(),
    {
        let r = Store { users: Vec::new(), quotes: Vec::new() };
        proof {
            assert(r.users_v() =~= Seq::<UserV>::empty());
            assert(r.quotes_v() =~= Seq::<QuoteV>::empty());
        }
        r
    }

    /// Adds a user row as the storage layer would hold it — what an
    /// earlier session's signups left behind. Accepted exactly when it
    /// keeps the storage invariant: an id at or above the next assigned
    /// one, and a username not yet taken.
    pub fn load_user(&mut self, user: User) -> (r: bool)
        requires
            old(self).wf(),
        ensures
            final(self).wf(),
            final(self).quotes_v() == old(self).quotes_v(),
            r == (user@.id >= next_user_id(old(self).users_v()) && !has_username(
                old(self).users_v(),
                user@.username,
            )),
            r ==> final(self).users_v() == old(self).users_v().push(user@),
            !r ==> final(self).users_v() == old(self).users_v(),
    {
        let taken = username_taken(&self.users, &user.username);
        let n = self.users.len();
        let id_ok: bool = if n == 0 {
            user.id >= 1
        } else {
            self.users[n - 1].id < user.id
        };
        proof {
            if n > 0 {
                assert(user_views(self.users@)[n - 1] == self.users@[n - 1]@);
            }
        }
        if id_ok && !taken {
            let ghost old_users = self.users@;
            self.users.push(user);
            proof {
                lemma_user_views_push(old_users, self.users@[old_users.len() as int]);
                assert(self.users@[old_users.len() as int]@ == user@);
                assert(self.users@ == old_users.push(self.users@[old_users.len() as int]));
                lemma_push_user_keeps_wf(*old(self), *self, user@);
            }
            true
        } else {
            false
        }
    }

    /// Adds a quote row as the storage layer would hold it — what earlier
    /// submissions and the external moderation action left behind.
    /// Accepted exactly when its id is at or above the next assigned one.
    pub fn load_quote(&mut self, quote: Quote) -> (r: bool)
        requires
            old(self).wf(),
        ensures
            final(self).wf(),
            final(self).users_v() == old(self).users_v(),
            r == (quote@.id >= next_quote_id(old(self).quotes_v())),
            r ==> final(self).quotes_v() == old(self).quotes_v().push(quote@),
            !r ==> final(self).quotes_v() == old(self).quotes_v(),
    {
        let n = self.quotes.len();
        let id_ok: bool = if n == 0 {
            quote.id >= 1
        } else {
            self.quotes[n - 1].id < quote.id
        };
        proof {
            if n > 0 {
                assert(quote_views(self.quotes@)[n - 1] == self.quotes@[n - 1]@);
            }
        }
        if id_ok {
            let ghost old_quotes = self.quotes@;
            self.quotes.push(quote);
            proof {
                lemma_quote_views_push(old_quotes, self.quotes@[old_quotes.len() as int]);
                lemma_push_quote_keeps_wf(*old(self), *self, quote@);
            }
            true
        } else {
            false
        }
    }
}

/// The view of an optional user row.
pub open spec fn opt_user_view(o: Option<User>) -> Option<UserV> {
    match o {
        None => None,
        Some(u) => Some(u@),
    }
}

/// Relies on chrono::Utc::now: the current time as Unix seconds. The
/// clock decides the value; nothing is promised of it.
#[verifier::external_body]
fn now_seconds() -> i64 {
    chrono::Utc::now().timestamp()
}

/// Whether this username/password pair logs in against these rows: the
/// username resolves to a row whose stored salt and hash decode from
/// lowercase hex, whose hash has the credential length, and whose hash is
/// the derivation of the password under that salt.
pub open spec fn login_ok(users: Seq<UserV>, username: Seq<char>, password: Seq<char>) -> bool {
    match find_by_username(users, username) {
        None => false,
        Some(u) => match (hex_from(u.salt), hex_from(u.password)) {
            (Some(salt), Some(hash)) => hash.len() == CREDENTIAL_LEN && verifies(
                salt,
                password,
                hash,
            ),
            _ => false,
        },
    }
}

/// Creates a user from a caller-supplied salt: derives the password hash
/// and persists a new row with `is_admin` false. Fails with
/// `DuplicateUsername` exactly when the username is already present, and
/// with `Persistence` exactly when the id space is exhausted; on every
/// other input the row is created.
pub fn create_user_with_salt(store: &mut Store, username: &str, password: &str, salt: &[u8]) -> (r:
    Result<User, Error>)
    requires
        old(store).wf(),
        salt@.len() == CREDENTIAL_LEN,
    ensures
        final(store).wf(),
        final(store).quotes_v() == old(store).quotes_v(),
        r is Err ==> final(store).users_v() == old(store).users_v(),
        r == Result::<User, Error>::Err(Error::DuplicateUsername) <==> has_username(
            old(store).users_v(),
            username@,
        ),
        !has_username(old(store).users_v(), username@) && next_user_id(old(store).users_v())
            > i32::MAX ==> r == Result::<User, Error>::Err(Error::Persistence),
        !has_username(old(store).users_v(), username@) && next_user_id(old(store).users_v())
            <= i32::MAX ==> r is Ok,
        r matches Ok(u) ==> {
            &&& u@.username == username@
            &&& u@.is_admin == false
            &&& u@.id == next_user_id(old(store).users_v())
            &&& u@.created_at == u@.updated_at
            &&& u@.salt == hex_of(salt@)
            &&& u@.password == hex_of(derived_key(salt@, password@))
            &&& final(store).users_v() == old(store).users_v().push(u@)
        },
{
    let name = username.to_owned();
    let taken = username_taken(&store.users, &name);
    if taken {
        return Err(Error::DuplicateUsername);
    }
    let n = store.users.len();
    let new_id: i32;
    if n == 0 {
        new_id = 1;
    } else {
        let last_id = store.users[n - 1].id;
        proof {
            assert(store.users_v()[n - 1] == store.users@[n - 1]@);
        }
        if last_id == i32::MAX {
            return Err(Error::Persistence);
        }
        new_id = last_id + 1;
    }
    let pw_hash = crate::credentials::derive(salt, password);
    let now = now_seconds();
    let user = User {
        id: new_id,
        username: name,
        salt: hex_encode(salt),
        password: hex_encode(pw_hash.as_slice()),
        is_admin: false,
        created_at: now,
        updated_at: now,
    };
    let result = user.duplicate();
    let ghost old_users = store.users@;
    store.users.push(user);
    proof {
        lemma_user_views_push(old_users, store.users@[old_users.len() as int]);
        lemma_push_user_keeps_wf(*old(store), *store, result@);
    }
    Ok(result)
}

/// Creates a user: generates a fresh random salt, derives the password
/// hash, and persists a new row with `is_admin` false. Fails with
/// `DuplicateUsername` exactly when the username is already present;
/// `Persistence` covers an exhausted id space or a failure of the random
/// source.
pub fn create_user(store: &mut Store, username: &str, password: &str) -> (r: Result<User, Error>)
    requires
        old(store).wf(),
    ensures
        final(store).wf(),
        final(store).quotes_v() == old(store).quotes_v(),
        r is Err ==> final(store).users_v() == old(store).users_v(),
        r == Result::<User, Error>::Err(Error::DuplicateUsername) <==> has_username(
            old(store).users_v(),
            username@,
        ),
        r matches Err(e) ==> e == Error::DuplicateUsername || e == Error::Persistence,
        r matches Ok(u) ==> {
            &&& u@.username == username@
            &&& u@.is_admin == false
            &&& u@.id == next_user_id(old(store).users_v())
            &&& u@.created_at == u@.updated_at
            &&& (exists|salt: Seq<u8>|
                #![auto]
                salt.len() == CREDENTIAL_LEN && u@.salt == hex_of(salt) && u@.password == hex_of(
                    derived_key(salt, password@),
                ))
            &&& final(store).users_v() == old(store).users_v().push(u@)
        },
{
    match generate_salt() {
        Some(salt) => create_user_with_salt(store, username, password, salt.as_slice()),
        None => {
            // the duplicate outcome must not depend on the random source
            let name = username.to_owned();
            if username_taken(&store.users, &name) {
                Err(Error::DuplicateUsername)
            } else {
                Err(Error::Persistence)
            }
        },
    }
}

/// Returns the user for the given username & password combination. Every
/// failure — unknown username, undecodable stored salt or hash, or a
/// mismatched password — yields the same `InvalidCredentials` outcome, so
/// the answer carries no user-enumeration signal.
pub fn verify_login(store: &Store, username: &str, password: &str) -> (r: Result<User, Error>)
    requires
        store.wf(),
    ensures
        r is Ok <==> login_ok(store.users_v(), username@, password@),
        r matches Ok(u) ==> find_by_username(store.users_v(), username@) == Some(u@),
        r matches Err(e) ==> e == Error::InvalidCredentials,
{
    let name = username.to_owned();
    let mut i: usize = 0;
    while i < store.users.len()
        invariant
            name@ == username@,
            i <= store.users@.len(),
            forall|k: int| 0 <= k < i ==> (#[trigger] user_views(store.users@)[k]).username
                != username@,
        decreases store.users@.len() - i,
    {
        if store.users[i].username == name {
            proof {
                assert(store.users_v()[i as int] == store.users@[i as int]@);
                lemma_find_by_username_at(store.users_v(), username@, i as int);
            }
            let salt = match hex_decode(store.users[i].salt.as_str()) {
                Some(s) => s,
                None => {
                    return Err(Error::InvalidCredentials);
                },
            };
            let hash = match hex_decode(store.users[i].password.as_str()) {
                Some(h) => h,
                None => {
                    return Err(Error::InvalidCredentials);
                },
            };
            if verify(salt.as_slice(), password, hash.as_slice()) {
                return Ok(store.users[i].duplicate());
            } else {
                return Err(Error::InvalidCredentials);
            }
        }
        i += 1;
    }
    proof {
        lemma_find_by_username_none(store.users_v(), username@);
    }
    Err(Error::InvalidCredentials)
}

/// Creates a quote: always born invisible and unmoderated, with zero
/// votes, the submitter's address, and the supplied author reference (or
/// none, for an anonymous submission); paired with the author row when
/// the reference resolves. Fails exactly when the id space is exhausted.
pub fn create_quote(store: &mut Store, content: &str, ip: &str, user_id: Option<i32>) -> (r: Result<
    (Quote, Option<User>),
    Error,
>)
    requires
        old(store).wf(),
    ensures
        final(store).wf(),
        final(store).users_v() == old(store).users_v(),
        r is Err ==> final(store).quotes_v() == old(store).quotes_v(),
        r is Err <==> next_quote_id(old(store).quotes_v()) > i32::MAX,
        r matches Err(e) ==> e == Error::Persistence,
        r matches Ok(p) ==> {
            &&& p.0@.content == content@
            &&& p.0@.votes == 0
            &&& p.0@.visible == false
            &&& p.0@.moderated_by is None
            &&& p.0@.ip == ip@
            &&& p.0@.user_id == user_id
            &&& p.0@.id == next_quote_id(old(store).quotes_v())
            &&& p.0@.created_at == p.0@.updated_at
            &&& final(store).quotes_v() == old(store).quotes_v().push(p.0@)
            &&& opt_user_view(p.1) == author_of(old(store).users_v(), user_id)
        },
{
    let n = store.quotes.len();
    let new_id: i32;
    if n == 0 {
        new_id = 1;
    } else {
        let last_id = store.quotes[n - 1].id;
        proof {
            assert(store.quotes_v()[n - 1] == store.quotes@[n - 1]@);
        }
        if last_id == i32::MAX {
            return Err(Error::Persistence);
        }
        new_id = last_id + 1;
    }
    let now = now_seconds();
    let quote = Quote {
        id: new_id,
        content: content.to_owned(),
        votes: 0,
        visible: false,
        moderated_by: None,
        ip: ip.to_owned(),
        created_at: now,
        updated_at: now,
        user_id,
    };
    let result_q = quote.duplicate();
    let author = match user_id {
        Some(id) => find_user_row(&store.users, id),
        None => None,
    };
    let ghost old_quotes = store.quotes@;
    store.quotes.push(quote);
    proof {
        lemma_quote_views_push(old_quotes, store.quotes@[old_quotes.len() as int]);
        lemma_push_quote_keeps_wf(*old(store), *store, result_q@);
    }
    Ok((result_q, author))
}

/// The stored user row with this id, duplicated, if any.
fn find_user_row(users: &Vec<User>, id: i32) -> (r: Option<User>)
    ensures
        opt_user_view(r) == find_user(user_views(users@), id),
{
    let mut i: usize = 0;
    while i < users.len()
        invariant
            i <= users@.len(),
            forall|k: int| 0 <= k < i ==> (#[trigger] user_views(users@)[k]).id != id,
        decreases users@.len() - i,
    {
        if users[i].id == id {
            proof {
                assert(user_views(users@)[i as int] == users@[i as int]@);
                lemma_find_user_at(user_views(users@), id, i as int);
            }
            return Some(users[i].duplicate());
        }
        i += 1;
    }
    proof {
        lemma_find_user_none(user_views(users@), id);
    }
    None
}

/// Creating a user makes its username present from then on, and leaves
/// every earlier row in place unchanged: so a second creation under the
/// same name must fail with `DuplicateUsername` (by `create_user`'s
/// contract), while the first user's record is unaffected.
pub proof fn lemma_created_username_taken(users: Seq<UserV>, u: UserV)
    ensures
        has_username(users.push(u), u.username),
        forall|i: int| 0 <= i < users.len() ==> #[trigger] users.push(u)[i] == users[i],
{
    assert(users.push(u)[users.len() as int] == u);
    assert(users.push(u)[users.len() as int].username == u.username);
}

/// A user row written the way `create_user` writes it — fresh username,
/// hex-encoded salt, hex-encoded derivation of the password — can log in
/// with that password: the stored credentials decode back to the salt
/// and hash, and the hash verifies.
pub proof fn lemma_signup_then_login(
    users: Seq<UserV>,
    u: UserV,
    password: Seq<char>,
    salt: Seq<u8>,
)
    requires
        !has_username(users, u.username),
        u.salt == hex_of(salt),
        u.password == hex_of(derived_key(salt, password)),
        derived_key(salt, password).len() == CREDENTIAL_LEN,
    ensures
        login_ok(users.push(u), u.username, password),
{
    let all = users.push(u);
    assert forall|k: int| 0 <= k < users.len() implies (#[trigger] all[k]).username
        != u.username by {
        assert(all[k] == users[k]);
        assert(!(users[k].username == u.username));
    }
    assert(all[users.len() as int] == u);
    lemma_find_by_username_at(all, u.username, users.len() as int);
    crate::credentials::lemma_hex_round_trip(salt);
    crate::credentials::lemma_hex_round_trip(derived_key(salt, password));
}

/// Ranking order of the top listing: more votes first, ties broken by
/// lower (older) id.
pub open spec fn rank_le(a: QuoteV, b: QuoteV) -> bool {
    a.votes > b.votes || (a.votes == b.votes && a.id <= b.id)
}

/// Sorted by the ranking order.
pub open spec fn ranked(s: Seq<QuoteV>) -> bool {
    forall|i: int, j: int| 0 <= i < j < s.len() ==> #[trigger] rank_le(s[i], s[j])
}

/// The visible quotes, in storage (id) order: exactly the rows whose
/// `visible` flag is set.
pub open spec fn visible_quotes(qs: Seq<QuoteV>) -> Seq<QuoteV>
    decreases qs.len(),
{
    if qs.len() == 0 {
        Seq::empty()
    } else if qs.last().visible {
        visible_quotes(qs.drop_last()).push(qs.last())
    } else {
        visible_quotes(qs.drop_last())
    }
}

/// Appending a row extends the visible selection exactly when the row is
/// visible.
pub proof fn lemma_visible_push(qs: Seq<QuoteV>, q: QuoteV)
    ensures
        visible_quotes(qs.push(q)) == (if q.visible {
            visible_quotes(qs).push(q)
        } else {
            visible_quotes(qs)
        }),
{
    assert(qs.push(q).drop_last() =~= qs);
    assert(qs.push(q).last() == q);
}

/// Every row of the visible selection is visible.
pub proof fn lemma_visible_pred(qs: Seq<QuoteV>)
    ensures
        forall|i: int|
            0 <= i < visible_quotes(qs).len() ==> (#[trigger] visible_quotes(qs)[i]).visible,
    decreases qs.len(),
{
    if qs.len() > 0 {
        lemma_visible_pred(qs.drop_last());
        let prev = visible_quotes(qs.drop_last());
        assert forall|i: int| 0 <= i < visible_quotes(qs).len() implies (
        #[trigger] visible_quotes(qs)[i]).visible by {
            if qs.last().visible {
                if i < prev.len() {
                    assert(visible_quotes(qs)[i] == prev[i]);
                } else {
                    assert(visible_quotes(qs)[i] == qs.last());
                }
            } else {
                assert(visible_quotes(qs)[i] == prev[i]);
            }
        }
    }
}

/// The quote views of a listing result.
pub open spec fn listed_quotes(r: Seq<(Quote, Option<User>)>) -> Seq<QuoteV> {
    Seq::new(r.len(), |i: int| r[i].0@)
}

/// The rows whose `visible` flag is set, in storage order, duplicated.
fn collect_visible(quotes: &Vec<Quote>) -> (r: Vec<Quote>)
    ensures
        quote_views(r@) == visible_quotes(quote_views(quotes@)),
{
    let ghost all = quote_views(quotes@);
    let mut out: Vec<Quote> = Vec::new();
    let mut i: usize = 0;
    proof {
        assert(all.take(0) =~= Seq::<QuoteV>::empty());
        assert(quote_views(out@) =~= Seq::<QuoteV>::empty());
        assert(visible_quotes(all.take(0)) == Seq::<QuoteV>::empty());
    }
    while i < quotes.len()
        invariant
            i <= quotes@.len(),
            all == quote_views(quotes@),
            quote_views(out@) == visible_quotes(all.take(i as int)),
        decreases quotes@.len() - i,
    {
        let ghost prev = quote_views(out@);
        proof {
            assert(all.take(i + 1) =~= all.take(i as int).push(all[i as int]));
            lemma_visible_push(all.take(i as int), all[i as int]);
        }
        if quotes[i].visible {
            let q = quotes[i].duplicate();
            let ghost old_out = out@;
            out.push(q);
            proof {
                lemma_quote_views_push(old_out, out@[old_out.len() as int]);
                assert(all[i as int] == quotes@[i as int]@);
                assert(quote_views(out@) == prev.push(all[i as int]));
            }
        } else {
            proof {
                assert(all[i as int] == quotes@[i as int]@);
                assert(!(all[i as int].visible));
            }
        }
        i += 1;
    }
    proof {
        assert(all.take(quotes@.len() as int) =~= all);
    }
    out
}

/// Whether `a` ranks at or before `b` in the top listing.
fn rank_le_exec(a: &Quote, b: &Quote) -> (r: bool)
    ensures
        r == rank_le(a@, b@),
{
    a.votes > b.votes || (a.votes == b.votes && a.id <= b.id)
}

proof fn lemma_quote_views_insert(s: Seq<Quote>, j: int, q: Quote)
    requires
        0 <= j <= s.len(),
    ensures
        quote_views(s.insert(j, q)) =~= quote_views(s).insert(j, q@),
{
    assert forall|i: int| 0 <= i < s.len() + 1 implies quote_views(s.insert(j, q))[i]
        == quote_views(s).insert(j, q@)[i] by {
        if i < j {
            assert(s.insert(j, q)[i] == s[i]);
            assert(quote_views(s).insert(j, q@)[i] == quote_views(s)[i]);
        } else if i == j {
            assert(s.insert(j, q)[i] == q);
            assert(quote_views(s).insert(j, q@)[i] == q@);
        } else {
            assert(s.insert(j, q)[i] == s[i - 1]);
            assert(quote_views(s).insert(j, q@)[i] == quote_views(s)[i - 1]);
        }
    }
}

/// Sorts rows by the ranking order (insertion sort): the result is ranked
/// and holds exactly the input rows.
fn sort_ranked(v: Vec<Quote>) -> (r: Vec<Quote>)
    ensures
        quote_views(r@).to_multiset() == quote_views(v@).to_multiset(),
        ranked(quote_views(r@)),
{
    let ghost all = quote_views(v@);
    let mut out: Vec<Quote> = Vec::new();
    let mut idx: usize = 0;
    proof {
        broadcast use vstd::seq_lib::group_to_multiset_ensures;

        assert(all.take(0) =~= Seq::<QuoteV>::empty());
        assert(quote_views(out@) =~= Seq::<QuoteV>::empty());
        assert(quote_views(out@).to_multiset() =~= all.take(0).to_multiset());
    }
    while idx < v.len()
        invariant
            idx <= v@.len(),
            all == quote_views(v@),
            quote_views(out@).to_multiset() == all.take(idx as int).to_multiset(),
            ranked(quote_views(out@)),
        decreases v@.len() - idx,
    {
        let q = v[idx].duplicate();
        proof {
            assert(q@ == all[idx as int]);
        }
        let mut j: usize = 0;
        while j < out.len() && rank_le_exec(&out[j], &q)
            invariant
                j <= out@.len(),
                forall|k: int| 0 <= k < j ==> #[trigger] rank_le(quote_views(out@)[k], q@),
            decreases out@.len() - j,
        {
            j += 1;
        }
        let ghost old_out = out@;
        let ghost oldv = quote_views(out@);
        out.insert(j, q);
        proof {
            broadcast use vstd::seq_lib::group_to_multiset_ensures;

            lemma_quote_views_insert(old_out, j as int, out@[j as int]);
            assert(out@ == old_out.insert(j as int, out@[j as int]));
            assert(out@[j as int]@ == q@);
            let newv = quote_views(out@);
            assert(newv == oldv.insert(j as int, q@));
            // multiset: insert adds one occurrence
            vstd::seq_lib::to_multiset_insert(oldv, j as int, q@);
            assert(all.take(idx + 1) =~= all.take(idx as int).push(all[idx as int]));
            assert(newv.to_multiset() =~= all.take(idx + 1).to_multiset());
            // sortedness
            assert forall|a: int, b: int| 0 <= a < b < newv.len() implies #[trigger] rank_le(
                newv[a],
                newv[b],
            ) by {
                let jj = j as int;
                if b < jj {
                    assert(newv[a] == oldv[a] && newv[b] == oldv[b]);
                    assert(rank_le(oldv[a], oldv[b]));
                } else if a < jj && b == jj {
                    assert(newv[a] == oldv[a]);
                    assert(rank_le(oldv[a], q@));
                } else if a < jj && b > jj {
                    assert(newv[a] == oldv[a] && newv[b] == oldv[b - 1]);
                    assert(rank_le(oldv[a], oldv[b - 1]));
                } else if a == jj && b > jj {
                    assert(newv[a] == q@ && newv[b] == oldv[b - 1]);
                    assert(jj < oldv.len() ==> !rank_le(oldv[jj], q@));
                    assert(jj <= b - 1 < oldv.len());
                    if jj < b - 1 {
                        assert(rank_le(oldv[jj], oldv[b - 1]));
                    }
                    assert(rank_le(q@, oldv[b - 1]));
                } else {
                    assert(newv[a] == oldv[a - 1] && newv[b] == oldv[b - 1]);
                    assert(rank_le(oldv[a - 1], oldv[b - 1]));
                }
            }
        }
        idx += 1;
    }
    proof {
        assert(all.take(v@.len() as int) =~= all);
    }
    out
}

/// Pairs each row with its author, by the left-outer-join rule: a quote
/// with no author, or with a dangling reference, is paired with no user,
/// never an error.
fn attach_authors(users: &Vec<User>, quotes: Vec<Quote>) -> (r: Vec<(Quote, Option<User>)>)
    ensures
        listed_quotes(r@) == quote_views(quotes@),
        forall|i: int| 0 <= i < r@.len() ==> opt_user_view(#[trigger] r@[i].1) == author_of(
            user_views(users@),
            r@[i].0@.user_id,
        ),
{
    let mut out: Vec<(Quote, Option<User>)> = Vec::new();
    let mut i: usize = 0;
    while i < quotes.len()
        invariant
            i <= quotes@.len(),
            out@.len() == i,
            forall|k: int| 0 <= k < i ==> (#[trigger] out@[k]).0@ == quote_views(quotes@)[k],
            forall|k: int| 0 <= k < i ==> opt_user_view((#[trigger] out@[k]).1) == author_of(
                user_views(users@),
                out@[k].0@.user_id,
            ),
        decreases quotes@.len() - i,
    {
        let q = quotes[i].duplicate();
        let author = match q.user_id {
            Some(id) => find_user_row(users, id),
            None => None,
        };
        proof {
            assert(q@ == quote_views(quotes@)[i as int]);
        }
        out.push((q, author));
        i += 1;
    }
    proof {
        assert(listed_quotes(out@) =~= quote_views(quotes@));
    }
    out
}

/// The rows in reverse order.
fn reverse_rows(v: Vec<Quote>) -> (r: Vec<Quote>)
    ensures
        quote_views(r@) == quote_views(v@).reverse(),
{
    let mut out: Vec<Quote> = Vec::new();
    let mut i: usize = v.len();
    while i > 0
        invariant
            i <= v@.len(),
            out@.len() == v@.len() - i,
            forall|k: int| 0 <= k < out@.len() ==> (#[trigger] out@[k])@ == quote_views(
                v@,
            )[v@.len() - 1 - k],
        decreases i,
    {
        i -= 1;
        let q = v[i].duplicate();
        proof {
            assert(q@ == quote_views(v@)[i as int]);
        }
        out.push(q);
    }
    proof {
        assert(quote_views(out@) =~= quote_views(v@).reverse());
    }
    out
}

/// The visible quotes ranked by votes (descending), ties broken by lower
/// id, capped at `TOP_QUOTES_LIMIT` results, each joined with its author.
/// Invisible rows never appear, whatever their votes or id. Among the
/// visible rows, the listing keeps exactly the best-ranked ones: any
/// visible row left out ranks at or after everything listed.
pub fn top_quotes(store: &Store) -> (r: Vec<(Quote, Option<User>)>)
    requires
        store.wf(),
    ensures
        ({
            let vis = visible_quotes(store.quotes_v());
            let sel = listed_quotes(r@);
            &&& vis.len() >= TOP_QUOTES_LIMIT ==> sel.len() == TOP_QUOTES_LIMIT
            &&& vis.len() < TOP_QUOTES_LIMIT ==> sel.len() == vis.len()
            &&& ranked(sel)
            &&& forall|i: int| 0 <= i < sel.len() ==> (#[trigger] sel[i]).visible
            &&& forall|q: QuoteV| #[trigger] sel.to_multiset().count(q) <= vis.to_multiset().count(
                q,
            )
            &&& forall|q: QuoteV, i: int|
                #![trigger sel.to_multiset().count(q), sel[i]]
                sel.to_multiset().count(q) < vis.to_multiset().count(q) && 0 <= i < sel.len()
                    ==> rank_le(sel[i], q)
            &&& forall|i: int| 0 <= i < r@.len() ==> opt_user_view(#[trigger] r@[i].1) == author_of(
                store.users_v(),
                r@[i].0@.user_id,
            )
        }),
{
    let vis_rows = collect_visible(&store.quotes);
    let mut sorted = sort_ranked(vis_rows);
    let ghost vis = visible_quotes(store.quotes_v());
    let ghost full = quote_views(sorted@);
    if sorted.len() > TOP_QUOTES_LIMIT {
        sorted.truncate(TOP_QUOTES_LIMIT);
    }
    let ghost m = quote_views(sorted@).len() as int;
    proof {
        broadcast use vstd::seq_lib::group_to_multiset_ensures;

        assert(quote_views(sorted@) =~= full.subrange(0, m));
        assert(full.len() == full.to_multiset().len());
        assert(vis.len() == vis.to_multiset().len());
        assert(full.len() == vis.len());
        lemma_visible_pred(store.quotes_v());
        lemma_top_selection(full, vis, m);
    }
    let r = attach_authors(&store.users, sorted);
    proof {
        let sel = listed_quotes(r@);
        assert(sel == full.subrange(0, m));
        assert forall|i: int, j: int| 0 <= i < j < sel.len() implies #[trigger] rank_le(
            sel[i],
            sel[j],
        ) by {
            assert(sel[i] == full[i]);
            assert(sel[j] == full[j]);
            assert(rank_le(full[i], full[j]));
        }
    }
    r
}

/// The selection facts of a ranked prefix: its counts never exceed the
/// source's, and any row with occurrences left over ranks at or after the
/// whole prefix; every selected row is visible.
proof fn lemma_top_selection(full: Seq<QuoteV>, vis: Seq<QuoteV>, m: int)
    requires
        0 <= m <= full.len(),
        ranked(full),
        full.to_multiset() == vis.to_multiset(),
        forall|k: int| 0 <= k < vis.len() ==> (#[trigger] vis[k]).visible,
    ensures
        ({
            let sel = full.subrange(0, m);
            &&& forall|q: QuoteV| #[trigger] sel.to_multiset().count(q) <= vis.to_multiset().count(
                q,
            )
            &&& forall|q: QuoteV, i: int|
                #![trigger sel.to_multiset().count(q), sel[i]]
                sel.to_multiset().count(q) < vis.to_multiset().count(q) && 0 <= i < sel.len()
                    ==> rank_le(sel[i], q)
            &&& forall|i: int| 0 <= i < sel.len() ==> (#[trigger] sel[i]).visible
        }),
{
    broadcast use vstd::seq_lib::group_to_multiset_ensures;

    let sel = full.subrange(0, m);
    let rest = full.subrange(m, full.len() as int);
    assert(full =~= sel + rest);
    vstd::seq_lib::lemma_multiset_commutative(sel, rest);
    assert(full.to_multiset() == sel.to_multiset().add(rest.to_multiset()));
    assert forall|q: QuoteV| #[trigger] sel.to_multiset().count(q) <= vis.to_multiset().count(
        q,
    ) by {
        assert(vis.to_multiset().count(q) == sel.to_multiset().count(q) + rest.to_multiset().count(
            q,
        ));
    }
    assert forall|q: QuoteV, i: int|
        #![trigger sel.to_multiset().count(q), sel[i]]
        sel.to_multiset().count(q) < vis.to_multiset().count(q) && 0 <= i < sel.len() implies
        rank_le(sel[i], q) by {
        assert(vis.to_multiset().count(q) == sel.to_multiset().count(q) + rest.to_multiset().count(
            q,
        ));
        assert(rest.to_multiset().count(q) > 0);
        assert(rest.to_multiset().contains(q));
        assert(rest.contains(q));
        let k = choose|k: int| 0 <= k < rest.len() && rest[k] == q;
        assert(full[m + k] == q);
        assert(sel[i] == full[i]);
        assert(rank_le(full[i], full[m + k]));
    }
    assert forall|i: int| 0 <= i < sel.len() implies (#[trigger] sel[i]).visible by {
        assert(sel[i] == full[i]);
        assert(full.to_multiset().count(full[i]) > 0) by {
            assert(full.contains(full[i]));
        }
        assert(vis.to_multiset().count(full[i]) > 0);
        assert(vis.contains(full[i]));
        let k = choose|k: int| 0 <= k < vis.len() && vis[k] == full[i];
        assert(vis[k].visible);
    }
}

/// The visible quotes, newest id first (the reverse of storage order),
/// unbounded, each joined with its author. Invisible rows never appear.
pub fn recent_quotes(store: &Store) -> (r: Vec<(Quote, Option<User>)>)
    requires
        store.wf(),
    ensures
        ({
            let vis = visible_quotes(store.quotes_v());
            let sel = listed_quotes(r@);
            &&& sel == vis.reverse()
            &&& forall|i: int| 0 <= i < sel.len() ==> (#[trigger] sel[i]).visible
            &&& forall|i: int| 0 <= i < r@.len() ==> opt_user_view(#[trigger] r@[i].1) == author_of(
                store.users_v(),
                r@[i].0@.user_id,
            )
        }),
{
    let vis_rows = collect_visible(&store.quotes);
    let rev = reverse_rows(vis_rows);
    let r = attach_authors(&store.users, rev);
    proof {
        let vis = visible_quotes(store.quotes_v());
        let sel = listed_quotes(r@);
        lemma_visible_pred(store.quotes_v());
        assert forall|i: int| 0 <= i < sel.len() implies (#[trigger] sel[i]).visible by {
            assert(sel[i] == vis.reverse()[i]);
            assert(vis.reverse()[i] == vis[vis.len() - 1 - i]);
        }
    }
    r
}

proof fn lemma_find_by_username_at(users: Seq<UserV>, name: Seq<char>, i: int)
    requires
        0 <= i < users.len(),
        users[i].username == name,
        forall|k: int| 0 <= k < i ==> (#[trigger] users[k]).username != name,
    ensures
        find_by_username(users, name) == Some(users[i]),
    decreases users.len(),
{
    if i > 0 {
        assert(users[0].username != name);
        assert forall|k: int| 0 <= k < i - 1 implies (#[trigger] users.drop_first()[k]).username
            != name by {
            assert(users.drop_first()[k] == users[k + 1]);
        }
        assert(users.drop_first()[i - 1] == users[i]);
        lemma_find_by_username_at(users.drop_first(), name, i - 1);
    }
}

proof fn lemma_find_by_username_none(users: Seq<UserV>, name: Seq<char>)
    requires
        forall|k: int| 0 <= k < users.len() ==> (#[trigger] users[k]).username != name,
    ensures
        find_by_username(users, name) is None,
    decreases users.len(),
{
    if users.len() > 0 {
        assert(users[0].username != name);
        assert forall|k: int| 0 <= k < users.len() - 1 implies (
        #[trigger] users.drop_first()[k]).username != name by {
            assert(users.drop_first()[k] == users[k + 1]);
        }
        lemma_find_by_username_none(users.drop_first(), name);
    }
}

proof fn lemma_find_user_at(users: Seq<UserV>, id: i32, i: int)
    requires
        0 <= i < users.len(),
        users[i].id == id,
        forall|k: int| 0 <= k < i ==> (#[trigger] users[k]).id != id,
    ensures
        find_user(users, id) == Some(users[i]),
    decreases users.len(),
{
    if i > 0 {
        assert(users[0].id != id);
        assert forall|k: int| 0 <= k < i - 1 implies (#[trigger] users.drop_first()[k]).id != id by {
            assert(users.drop_first()[k] == users[k + 1]);
        }
        assert(users.drop_first()[i - 1] == users[i]);
        lemma_find_user_at(users.drop_first(), id, i - 1);
    }
}

proof fn lemma_find_user_none(users: Seq<UserV>, id: i32)
    requires
        forall|k: int| 0 <= k < users.len() ==> (#[trigger] users[k]).id != id,
    ensures
        find_user(users, id) is None,
    decreases users.len(),
{
    if users.len() > 0 {
        assert(users[0].id != id);
        assert forall|k: int| 0 <= k < users.len() - 1 implies (#[trigger] users.drop_first()[k]).id
            != id by {
            assert(users.drop_first()[k] == users[k + 1]);
        }
        lemma_find_user_none(users.drop_first(), id);
    }
}

/// Whether some stored row already carries this username.
fn username_taken(users: &Vec<User>, name: &String) -> (r: bool)
    ensures
        r == has_username(user_views(users@), name@),
{
    let mut i: usize = 0;
    while i < users.len()
        invariant
            i <= users@.len(),
            forall|k: int| 0 <= k < i ==> (#[trigger] user_views(users@)[k]).username != name@,
        decreases users@.len() - i,
    {
        if users[i].username == *name {
            proof {
                assert(user_views(users@)[i as int].username == name@);
            }
            return true;
        }
        i += 1;
    }
    false
}

proof fn lemma_user_views_push(s: Seq<User>, u: User)
    ensures
        user_views(s.push(u)) =~= user_views(s).push(u@),
{
    assert forall|i: int| 0 <= i < s.len() + 1 implies user_views(s.push(u))[i] == user_views(
        s,
    ).push(u@)[i] by {
        if i < s.len() {
            assert(s.push(u)[i] == s[i]);
        } else {
            assert(s.push(u)[i] == u);
        }
    }
}

proof fn lemma_quote_views_push(s: Seq<Quote>, q: Quote)
    ensures
        quote_views(s.push(q)) =~= quote_views(s).push(q@),
{
    assert forall|i: int| 0 <= i < s.len() + 1 implies quote_views(s.push(q))[i] == quote_views(
        s,
    ).push(q@)[i] by {
        if i < s.len() {
            assert(s.push(q)[i] == s[i]);
        } else {
            assert(s.push(q)[i] == q);
        }
    }
}

proof fn lemma_push_user_keeps_wf(pre: Store, post: Store, u: UserV)
    requires
        pre.wf(),
        post.quotes_v() == pre.quotes_v(),
        post.users_v() == pre.users_v().push(u),
        u.id >= next_user_id(pre.users_v()),
        !has_username(pre.users_v(), u.username),
    ensures
        post.wf(),
{
    let s = pre.users_v();
    let n = s.len() as int;
    assert forall|i: int| 0 <= i < n implies (#[trigger] s[i]).id < u.id by {
        if i < n - 1 {
            assert(s[i].id < s[n - 1].id);
        }
    }
    assert forall|i: int| 0 <= i < n implies (#[trigger] s[i]).username != u.username by {
        assert(!(s[i].username == u.username));
    }
    assert forall|i: int, j: int|
        0 <= i < j < post.users_v().len() implies (#[trigger] post.users_v()[i]).id < (
    #[trigger] post.users_v()[j]).id by {
        if j < n {
            assert(post.users_v()[i] == s[i] && post.users_v()[j] == s[j]);
        } else {
            assert(post.users_v()[j] == u);
            assert(post.users_v()[i] == s[i]);
        }
    }
    assert forall|i: int, j: int|
        0 <= i < j < post.users_v().len() implies (#[trigger] post.users_v()[i]).username != (
    #[trigger] post.users_v()[j]).username by {
        if j < n {
            assert(post.users_v()[i] == s[i] && post.users_v()[j] == s[j]);
        } else {
            assert(post.users_v()[j] == u);
            assert(post.users_v()[i] == s[i]);
        }
    }
    assert forall|i: int| 0 <= i < post.users_v().len() implies (#[trigger] post.users_v()[i]).id
        >= 1 by {
        if i < n {
            assert(post.users_v()[i] == s[i]);
        } else {
            assert(post.users_v()[i] == u);
        }
    }
}

proof fn lemma_push_quote_keeps_wf(pre: Store, post: Store, q: QuoteV)
    requires
        pre.wf(),
        post.users_v() == pre.users_v(),
        post.quotes_v() == pre.quotes_v().push(q),
        q.id >= next_quote_id(pre.quotes_v()),
    ensures
        post.wf(),
{
    let s = pre.quotes_v();
    let n = s.len() as int;
    assert forall|i: int| 0 <= i < n implies (#[trigger] s[i]).id < q.id by {
        if i < n - 1 {
            assert(s[i].id < s[n - 1].id);
        }
    }
    assert forall|i: int, j: int|
        0 <= i < j < post.quotes_v().len() implies (#[trigger] post.quotes_v()[i]).id < (
    #[trigger] post.quotes_v()[j]).id by {
        if j < n {
            assert(post.quotes_v()[i] == s[i] && post.quotes_v()[j] == s[j]);
        } else {
            assert(post.quotes_v()[j] == q);
            assert(post.quotes_v()[i] == s[i]);
        }
    }
    assert forall|i: int| 0 <= i < post.quotes_v().len() implies (#[trigger] post.quotes_v()[i]).id
        >= 1 by {
        if i < n {
            assert(post.quotes_v()[i] == s[i]);
        } else {
            assert(post.quotes_v()[i] == q);
        }
    }
}

} // verus!
