use vnq_server::db::models::{Quote, User};
use vnq_server::db::queries::{create_quote, create_user, recent_quotes, top_quotes, verify_login,
    Store};
use vnq_server::error::Error;

fn quote_row(id: i32, votes: i32, visible: bool) -> Quote {
    Quote {
        id,
        content: format!("quote {}", id),
        votes,
        visible,
        moderated_by: if visible { Some(1) } else { None },
        ip: String::new(),
        created_at: 0,
        updated_at: 0,
        user_id: None,
    }
}

#[test]
fn duplicate_username_fails_and_first_record_stands() {
    let mut store = Store::new();
    let first = create_user(&mut store, "alice", "pw-one").expect("first signup");
    assert_eq!(first.id, 1);
    assert!(!first.is_admin);

    let second = create_user(&mut store, "alice", "pw-two");
    assert!(matches!(second, Err(Error::DuplicateUsername)));

    // the first user's record is unaffected: the first password still logs in
    let found = verify_login(&store, "alice", "pw-one").expect("login after duplicate attempt");
    assert_eq!(found.id, 1);
    assert_eq!(found.username, "alice");
}

#[test]
fn login_failures_are_indistinguishable() {
    let mut store = Store::new();
    create_user(&mut store, "alice", "right").expect("signup");

    let unknown_user = verify_login(&store, "nobody", "whatever").unwrap_err();
    let wrong_password = verify_login(&store, "alice", "wrong").unwrap_err();
    assert_eq!(unknown_user, Error::InvalidCredentials);
    assert_eq!(wrong_password, Error::InvalidCredentials);
    assert_eq!(unknown_user, wrong_password);
    assert_eq!(unknown_user.user_message(), wrong_password.user_message());
}

#[test]
fn login_succeeds_with_the_right_password() {
    let mut store = Store::new();
    create_user(&mut store, "bob", "letmein").expect("signup");
    let user = verify_login(&store, "bob", "letmein").expect("login");
    assert_eq!(user.username, "bob");
    // stored credentials are hex, never the raw password
    assert_ne!(user.password, "letmein");
    assert_eq!(user.salt.len(), 128);
    assert_eq!(user.password.len(), 128);
}

#[test]
fn corrupt_stored_credentials_collapse_to_invalid_credentials() {
    let mut store = Store::new();
    let loaded = store.load_user(User {
        id: 1,
        username: "mallory".to_string(),
        salt: "not hex".to_string(),
        password: "also not hex".to_string(),
        is_admin: false,
        created_at: 0,
        updated_at: 0,
    });
    assert!(loaded);
    let err = verify_login(&store, "mallory", "anything").unwrap_err();
    assert_eq!(err, Error::InvalidCredentials);
}

#[test]
fn created_quote_is_hidden_unmoderated_and_anonymous() {
    let mut store = Store::new();
    let (quote, author) = create_quote(&mut store, "hello", "1.2.3.4", None).expect("create");
    assert_eq!(quote.id, 1);
    assert_eq!(quote.content, "hello");
    assert_eq!(quote.votes, 0);
    assert!(!quote.visible);
    assert_eq!(quote.moderated_by, None);
    assert_eq!(quote.ip, "1.2.3.4");
    assert_eq!(quote.user_id, None);
    assert_eq!(quote.created_at, quote.updated_at);
    assert!(author.is_none());
}

#[test]
fn created_quote_joins_its_author() {
    let mut store = Store::new();
    let user = create_user(&mut store, "carol", "pw").expect("signup");
    let (quote, author) = create_quote(&mut store, "hi", "", Some(user.id)).expect("create");
    assert_eq!(quote.user_id, Some(user.id));
    let author = author.expect("author joined");
    assert_eq!(author.id, user.id);
    assert_eq!(author.username, "carol");
}

#[test]
fn dangling_author_reference_yields_no_author() {
    let mut store = Store::new();
    let (quote, author) = create_quote(&mut store, "hi", "", Some(99)).expect("create");
    assert_eq!(quote.user_id, Some(99));
    assert!(author.is_none());
}

#[test]
fn quote_ids_are_assigned_in_order() {
    let mut store = Store::new();
    let (a, _) = create_quote(&mut store, "one", "", None).expect("create");
    let (b, _) = create_quote(&mut store, "two", "", None).expect("create");
    let (c, _) = create_quote(&mut store, "three", "", None).expect("create");
    assert_eq!((a.id, b.id, c.id), (1, 2, 3));
}

#[test]
fn top_quotes_ranks_by_votes_then_oldest_id() {
    let mut store = Store::new();
    assert!(store.load_quote(quote_row(10, 5, true)));
    assert!(store.load_quote(quote_row(11, 5, true)));
    assert!(store.load_quote(quote_row(12, 3, true)));
    let top = top_quotes(&store);
    let ids: Vec<i32> = top.iter().map(|(q, _)| q.id).collect();
    assert_eq!(ids, vec![10, 11, 12]);
}

#[test]
fn recent_quotes_lists_newest_id_first() {
    let mut store = Store::new();
    assert!(store.load_quote(quote_row(10, 5, true)));
    assert!(store.load_quote(quote_row(11, 5, true)));
    assert!(store.load_quote(quote_row(12, 3, true)));
    let recent = recent_quotes(&store);
    let ids: Vec<i32> = recent.iter().map(|(q, _)| q.id).collect();
    assert_eq!(ids, vec![12, 11, 10]);
}

#[test]
fn invisible_quotes_never_appear_in_listings() {
    let mut store = Store::new();
    assert!(store.load_quote(quote_row(1, 1_000_000, false)));
    assert!(store.load_quote(quote_row(2, 1, true)));
    assert!(store.load_quote(quote_row(3, 0, false)));
    let top_ids: Vec<i32> = top_quotes(&store).iter().map(|(q, _)| q.id).collect();
    let recent_ids: Vec<i32> = recent_quotes(&store).iter().map(|(q, _)| q.id).collect();
    assert_eq!(top_ids, vec![2]);
    assert_eq!(recent_ids, vec![2]);
}

#[test]
fn top_quotes_is_capped_at_thirty() {
    let mut store = Store::new();
    for id in 1..=35 {
        assert!(store.load_quote(quote_row(id, id, true)));
    }
    let top = top_quotes(&store);
    assert_eq!(top.len(), 30);
    // the best-ranked survive the cap: votes 35 down to 6
    let votes: Vec<i32> = top.iter().map(|(q, _)| q.votes).collect();
    let expected: Vec<i32> = (6..=35).rev().collect();
    assert_eq!(votes, expected);
    let recent = recent_quotes(&store);
    assert_eq!(recent.len(), 35);
}

#[test]
fn load_rejects_rows_that_break_the_storage_invariant() {
    let mut store = Store::new();
    assert!(store.load_quote(quote_row(5, 0, true)));
    assert!(!store.load_quote(quote_row(5, 0, true)), "id not above the last");
    assert!(!store.load_quote(quote_row(0, 0, true)), "id below one");
    let mut other = Store::new();
    create_user(&mut other, "dave", "pw").expect("signup");
    let copy = User {
        id: 2,
        username: "dave".to_string(),
        salt: String::new(),
        password: String::new(),
        is_admin: false,
        created_at: 0,
        updated_at: 0,
    };
    assert!(!other.load_user(copy), "username already taken");
}

#[test]
fn created_user_stores_the_hex_of_salt_and_derivation() {
    let mut store = Store::new();
    let salt = [9u8; 64];
    let user = vnq_server::db::queries::create_user_with_salt(&mut store, "erin", "pw", &salt)
        .expect("signup");
    assert_eq!(user.salt, vnq_server::credentials::hex_encode(&salt));
    assert_eq!(
        user.password,
        vnq_server::credentials::hex_encode(&vnq_server::credentials::derive(&salt, "pw"))
    );
    let found = verify_login(&store, "erin", "pw").expect("login");
    assert_eq!(found.id, user.id);
}

#[test]
fn error_messages_are_generic() {
    assert_eq!(
        Error::InvalidCredentials.user_message(),
        "Invalid username/password combination"
    );
    assert_eq!(Error::DuplicateUsername.user_message(), "Invalid username");
    assert_eq!(Error::Persistence.user_message(), "Database error");
}
