use vnq_server::db::models::Quote as QuoteRow;
use vnq_server::db::queries::Store;
use vnq_server::error::Error;
use vnq_server::graphql::mutation::Mutation;
use vnq_server::graphql::query::Query;
use vnq_server::graphql::{Claims, Context};

const KEY: &[u8] = b"api-test-key";

fn visible_row(id: i32, votes: i32) -> QuoteRow {
    QuoteRow {
        id,
        content: format!("content {}", id),
        votes,
        visible: true,
        moderated_by: Some(1),
        ip: String::new(),
        created_at: 0,
        updated_at: 0,
        user_id: None,
    }
}

#[test]
fn signup_token_carries_the_new_identity() {
    let mut store = Store::new();
    let token = Mutation::signup(&mut store, KEY, "alice", "pw").expect("signup");
    let ctx = Context::from_token(Some(&token), KEY);
    assert_eq!(ctx.claims.user_id, Some(1));
    assert_eq!(ctx.claims.username.as_deref(), Some("alice"));
    assert!(!ctx.claims.is_admin);
}

#[test]
fn signup_rejects_a_duplicate_username_with_its_message() {
    let mut store = Store::new();
    Mutation::signup(&mut store, KEY, "alice", "pw").expect("signup");
    let err = Mutation::signup(&mut store, KEY, "alice", "other").unwrap_err();
    assert_eq!(err, Error::DuplicateUsername);
    assert_eq!(err.user_message(), "Invalid username");
}

#[test]
fn login_returns_a_token_for_the_signed_up_user() {
    let mut store = Store::new();
    Mutation::signup(&mut store, KEY, "bob", "letmein").expect("signup");
    let token = Mutation::login(&store, KEY, "bob", "letmein").expect("login");
    let ctx = Context::from_token(Some(&token), KEY);
    assert_eq!(ctx.claims.username.as_deref(), Some("bob"));
}

#[test]
fn login_failure_is_generic() {
    let store = Store::new();
    let err = Mutation::login(&store, KEY, "ghost", "pw").unwrap_err();
    assert_eq!(err, Error::InvalidCredentials);
    assert_eq!(err.user_message(), "Invalid username/password combination");
}

#[test]
fn anonymous_submission_has_no_author() {
    let mut store = Store::new();
    let mut ctx = Context::new();
    ctx.ip("9.8.7.6");
    let quote = Mutation::new_quote(&ctx, &mut store, "hello".to_string()).expect("create");
    assert_eq!(quote.content, "hello");
    assert_eq!(quote.votes, 0);
    assert!(!quote.visible);
    assert!(quote.user.is_none());
}

#[test]
fn authenticated_submission_is_attributed() {
    let mut store = Store::new();
    let token = Mutation::signup(&mut store, KEY, "carol", "pw").expect("signup");
    let ctx = Context::from_token(Some(&token), KEY);
    let quote = Mutation::new_quote(&ctx, &mut store, "mine".to_string()).expect("create");
    let author = quote.user.expect("attributed");
    assert_eq!(author.username, "carol");
    assert!(!author.is_admin);
}

#[test]
fn submission_without_an_address_records_an_empty_one() {
    let mut store = Store::new();
    let ctx = Context::new();
    Mutation::new_quote(&ctx, &mut store, "anon".to_string()).expect("create");
    assert_eq!(store.quotes[0].ip, "");
}

#[test]
fn query_listings_map_rows_to_the_public_shape() {
    let mut store = Store::new();
    assert!(store.load_quote(visible_row(10, 5)));
    assert!(store.load_quote(visible_row(11, 5)));
    assert!(store.load_quote(visible_row(12, 3)));

    let top = Query::top_quotes(&store).expect("top");
    let top_ids: Vec<i32> = top.iter().map(|q| q.id).collect();
    assert_eq!(top_ids, vec![10, 11, 12]);

    let recent = Query::recent_quotes(&store).expect("recent");
    let recent_ids: Vec<i32> = recent.iter().map(|q| q.id).collect();
    assert_eq!(recent_ids, vec![12, 11, 10]);

    assert_eq!(top[0].content, "content 10");
    assert_eq!(top[0].votes, 5);
    assert!(top[0].visible);
    assert!(top[0].user.is_none());
}

#[test]
fn invisible_submissions_stay_out_of_query_listings() {
    let mut store = Store::new();
    let ctx = Context::new();
    Mutation::new_quote(&ctx, &mut store, "pending".to_string()).expect("create");
    assert!(Query::top_quotes(&store).expect("top").is_empty());
    assert!(Query::recent_quotes(&store).expect("recent").is_empty());
}
