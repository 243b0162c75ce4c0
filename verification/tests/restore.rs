use chirp_feed::auth::Request;
use chirp_feed::credentials::{AuthToken, CredentialStore, UserRecord};
use chirp_feed::endpoints::{Me, Timeline};
use chirp_feed::error::Error;
use chirp_feed::events::{EventRecord, EventStore};
use chirp_feed::follows::{FollowEdge, FollowGraph};
use chirp_feed::state::State;

fn user(id: u128, username: &str) -> UserRecord {
    UserRecord { id, username: username.to_string(), hashed_password: format!("hash{}", id) }
}

fn token(user_id: u128, token: &str) -> AuthToken {
    AuthToken { user_id, token: token.to_string() }
}

fn event(id: u128, user_id: u128, content: &str, created_at: i64) -> EventRecord {
    EventRecord { id, user_id, content: content.to_string(), created_at }
}

fn edge(follower_id: u128, followed_id: u128) -> FollowEdge {
    FollowEdge { follower_id, followed_id }
}

fn bearer(token: &str) -> Request {
    Request { authorization: Some(format!("Bearer {}", token)), page: None, page_size: None }
}

#[test]
fn a_state_that_was_written_down_is_read_back() {
    let users = vec![user(1, "ann"), user(2, "bob"), user(3, "cat")];
    let tokens = vec![token(1, "a1"), token(1, "a2"), token(3, "c1")];
    let follows = vec![edge(1, 2), edge(3, 1)];
    let events = vec![event(10, 2, "from bob", 7), event(11, 1, "from ann", 9)];
    let state = State::restore(&users, &tokens, &follows, &events).unwrap();

    assert_eq!(Me::handler(&state, &bearer("a1")).unwrap().0.username, "ann");
    assert_eq!(Me::handler(&state, &bearer("a2")).unwrap().0.username, "ann");
    assert_eq!(Me::handler(&state, &bearer("c1")).unwrap().0.username, "cat");
    assert_eq!(state.credentials.token_of(1), Some("a1".to_string()));
    assert_eq!(state.credentials.token_of(2), None);
    assert_eq!(state.credentials.verify_login("ann", true), Ok("a1".to_string()));
    assert_eq!(state.credentials.verify_login("bob", true), Err(Error::StorageUnavailable));
    assert_eq!(state.credentials.stored_hash("bob"), Some((2, "hash2".to_string())));

    let (feed, _) = Timeline::handler(&state, &bearer("a1")).unwrap();
    let contents: Vec<&str> = feed.iter().map(|item| item.content.as_str()).collect();
    assert_eq!(contents, vec!["from ann", "from bob"]);
    let (feed, _) = Timeline::handler(&state, &bearer("c1")).unwrap();
    assert_eq!(feed.len(), 1);
    assert_eq!(feed[0].user.username, "ann");
}

#[test]
fn rows_that_break_a_promise_are_not_read_back() {
    let none: Vec<AuthToken> = vec![];
    assert!(CredentialStore::restore(&vec![user(1, "ann"), user(1, "bob")], &none).is_none());
    assert!(CredentialStore::restore(&vec![user(1, "ann"), user(2, "ann")], &none).is_none());
    assert!(CredentialStore::restore(&vec![user(1, "ann")], &vec![token(2, "t")]).is_none());
    assert!(CredentialStore::restore(
        &vec![user(1, "ann"), user(2, "bob")],
        &vec![token(1, "t"), token(2, "t")]
    )
    .is_none());
    assert!(CredentialStore::restore(
        &vec![user(1, "ann"), user(2, "bob")],
        &vec![token(1, "t"), token(1, "u")]
    )
    .is_some());

    assert!(FollowGraph::restore(&vec![edge(1, 1)]).is_none());
    assert!(FollowGraph::restore(&vec![edge(1, 2), edge(2, 1), edge(1, 2)]).is_none());
    assert!(FollowGraph::restore(&vec![edge(1, 2), edge(2, 1)]).is_some());
    assert!(FollowGraph::restore(&vec![]).is_some());

    assert!(EventStore::restore(&vec![event(1, 1, "a", 0), event(1, 2, "b", 1)]).is_none());
    assert!(EventStore::restore(&vec![event(1, 1, &"x".repeat(201), 0)]).is_none());
    assert!(EventStore::restore(&vec![event(1, 1, &"x".repeat(200), 0)]).is_some());

    let users = vec![user(1, "ann")];
    assert!(State::restore(&users, &none, &vec![edge(1, 1)], &vec![]).is_none());
    assert!(State::restore(&users, &none, &vec![], &vec![event(1, 9, "ghost", 0)]).is_some());
}

#[test]
fn users_and_tokens_can_be_added_one_by_one() {
    let mut store = CredentialStore::new();
    assert_eq!(store.add_user(1, "ann".to_string(), "h".to_string()), Ok(()));
    assert_eq!(store.add_user(1, "bob".to_string(), "h".to_string()), Err(Error::StorageUnavailable));
    assert_eq!(store.add_user(2, "ann".to_string(), "h".to_string()), Err(Error::UsernameTaken));
    assert_eq!(store.add_token(1, "t".to_string()), Ok(()));
    assert_eq!(store.add_token(1, "t".to_string()), Err(Error::StorageUnavailable));
    assert_eq!(store.add_token(2, "u".to_string()), Err(Error::StorageUnavailable));
    assert_eq!(store.add_token(1, "u".to_string()), Ok(()));
    assert_eq!(store.resolve("u").unwrap().username, "ann");
    assert_eq!(store.token_of(1), Some("t".to_string()));
    store.revoke("t");
    assert_eq!(store.token_of(1), Some("u".to_string()));
    assert_eq!(store.user_count(), 1);
}

#[test]
fn a_state_knows_whether_its_rows_name_users_only() {
    let users = vec![user(1, "ann"), user(2, "bob")];
    let none: Vec<AuthToken> = vec![];
    let empty = State::new();
    assert!(empty.names_users_only());

    let sound =
        State::restore(&users, &none, &vec![edge(1, 2)], &vec![event(5, 2, "x", 0)]).unwrap();
    assert!(sound.names_users_only());
    let ghost_author =
        State::restore(&users, &none, &vec![edge(1, 2)], &vec![event(5, 3, "x", 0)]).unwrap();
    assert!(!ghost_author.names_users_only());
    let ghost_follower = State::restore(&users, &none, &vec![edge(3, 2)], &vec![]).unwrap();
    assert!(!ghost_follower.names_users_only());
    let ghost_followed = State::restore(&users, &none, &vec![edge(1, 3)], &vec![]).unwrap();
    assert!(!ghost_followed.names_users_only());
}
