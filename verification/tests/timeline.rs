use chirp_feed::auth::Request;
use chirp_feed::endpoints::{CreateUser, PostEvent, Timeline};
use chirp_feed::error::Error;
use chirp_feed::handlers;
use chirp_feed::payloads::CreateEventPayload;
use chirp_feed::responses::EventResponse;
use chirp_feed::state::State;
use chirp_feed::timeline::MAX_PAGE_SIZE;

fn bearer(token: &str) -> Request {
    Request { authorization: Some(format!("Bearer {}", token)), page: None, page_size: None }
}

fn paged(token: &str, page: Option<usize>, page_size: Option<usize>) -> Request {
    Request { authorization: Some(format!("Bearer {}", token)), page, page_size }
}

fn register(state: &mut State, username: &str) -> String {
    CreateUser::handler(state, username.to_string(), "hashed".to_string()).unwrap().0.token
}

/// Posts events one microsecond apart, so that their order is known.
fn post_event(text: &str, token: &str, state: &mut State) {
    let n = state.events.len();
    let payload = CreateEventPayload { content: text.to_string() };
    PostEvent::respond(state, &bearer(token), payload, 1000 + (n as u128), 1_000_000 + (n as i64))
        .unwrap();
}

fn contents(items: &[EventResponse]) -> Vec<&str> {
    items.iter().map(|item| item.content.as_str()).collect()
}

#[test]
fn sees_own_events() {
    let mut state = State::new();
    let token = register(&mut state, "Geoff");

    post_event("oldest", &token, &mut state);
    post_event("middle", &token, &mut state);
    post_event("newest", &token, &mut state);

    let (items, status) = Timeline::handler(&state, &bearer(&token)).unwrap();
    assert_eq!(status.code(), 200);
    assert_eq!(contents(&items), vec!["newest", "middle", "oldest"]);
}

#[test]
fn sees_events_from_following() {
    let mut state = State::new();
    let tim_token = register(&mut state, "tim");
    let jim_token = register(&mut state, "jim");

    post_event("oldest", &jim_token, &mut state);
    post_event("middle", &jim_token, &mut state);
    post_event("newest", &jim_token, &mut state);

    let status = handlers::follow(&mut state, &bearer(&tim_token), "jim").unwrap();
    assert_eq!(status.code(), 201);

    let (items, status) = Timeline::handler(&state, &bearer(&jim_token)).unwrap();
    assert_eq!(status.code(), 200);
    assert_eq!(contents(&items), vec!["newest", "middle", "oldest"]);

    let (items, status) = Timeline::handler(&state, &bearer(&tim_token)).unwrap();
    assert_eq!(status.code(), 200);
    assert_eq!(contents(&items), vec!["newest", "middle", "oldest"]);
}

#[test]
fn pagination() {
    let mut state = State::new();
    let token = register(&mut state, "tim");

    post_event("5", &token, &mut state);
    post_event("4", &token, &mut state);
    post_event("3", &token, &mut state);
    post_event("2", &token, &mut state);
    post_event("1", &token, &mut state);

    let (items, status) = Timeline::handler(&state, &paged(&token, Some(1), Some(2))).unwrap();
    assert_eq!(status.code(), 200);
    assert_eq!(contents(&items), vec!["1", "2"]);
    assert_eq!(items.len(), 2);

    let (items, status) = Timeline::handler(&state, &paged(&token, Some(2), Some(2))).unwrap();
    assert_eq!(status.code(), 200);
    assert_eq!(contents(&items), vec!["3", "4"]);
    assert_eq!(items.len(), 2);

    let (items, status) = Timeline::handler(&state, &paged(&token, Some(3), Some(2))).unwrap();
    assert_eq!(status.code(), 200);
    assert_eq!(contents(&items), vec!["5"]);
    assert_eq!(items.len(), 1);

    let (items, status) = Timeline::handler(&state, &paged(&token, Some(4), Some(2))).unwrap();
    assert_eq!(status.code(), 200);
    assert!(items.is_empty());
}

#[test]
fn max_page_size() {
    let mut state = State::new();
    let token = register(&mut state, "Geoff");

    for _ in 0..21 {
        PostEvent::handler(
            &mut state,
            &bearer(&token),
            CreateEventPayload { content: "Hello".to_string() },
        )
        .unwrap();
    }

    let (items, status) = Timeline::handler(&state, &paged(&token, Some(1), Some(100))).unwrap();
    assert_eq!(status.code(), 200);
    assert_eq!(items.len(), 20);
    assert_eq!(MAX_PAGE_SIZE, 20);

    let (items, _) = Timeline::handler(&state, &paged(&token, Some(2), Some(100))).unwrap();
    assert_eq!(items.len(), 1);
    let (items, _) = Timeline::handler(&state, &bearer(&token)).unwrap();
    assert_eq!(items.len(), 20);
    let (items, _) = Timeline::handler(&state, &paged(&token, None, Some(20))).unwrap();
    assert_eq!(items.len(), 20);
    let (items, _) = Timeline::handler(&state, &paged(&token, None, Some(21))).unwrap();
    assert_eq!(items.len(), 20);
    let (items, _) = Timeline::handler(&state, &paged(&token, None, Some(19))).unwrap();
    assert_eq!(items.len(), 19);
}

#[test]
fn response_includes_user_who_posted_event() {
    let mut state = State::new();
    let token = register(&mut state, "bob");

    post_event("hello", &token, &mut state);

    let (items, status) = Timeline::handler(&state, &bearer(&token)).unwrap();
    assert_eq!(status.code(), 200);
    assert_eq!(items.len(), 1);
    assert_eq!(items[0].content, "hello");
    assert_eq!(items[0].user.username, "bob");
    assert_eq!(items[0].user.id, state.credentials.find_user("bob").unwrap().id);
    assert_eq!(items[0].id, 1000);
    assert_eq!(items[0].created_at, 1_000_000);
}

#[test]
fn timeline_needs_a_caller() {
    let mut state = State::new();
    register(&mut state, "bob");
    let nobody = Request { authorization: None, page: None, page_size: None };
    assert_eq!(Timeline::handler(&state, &nobody).unwrap_err().status().code(), 400);
    assert_eq!(Timeline::handler(&state, &bearer("unknown")).unwrap_err(), Error::Unauthenticated);
    let malformed = Request { authorization: Some("Token x".into()), page: None, page_size: None };
    assert_eq!(Timeline::handler(&state, &malformed).unwrap_err().status().code(), 400);
}

#[test]
fn an_empty_feed_is_no_failure() {
    let mut state = State::new();
    let token = register(&mut state, "bob");
    register(&mut state, "amy");
    let (items, status) = Timeline::handler(&state, &bearer(&token)).unwrap();
    assert_eq!(status.code(), 200);
    assert!(items.is_empty());
    let (items, _) = Timeline::handler(&state, &paged(&token, Some(7), Some(3))).unwrap();
    assert!(items.is_empty());
}

#[test]
fn own_and_followed_events_interleave_by_instant() {
    let mut state = State::new();
    for (id, name) in [(1u128, "a"), (2, "b"), (3, "c")] {
        CreateUser::respond(&mut state, name.to_string(), "h".to_string(), id, format!("t{}", id))
            .unwrap();
    }
    handlers::follow(&mut state, &bearer("t1"), "b").unwrap();

    let posts = [
        ("t2", "x", 10u128, 100i64),
        ("t1", "mine-early", 11, 50),
        ("t3", "unseen", 12, 150),
        ("t2", "y", 13, 200),
        ("t1", "mine-late", 14, 300),
        ("t1", "mine-between", 15, 150),
    ];
    for (token, text, id, at) in posts {
        let payload = CreateEventPayload { content: text.to_string() };
        PostEvent::respond(&mut state, &bearer(token), payload, id, at).unwrap();
    }

    let (items, _) = Timeline::handler(&state, &bearer("t1")).unwrap();
    assert_eq!(contents(&items), vec!["mine-late", "y", "mine-between", "x", "mine-early"]);
    let authors: Vec<&str> = items.iter().map(|item| item.user.username.as_str()).collect();
    assert_eq!(authors, vec!["a", "b", "a", "b", "a"]);

    let (items, _) = Timeline::handler(&state, &bearer("t2")).unwrap();
    assert_eq!(contents(&items), vec!["y", "x"]);
    let (items, _) = Timeline::handler(&state, &bearer("t3")).unwrap();
    assert_eq!(contents(&items), vec!["unseen"]);

    assert_eq!(contents(&state.feed(1)), vec!["mine-late", "y", "mine-between", "x", "mine-early"]);
    assert!(state.feed(99).is_empty());
}

#[test]
fn events_of_one_instant_come_by_id() {
    let mut state = State::new();
    CreateUser::respond(&mut state, "a".to_string(), "h".to_string(), 1, "t".to_string()).unwrap();
    for (id, at) in [(30u128, 5i64), (10, 5), (20, 5), (40, 6), (5, 4), (u128::MAX, 5), (0, 5)] {
        let payload = CreateEventPayload { content: format!("{}@{}", id, at) };
        PostEvent::respond(&mut state, &bearer("t"), payload, id, at).unwrap();
    }
    let (items, _) = Timeline::handler(&state, &bearer("t")).unwrap();
    let ids: Vec<u128> = items.iter().map(|item| item.id).collect();
    assert_eq!(ids, vec![40, 0, 10, 20, 30, u128::MAX, 5]);

    let first = state.timeline(1, 1, Some(3)).unwrap();
    let second = state.timeline(1, 2, Some(3)).unwrap();
    let third = state.timeline(1, 3, Some(3)).unwrap();
    let paged: Vec<u128> =
        first.iter().chain(second.iter()).chain(third.iter()).map(|item| item.id).collect();
    assert_eq!(paged, ids);
    assert_eq!((first.len(), second.len(), third.len()), (3, 3, 1));
}

#[test]
fn events_of_unregistered_authors_are_left_out() {
    let mut state = State::new();
    CreateUser::respond(&mut state, "a".to_string(), "h".to_string(), 1, "t".to_string()).unwrap();
    state.follows.follow(1, 2).unwrap();
    state.events.post_event(100, 2, "ghost".to_string(), 10).unwrap();
    state.events.post_event(101, 1, "real".to_string(), 5).unwrap();
    assert_eq!(contents(&state.feed(1)), vec!["real"]);
    assert!(state.feed(2).is_empty());
}

#[test]
fn pages_are_counted_from_one() {
    let mut state = State::new();
    let token = register(&mut state, "tim");
    for text in ["c", "b", "a"] {
        post_event(text, &token, &mut state);
    }
    let id = state.credentials.find_user("tim").unwrap().id;

    assert_eq!(state.timeline(id, 0, Some(2)), Err(Error::StorageUnavailable));
    assert_eq!(state.timeline(id, 0, None), Err(Error::StorageUnavailable));
    assert_eq!(state.timeline(id, 0, Some(0)), Ok(vec![]));
    assert_eq!(state.timeline(id, 1, Some(0)), Ok(vec![]));
    assert_eq!(contents(&state.timeline(id, 1, Some(1)).unwrap()), vec!["a"]);
    assert_eq!(contents(&state.timeline(id, 3, Some(1)).unwrap()), vec!["c"]);
    assert_eq!(contents(&state.timeline(id, 1, None).unwrap()), vec!["a", "b", "c"]);
    assert_eq!(contents(&state.timeline(id, 2, Some(2)).unwrap()), vec!["c"]);
    assert_eq!(state.timeline(id, 2, None), Ok(vec![]));
    assert_eq!(state.timeline(id, usize::MAX, Some(usize::MAX)), Ok(vec![]));
    assert_eq!(state.timeline(id, usize::MAX, Some(1)), Ok(vec![]));
    let failure = Timeline::handler(&state, &paged(&token, Some(0), None)).unwrap_err();
    assert_eq!(failure.status().code(), 500);
}
