use chirp_feed::auth::Request;
use chirp_feed::endpoints::{CreateUser, PostEvent};
use chirp_feed::error::Error;
use chirp_feed::events::{content_fits, EventStore, MAX_CONTENT_LEN};
use chirp_feed::payloads::CreateEventPayload;
use chirp_feed::state::State;
use chirp_feed::status::StatusCode;

fn bearer(token: &str) -> Request {
    Request { authorization: Some(format!("Bearer {}", token)), page: None, page_size: None }
}

fn geoff(state: &mut State) -> String {
    CreateUser::handler(state, "Geoff".to_string(), "hashed".to_string()).unwrap().0.token
}

fn payload(content: &str) -> CreateEventPayload {
    CreateEventPayload { content: content.to_string() }
}

#[test]
fn make_valid_post() {
    let mut state = State::new();
    let token = geoff(&mut state);

    let (ack, status) = PostEvent::handler(&mut state, &bearer(&token), payload("Hello")).unwrap();
    assert_eq!(status.code(), 201);
    assert_eq!(ack.content, Some("Hello".to_string()));
    assert!(ack.id.is_some());
    assert_eq!(state.events.len(), 1);
    assert_eq!(Some(state.events.get(0).id), ack.id);
}

#[test]
fn make_invalid_post() {
    let mut state = State::new();
    let token = geoff(&mut state);

    let text = std::iter::repeat('a').take(1000).collect::<String>();
    let err = PostEvent::handler(&mut state, &bearer(&token), payload(&text)).unwrap_err();
    assert_eq!(err.status().code(), 409);
    assert_eq!(err.message(), "content too long");
    assert_eq!(err, Error::ContentTooLong);
    assert_eq!(state.events.len(), 0);
}

#[test]
fn content_of_two_hundred_characters_is_the_longest() {
    let mut state = State::new();
    let token = geoff(&mut state);
    assert_eq!(MAX_CONTENT_LEN, 200);

    let longest = "a".repeat(200);
    let too_long = "a".repeat(201);
    assert!(content_fits(&longest));
    assert!(!content_fits(&too_long));
    assert!(content_fits(""));

    let ok = PostEvent::respond(&mut state, &bearer(&token), payload(&longest), 1, 10);
    assert_eq!(ok.unwrap().1, StatusCode::Created);
    let err = PostEvent::respond(&mut state, &bearer(&token), payload(&too_long), 2, 11);
    assert_eq!(err.unwrap_err(), Error::ContentTooLong);
    let empty = PostEvent::respond(&mut state, &bearer(&token), payload(""), 3, 12);
    assert_eq!(empty.unwrap().0.content, Some(String::new()));
    assert_eq!(state.events.len(), 2);
}

#[test]
fn content_is_measured_in_characters() {
    let mut state = State::new();
    let token = geoff(&mut state);
    let longest = "ä".repeat(200);
    assert_eq!(longest.len(), 400);
    assert!(PostEvent::respond(&mut state, &bearer(&token), payload(&longest), 1, 10).is_ok());
    let too_long = "ä".repeat(201);
    assert_eq!(
        PostEvent::respond(&mut state, &bearer(&token), payload(&too_long), 2, 10).unwrap_err(),
        Error::ContentTooLong
    );
}

#[test]
fn the_caller_is_looked_at_before_the_content() {
    let mut state = State::new();
    let token = geoff(&mut state);
    let too_long = "a".repeat(201);
    let nobody = Request { authorization: None, page: None, page_size: None };
    let malformed = Request { authorization: Some("Token x".into()), page: None, page_size: None };
    assert_eq!(
        PostEvent::handler(&mut state, &nobody, payload(&too_long)).unwrap_err().status().code(),
        400
    );
    assert_eq!(
        PostEvent::handler(&mut state, &malformed, payload(&too_long)).unwrap_err().status().code(),
        400
    );
    let unknown = PostEvent::handler(&mut state, &bearer("unknown"), payload(&too_long));
    assert_eq!(unknown.unwrap_err(), Error::Unauthenticated);
    assert_eq!(Error::Unauthenticated.status().code(), 401);
    assert_eq!(
        PostEvent::respond(&mut state, &bearer("unknown"), payload(&too_long), 1, 1).unwrap_err(),
        Error::Unauthenticated
    );
    assert_eq!(
        PostEvent::handler(&mut state, &bearer(&token), payload(&too_long)).unwrap_err(),
        Error::ContentTooLong
    );
    assert_eq!(
        PostEvent::handler(&mut state, &nobody, payload("fits")).unwrap_err().status().code(),
        400
    );
    assert_eq!(
        PostEvent::handler(&mut state, &bearer("unknown"), payload("fits")).unwrap_err(),
        Error::Unauthenticated
    );
    assert_eq!(state.events.len(), 0);
}

#[test]
fn an_event_keeps_what_it_was_posted_with() {
    let mut state = State::new();
    CreateUser::respond(&mut state, "tim".to_string(), "h".to_string(), 5, "t".to_string())
        .unwrap();
    let (ack, status) =
        PostEvent::respond(&mut state, &bearer("t"), payload("first"), 77, 1_600_000_000_000_000)
            .unwrap();
    assert_eq!(status, StatusCode::Created);
    assert_eq!(ack.id, Some(77));
    assert_eq!(ack.content, Some("first".to_string()));
    let stored = state.events.get(0);
    assert_eq!(
        (stored.id, stored.user_id, stored.content.as_str(), stored.created_at),
        (77, 5, "first", 1_600_000_000_000_000)
    );

    let again = PostEvent::respond(&mut state, &bearer("t"), payload("second"), 77, 1);
    assert_eq!(again.unwrap_err(), Error::StorageUnavailable);
    assert_eq!(state.events.len(), 1);
}

#[test]
fn the_event_store_takes_events_of_any_author() {
    let mut events = EventStore::new();
    assert_eq!(events.len(), 0);
    let ack = events.post_event(1, 42, "hello".to_string(), -5).unwrap();
    assert_eq!((ack.id, ack.content), (Some(1), Some("hello".to_string())));
    assert_eq!(events.post_event(1, 43, "again".to_string(), 0), Err(Error::StorageUnavailable));
    assert_eq!(events.post_event(2, 42, "x".repeat(201), 0), Err(Error::ContentTooLong));
    assert_eq!(events.post_event(1, 42, "x".repeat(201), 0), Err(Error::ContentTooLong));
    assert_eq!(events.len(), 1);
    assert_eq!(events.get(0).created_at, -5);
}

#[test]
fn events_posted_now_get_ids_and_instants_of_their_own() {
    let mut state = State::new();
    let token = geoff(&mut state);
    let mut ids = Vec::new();
    for _ in 0..5 {
        let (ack, _) = PostEvent::handler(&mut state, &bearer(&token), payload("Hello")).unwrap();
        ids.push(ack.id.unwrap());
    }
    ids.sort();
    ids.dedup();
    assert_eq!(ids.len(), 5);
    for k in 0..5 {
        let stored = state.events.get(k);
        assert!(stored.created_at > 1_500_000_000_000_000);
        if k > 0 {
            assert!(state.events.get(k - 1).created_at <= stored.created_at);
        }
    }
}
