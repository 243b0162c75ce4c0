use chirp_feed::auth::Request;
use chirp_feed::endpoints::{CreateUser, Me};
use chirp_feed::error::Error;
use chirp_feed::handlers;
use chirp_feed::state::State;

fn bearer(token: &str) -> Request {
    Request { authorization: Some(format!("Bearer {}", token)), page: None, page_size: None }
}

#[test]
fn logging_out() {
    let mut state = State::new();
    let token =
        CreateUser::handler(&mut state, "tim".to_string(), "h".to_string()).unwrap().0.token;

    let (_, status) = Me::handler(&state, &bearer(&token)).unwrap();
    assert_eq!(status.code(), 200);

    let status = handlers::logout(&mut state, &bearer(&token)).unwrap();
    assert_eq!(status.code(), 200);

    let err = Me::handler(&state, &bearer(&token)).unwrap_err();
    assert_eq!(err.status().code(), 401);
    assert_eq!(err, Error::Unauthenticated);
}

#[test]
fn logging_out_twice_is_refused_the_second_time() {
    let mut state = State::new();
    let token =
        CreateUser::handler(&mut state, "tim".to_string(), "h".to_string()).unwrap().0.token;
    assert!(handlers::logout(&mut state, &bearer(&token)).is_ok());
    assert_eq!(handlers::logout(&mut state, &bearer(&token)), Err(Error::Unauthenticated));
}

#[test]
fn revoking_is_idempotent_and_spares_other_tokens() {
    let mut state = State::new();
    CreateUser::respond(&mut state, "tim".to_string(), "h".to_string(), 1, "t1".to_string())
        .unwrap();
    CreateUser::respond(&mut state, "jim".to_string(), "h".to_string(), 2, "t2".to_string())
        .unwrap();
    state.credentials.revoke("t1");
    state.credentials.revoke("t1");
    state.credentials.revoke("never-there");
    assert_eq!(state.credentials.resolve("t1"), None);
    assert_eq!(state.credentials.resolve("t2").unwrap().username, "jim");
    assert_eq!(state.credentials.token_of(1), None);
    assert_eq!(state.credentials.token_of(2), Some("t2".to_string()));
    assert_eq!(state.credentials.user_count(), 2);
}
