use chirp_feed::auth::Request;
use chirp_feed::endpoints::{CreateUser, Login, Me};
use chirp_feed::error::Error;
use chirp_feed::handlers;
use chirp_feed::payloads::CreateUserPayload;
use chirp_feed::state::State;
use chirp_feed::status::StatusCode;

fn bearer(token: &str) -> Request {
    Request { authorization: Some(format!("Bearer {}", token)), page: None, page_size: None }
}

fn register(state: &mut State, username: &str, password: &str) -> (String, StatusCode) {
    let (answer, status) =
        CreateUser::handler(state, username.to_string(), format!("hashed:{}", password)).unwrap();
    (answer.token, status)
}

fn login(state: &State, username: &str, password: &str) -> Result<(String, StatusCode), Error> {
    let hash = Login::challenge(state, username)?;
    let matches = hash == format!("hashed:{}", password);
    let (answer, status) = Login::handler(state, username, matches)?;
    Ok((answer.token, status))
}

#[test]
fn create_user_and_login() {
    let mut state = State::new();
    let (token, status) = register(&mut state, "Geoff", "123456");
    assert_eq!(status.code(), 201);

    let (user, status) = Me::handler(&state, &bearer(&token)).unwrap();
    assert_eq!(status.code(), 200);
    assert_eq!(user.username, "Geoff");

    let (login_token, status) = login(&state, "Geoff", "123456").unwrap();
    assert_eq!(status.code(), 201);
    assert_eq!(login_token, token);
}

#[test]
fn duplicate_username_not_allowed() {
    let mut state = State::new();
    let username = "Geoff".to_string();

    let first = CreateUserPayload { username: username.clone(), password: "123456".to_string() };
    assert_eq!(CreateUser::vet(&state, &first), Ok(()));
    let (_, status) = register(&mut state, &first.username, &first.password);
    assert_eq!(status.code(), 201);

    let second = CreateUserPayload { username, password: "654321".to_string() };
    let refused = CreateUser::vet(&state, &second).unwrap_err();
    assert_eq!(refused, Error::UsernameTaken);
    assert_eq!(refused.status().code(), 409);
    assert_eq!(refused.message(), "Submitted username already taken");

    let err = CreateUser::handler(&mut state, second.username, "hashed:654321".to_string())
        .unwrap_err();
    assert_eq!(err, Error::UsernameTaken);
    assert_eq!(err.body().status.code(), 409);
    assert_eq!(err.body().message, "Submitted username already taken");
    assert_eq!(state.credentials.user_count(), 1);
}

#[test]
fn registration_gives_each_user_a_token_of_its_own() {
    let mut state = State::new();
    let (tim, _) = register(&mut state, "tim", "123456");
    let (jim, _) = register(&mut state, "jim", "123456");
    assert_ne!(tim, jim);
    assert_eq!(tim.len(), 32);
    assert!(tim.chars().all(|c| c.is_ascii_alphanumeric()));
    assert_eq!(Me::handler(&state, &bearer(&tim)).unwrap().0.username, "tim");
    assert_eq!(Me::handler(&state, &bearer(&jim)).unwrap().0.username, "jim");
}

#[test]
fn registration_under_a_used_id_or_token_is_refused_by_the_store() {
    let mut state = State::new();
    let (answer, status) = CreateUser::respond(
        &mut state,
        "tim".to_string(),
        "h".to_string(),
        1,
        "tokenoftim".to_string(),
    )
    .unwrap();
    assert_eq!((answer.token.as_str(), status), ("tokenoftim", StatusCode::Created));

    let same_id = CreateUser::respond(
        &mut state,
        "jim".to_string(),
        "h".to_string(),
        1,
        "tokenofjim".to_string(),
    );
    assert_eq!(same_id.unwrap_err(), Error::StorageUnavailable);

    let same_token = CreateUser::respond(
        &mut state,
        "jim".to_string(),
        "h".to_string(),
        2,
        "tokenoftim".to_string(),
    );
    assert_eq!(same_token.unwrap_err(), Error::StorageUnavailable);
    assert_eq!(Error::StorageUnavailable.status().code(), 500);

    let same_name = CreateUser::respond(
        &mut state,
        "tim".to_string(),
        "h".to_string(),
        1,
        "tokenoftim".to_string(),
    );
    assert_eq!(same_name.unwrap_err(), Error::UsernameTaken);

    assert_eq!(state.credentials.user_count(), 1);
    assert!(handlers::following(&state, "jim").is_err());
    assert_eq!(Me::handler(&state, &bearer("tokenoftim")).unwrap().0.id, 1);
}
