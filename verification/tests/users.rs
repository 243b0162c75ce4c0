use chirp_feed::endpoints::{CreateUser, GetUser};
use chirp_feed::error::{Error, Lookup};
use chirp_feed::state::State;

#[test]
fn get_other_profile() {
    let mut state = State::new();
    let username = "tim";
    CreateUser::handler(&mut state, username.to_string(), "h".to_string()).unwrap();

    let (user, status) = GetUser::handler(&state, username).unwrap();
    assert_eq!(status.code(), 200);
    assert_eq!(user.username, "tim");
}

#[test]
fn get_nonexistent_profile() {
    let state = State::new();

    let err = GetUser::handler(&state, "jim").unwrap_err();
    assert_eq!(err.status().code(), 404);
    assert_eq!(err.message(), "User does not exist");
    assert_eq!(err, Error::UserNotFound(Lookup::Profile));
}

#[test]
fn usernames_are_told_apart_exactly() {
    let mut state = State::new();
    CreateUser::respond(&mut state, "tim".to_string(), "h".to_string(), 7, "t".to_string())
        .unwrap();
    assert!(state.credentials.username_taken("tim"));
    assert!(!state.credentials.username_taken("Tim"));
    assert!(!state.credentials.username_taken("tim "));
    assert!(!state.credentials.username_taken(""));
    assert_eq!(state.credentials.find_user("tim").unwrap().id, 7);
    assert_eq!(state.credentials.identity_of(7).unwrap().username, "tim");
    assert_eq!(state.credentials.identity_of(8), None);
    assert_eq!(state.credentials.stored_hash("tim"), Some((7, "h".to_string())));
    assert_eq!(state.credentials.stored_hash("jim"), None);
}
