use chirp_feed::auth::Request;
use chirp_feed::endpoints::CreateUser;
use chirp_feed::error::{Error, Lookup};
use chirp_feed::follows::{FollowEdge, FollowGraph};
use chirp_feed::handlers;
use chirp_feed::state::State;

fn bearer(token: &str) -> Request {
    Request { authorization: Some(format!("Bearer {}", token)), page: None, page_size: None }
}

fn register(state: &mut State, username: &str) -> String {
    CreateUser::handler(state, username.to_string(), "hashed".to_string()).unwrap().0.token
}

fn names(listed: Vec<chirp_feed::responses::UserResponse>) -> Vec<String> {
    listed.into_iter().map(|user| user.username).collect()
}

#[test]
fn following_another_user() {
    let mut state = State::new();
    let tim_token = register(&mut state, "tim");
    register(&mut state, "jim");

    for username in ["tim", "jim"] {
        let (listed, status) = handlers::followers(&state, username).unwrap();
        assert_eq!(status.code(), 200);
        assert!(listed.is_empty());

        let (listed, status) = handlers::following(&state, username).unwrap();
        assert_eq!(status.code(), 200);
        assert!(listed.is_empty());
    }

    let status = handlers::follow(&mut state, &bearer(&tim_token), "jim").unwrap();
    assert_eq!(status.code(), 201);

    let (listed, status) = handlers::following(&state, "tim").unwrap();
    assert_eq!(status.code(), 200);
    assert_eq!(names(listed), vec!["jim"]);

    let (listed, status) = handlers::following(&state, "jim").unwrap();
    assert_eq!(status.code(), 200);
    assert!(listed.is_empty());

    let (listed, status) = handlers::followers(&state, "tim").unwrap();
    assert_eq!(status.code(), 200);
    assert!(listed.is_empty());

    let (listed, status) = handlers::followers(&state, "jim").unwrap();
    assert_eq!(status.code(), 200);
    assert_eq!(names(listed), vec!["tim"]);
}

#[test]
fn follow_same_user_twice() {
    let mut state = State::new();
    let tim_token = register(&mut state, "tim");
    register(&mut state, "jim");

    let status = handlers::follow(&mut state, &bearer(&tim_token), "jim").unwrap();
    assert_eq!(status.code(), 201);

    let err = handlers::follow(&mut state, &bearer(&tim_token), "jim").unwrap_err();
    assert_eq!(err.status().code(), 409);
    assert_eq!(err.message(), "You cannot follow the same user twice");
    assert_eq!(err, Error::AlreadyFollowing);

    assert_eq!(names(handlers::following(&state, "tim").unwrap().0), vec!["jim"]);
    assert_eq!(state.follows.len(), 1);
}

#[test]
fn cannot_follow_self() {
    let mut state = State::new();
    let bobs_token = register(&mut state, "bob");

    let err = handlers::follow(&mut state, &bearer(&bobs_token), "bob").unwrap_err();
    assert_eq!(err.status().code(), 409);
    assert_eq!(err.message(), "You cannot follow yourself");
    assert_eq!(err, Error::SelfFollow);
    assert_eq!(state.follows.len(), 0);
}

#[test]
fn following_needs_a_caller_and_a_target() {
    let mut state = State::new();
    let tim_token = register(&mut state, "tim");

    let nobody = Request { authorization: None, page: None, page_size: None };
    assert_eq!(handlers::follow(&mut state, &nobody, "tim").unwrap_err().status().code(), 400);
    assert_eq!(
        handlers::follow(&mut state, &bearer("unknown"), "tim").unwrap_err(),
        Error::Unauthenticated
    );
    assert_eq!(
        handlers::follow(&mut state, &bearer(&tim_token), "jim").unwrap_err(),
        Error::UserNotFound(Lookup::Profile)
    );
    assert_eq!(
        handlers::following(&state, "jim").unwrap_err(),
        Error::UserNotFound(Lookup::Profile)
    );
    assert_eq!(
        handlers::followers(&state, "jim").unwrap_err(),
        Error::UserNotFound(Lookup::Profile)
    );
    assert_eq!(state.follows.len(), 0);
}

#[test]
fn the_graph_keeps_edges_in_the_order_they_came() {
    let mut graph = FollowGraph::new();
    assert_eq!(graph.follow(1, 1), Err(Error::SelfFollow));
    assert_eq!(graph.follow(1, 2), Ok(()));
    assert_eq!(graph.follow(3, 2), Ok(()));
    assert_eq!(graph.follow(1, 3), Ok(()));
    assert_eq!(graph.follow(1, 2), Err(Error::AlreadyFollowing));
    assert_eq!(graph.follow(2, 1), Ok(()));
    assert_eq!(graph.len(), 4);
    assert_eq!(graph.edge(0), FollowEdge { follower_id: 1, followed_id: 2 });
    assert_eq!(graph.edge(3), FollowEdge { follower_id: 2, followed_id: 1 });
    assert!(graph.is_following(1, 3));
    assert!(!graph.is_following(3, 1));
    assert!(!graph.is_following(2, 2));
}

#[test]
fn lists_name_registered_users_only_and_in_order() {
    let mut state = State::new();
    for (id, name) in [(1u128, "ann"), (2, "bob"), (3, "cat")] {
        CreateUser::respond(
            &mut state,
            name.to_string(),
            "h".to_string(),
            id,
            format!("token{}", id),
        )
        .unwrap();
    }
    state.follows.follow(1, 3).unwrap();
    state.follows.follow(1, 99).unwrap();
    state.follows.follow(1, 2).unwrap();
    state.follows.follow(2, 3).unwrap();
    state.follows.follow(99, 3).unwrap();

    assert_eq!(names(state.following_of(1)), vec!["cat", "bob"]);
    assert_eq!(names(state.followers_of(3)), vec!["ann", "bob"]);
    assert_eq!(names(state.following_of(3)), Vec::<String>::new());
    assert_eq!(names(state.followers_of(99)), vec!["ann"]);
    assert!(handlers::user_following(&state, 1, 99));
    assert!(!handlers::user_following(&state, 99, 1));
}

#[test]
fn requests_leave_every_edge_and_event_with_registered_users() {
    let mut state = State::new();
    assert!(state.names_users_only());
    let tim = register(&mut state, "tim");
    let jim = register(&mut state, "jim");
    handlers::follow(&mut state, &bearer(&tim), "jim").unwrap();
    handlers::follow(&mut state, &bearer(&jim), "tim").unwrap();
    assert!(handlers::follow(&mut state, &bearer(&jim), "nobody").is_err());
    chirp_feed::endpoints::PostEvent::handler(
        &mut state,
        &bearer(&tim),
        chirp_feed::payloads::CreateEventPayload { content: "hello".to_string() },
    )
    .unwrap();
    handlers::logout(&mut state, &bearer(&tim)).unwrap();
    assert!(state.names_users_only());
    assert_eq!(names(handlers::following(&state, "tim").unwrap().0), vec!["jim"]);
    assert_eq!(names(handlers::followers(&state, "tim").unwrap().0), vec!["jim"]);

    state.follows.follow(99, 1).unwrap();
    assert!(!state.names_users_only());
}
