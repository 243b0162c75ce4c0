use chirp_feed::endpoints::{
    ApiEndpoint, CreateUser, CreateUserUrl, GetUser, GetUserUrl, Login, LoginUrl, Me, MeUrl,
    Method, PostEvent, PostEventUrl, Timeline, TimelineUrl, Url,
};
use chirp_feed::responses::{ApiResponse, TokenResponse, UserResponse};

#[test]
fn every_endpoint_has_its_path() {
    assert_eq!(GetUserUrl { username: "tim".to_string() }.url(), "/users/tim");
    assert_eq!(LoginUrl { username: "tim".to_string() }.url(), "/users/tim/session");
    assert_eq!(PostEventUrl.url(), "/events");
    assert_eq!(MeUrl.url(), "/me");
    assert_eq!(CreateUserUrl.url(), "/users");
    assert_eq!(TimelineUrl.url(), "/me/timeline");
    assert_eq!(GetUserUrl { username: String::new() }.url(), "/users/");
    assert_eq!(LoginUrl { username: "a/b".to_string() }.url(), "/users/a/b/session");
}

#[test]
fn every_endpoint_has_its_route() {
    assert_eq!(GetUserUrl::URL_SPEC, "/users/:username");
    assert_eq!(LoginUrl::URL_SPEC, "/users/:username/session");
    assert_eq!(PostEventUrl::URL_SPEC, "/events");
    assert_eq!(MeUrl::URL_SPEC, "/me");
    assert_eq!(CreateUserUrl::URL_SPEC, "/users");
    assert_eq!(TimelineUrl::URL_SPEC, "/me/timeline");
}

#[test]
fn every_endpoint_has_its_method() {
    assert_eq!(GetUser::METHOD, Method::Get);
    assert_eq!(Me::METHOD, Method::Get);
    assert_eq!(Timeline::METHOD, Method::Get);
    assert_eq!(PostEvent::METHOD, Method::Post);
    assert_eq!(Login::METHOD, Method::Post);
    assert_eq!(CreateUser::METHOD, Method::Post);
    assert_eq!(<<GetUser as ApiEndpoint>::Url as Url>::URL_SPEC, "/users/:username");
    assert_eq!(<<Timeline as ApiEndpoint>::Url as Url>::URL_SPEC, "/me/timeline");
}

#[test]
fn responses_hold_what_they_are_made_of() {
    assert_eq!(TokenResponse::new("abc").token, "abc");
    assert_eq!(ApiResponse::new(5).data, 5);
    let user = UserResponse { id: 9, username: "tim".to_string() };
    assert_eq!(user.clone(), user);
    assert_eq!(ApiResponse::new(user.clone()).data, user);
}
