//! The endpoints of the service, as client and server both know them: for
//! each its path, its method, and what it takes and gives.

use vstd::prelude::*;
use vstd::string::StringExecFns;
use crate::payloads::{CreateEventPayload, CreateUserPayload, LoginPayload};
use crate::responses::{EventResponse, PostEventResponse, TokenResponse, UserResponse};

verus! {

/// The method of a request.
#[derive(Debug, PartialEq, Eq, Clone, Copy, Structural)]
pub enum Method {
    Get,
    Post,
    Head,
    Put,
    Delete,
    Connect,
    Options,
    Trace,
    Patch,
}

/// The path of an endpoint.
pub trait Url {
    /// The route: the path with `:name` where a parameter stands.
    const URL_SPEC: &'static str;

    /// The path with its parameters filled in.
    spec fn path(&self) -> Seq<char>;

    /// The path with its parameters filled in.
    fn url(&self) -> (r: String)
        ensures
            r@ == self.path(),
    ;
}

/// An endpoint: where it is, and what it speaks.
pub trait ApiEndpoint {
    type Url: Url;

    const METHOD: Method;

    type Payload;

    type Response;
}

/// The body of a request that has none.
#[derive(Debug, PartialEq, Eq, Clone, Copy)]
pub struct NoPayload;

/// Reads the profile of a user.
pub struct GetUser;

impl ApiEndpoint for GetUser {
    type Url = GetUserUrl;

    const METHOD: Method = Method::Get;

    type Payload = NoPayload;

    type Response = UserResponse;
}

pub struct GetUserUrl {
    pub username: String,
}

impl Url for GetUserUrl {
    const URL_SPEC: &'static str = "/users/:username";

    open spec fn path(&self) -> Seq<char> {
        "/users/"@ + self.username@
    }

    fn url(&self) -> (r: String) {
        let mut path = "/users/".to_owned();
        path.append(self.username.as_str());
        path
    }
}

/// Posts an event.
pub struct PostEvent;

impl ApiEndpoint for PostEvent {
    type Url = PostEventUrl;

    const METHOD: Method = Method::Post;

    type Payload = CreateEventPayload;

    type Response = PostEventResponse;
}

pub struct PostEventUrl;

impl Url for PostEventUrl {
    const URL_SPEC: &'static str = "/events";

    open spec fn path(&self) -> Seq<char> {
        "/events"@
    }

    fn url(&self) -> (r: String) {
        "/events".to_owned()
    }
}

/// Tells who the caller is.
pub struct Me;

impl ApiEndpoint for Me {
    type Url = MeUrl;

    const METHOD: Method = Method::Get;

    type Payload = NoPayload;

    type Response = UserResponse;
}

pub struct MeUrl;

impl Url for MeUrl {
    const URL_SPEC: &'static str = "/me";

    open spec fn path(&self) -> Seq<char> {
        "/me"@
    }

    fn url(&self) -> (r: String) {
        "/me".to_owned()
    }
}

/// Logs a user in.
pub struct Login;

impl ApiEndpoint for Login {
    type Url = LoginUrl;

    const METHOD: Method = Method::Post;

    type Payload = LoginPayload;

    type Response = TokenResponse;
}

pub struct LoginUrl {
    pub username: String,
}

impl Url for LoginUrl {
    const URL_SPEC: &'static str = "/users/:username/session";

    open spec fn path(&self) -> Seq<char> {
        "/users/"@ + self.username@ + "/session"@
    }

    fn url(&self) -> (r: String) {
        let mut path = "/users/".to_owned();
        path.append(self.username.as_str());
        path.append("/session");
        path
    }
}

/// Registers a user.
pub struct CreateUser;

impl ApiEndpoint for CreateUser {
    type Url = CreateUserUrl;

    const METHOD: Method = Method::Post;

    type Payload = CreateUserPayload;

    type Response = TokenResponse;
}

pub struct CreateUserUrl;

impl Url for CreateUserUrl {
    const URL_SPEC: &'static str = "/users";

    open spec fn path(&self) -> Seq<char> {
        "/users"@
    }

    fn url(&self) -> (r: String) {
        "/users".to_owned()
    }
}

/// Reads a page of the caller's feed.
pub struct Timeline;

impl ApiEndpoint for Timeline {
    type Url = TimelineUrl;

    const METHOD: Method = Method::Get;

    type Payload = NoPayload;

    type Response = Vec<EventResponse>;
}

pub struct TimelineUrl;

impl Url for TimelineUrl {
    const URL_SPEC: &'static str = "/me/timeline";

    open spec fn path(&self) -> Seq<char> {
        "/me/timeline"@
    }

    fn url(&self) -> (r: String) {
        "/me/timeline".to_owned()
    }
}

} // verus!
