//! Success payloads returned by the endpoints, and their mathematical views.
//!
//! Identifiers are 128-bit integers and instants are microseconds since the
//! Unix epoch; a transport layer renders them as it sees fit.

use vstd::prelude::*;

verus! {

/// The envelope every success payload travels in.
#[derive(Debug, PartialEq, Eq)]
pub struct ApiResponse<T> {
    pub data: T,
}

impl<T> ApiResponse<T> {
    pub fn new(data: T) -> (r: Self)
        ensures
            r.data == data,
    {
        Self { data }
    }
}

/// The bearer token handed out by registration and login.
#[derive(Debug, PartialEq, Eq)]
pub struct TokenResponse {
    pub token: String,
}

impl TokenResponse {
    pub fn new(token: &str) -> (r: Self)
        ensures
            r.token@ == token@,
    {
        Self { token: token.to_owned() }
    }
}

impl DeepView for TokenResponse {
    type V = Seq<char>;

    /// A token response stands for the token it carries.
    open spec fn deep_view(&self) -> Seq<char> {
        self.token@
    }
}

/// What a [`UserResponse`] stands for: an identity.
pub struct UserView {
    pub id: u128,
    pub username: Seq<char>,
}

/// A user's public identity.
#[derive(Debug, PartialEq, Eq)]
pub struct UserResponse {
    pub id: u128,
    pub username: String,
}

impl View for UserResponse {
    type V = UserView;

    open spec fn view(&self) -> UserView {
        UserView { id: self.id, username: self.username@ }
    }
}

impl DeepView for UserResponse {
    type V = UserView;

    open spec fn deep_view(&self) -> UserView {
        self@
    }
}

impl Clone for UserResponse {
    fn clone(&self) -> (r: Self)
        ensures
            r == *self,
    {
        UserResponse { id: self.id, username: self.username.clone() }
    }
}

/// What an [`EventResponse`] stands for: an event joined with its author.
pub struct EventView {
    pub id: u128,
    pub content: Seq<char>,
    pub created_at: i64,
    pub user: UserView,
}

/// One feed entry: an event together with the identity of its author, as it
/// was when the feed was read.
#[derive(Debug, PartialEq, Eq)]
pub struct EventResponse {
    pub id: u128,
    pub content: String,
    pub created_at: i64,
    pub user: UserResponse,
}

impl View for EventResponse {
    type V = EventView;

    open spec fn view(&self) -> EventView {
        EventView {
            id: self.id,
            content: self.content@,
            created_at: self.created_at,
            user: self.user@,
        }
    }
}

impl DeepView for EventResponse {
    type V = EventView;

    open spec fn deep_view(&self) -> EventView {
        self@
    }
}

impl Clone for EventResponse {
    fn clone(&self) -> (r: Self)
        ensures
            r == *self,
    {
        EventResponse {
            id: self.id,
            content: self.content.clone(),
            created_at: self.created_at,
            user: self.user.clone(),
        }
    }
}

/// What a [`PostEventResponse`] stands for.
pub struct PostEventView {
    pub id: Option<u128>,
    pub content: Option<Seq<char>>,
}

/// Acknowledgement of a posted event.
#[derive(Debug, PartialEq, Eq)]
pub struct PostEventResponse {
    pub id: Option<u128>,
    pub content: Option<String>,
}

impl DeepView for PostEventResponse {
    type V = PostEventView;

    open spec fn deep_view(&self) -> PostEventView {
        PostEventView { id: self.id, content: self.content.deep_view() }
    }
}

} // verus!
