//! Request bodies accepted by the endpoints.

use vstd::prelude::*;

verus! {

/// Body of a registration request.
#[derive(Debug, PartialEq, Eq)]
pub struct CreateUserPayload {
    pub username: String,
    pub password: String,
}

/// Body of a login request; the username travels in the path.
#[derive(Debug, PartialEq, Eq)]
pub struct LoginPayload {
    pub password: String,
}

/// Body of a request that posts a new event.
#[derive(Debug, PartialEq, Eq)]
pub struct CreateEventPayload {
    pub content: String,
}

} // verus!
