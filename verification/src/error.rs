//! The failures an operation can end in, and how each is reported.

use vstd::prelude::*;
use crate::status::StatusCode;

verus! {

/// What was wrong with the `Authorization` header.
#[derive(Debug, PartialEq, Eq, Clone, Copy, Structural)]
pub enum HeaderFault {
    /// The request carried no such header.
    Missing,
    /// The header's value is not of the form `Bearer <token>`.
    Unparseable,
}

/// Which lookup failed to find a user.
#[derive(Debug, PartialEq, Eq, Clone, Copy, Structural)]
pub enum Lookup {
    /// A login named a user that does not exist.
    Account,
    /// A profile, or the target of a follow, does not exist.
    Profile,
}

/// A typed failure. Every failure ends the request it occurred in.
#[derive(Debug, PartialEq, Eq, Clone, Copy, Structural)]
pub enum Error {
    /// The client sent no usable `Authorization` header.
    MalformedHeader(HeaderFault),
    /// The bearer token belongs to nobody.
    Unauthenticated,
    /// Registration asked for a username that is in use.
    UsernameTaken,
    /// No user has the given username.
    UserNotFound(Lookup),
    /// The password was not accepted. Nothing more is said, on purpose.
    InvalidCredentials,
    /// A user tried to follow themselves.
    SelfFollow,
    /// The follow edge exists already.
    AlreadyFollowing,
    /// The content of an event is longer than the limit.
    ContentTooLong,
    /// The store refused or failed the operation.
    StorageUnavailable,
}

/// Whether an outcome is the expected one: the same failure, or a success
/// whose value stands for the expected value.
pub open spec fn agrees<T: DeepView>(r: Result<T, Error>, expected: Result<T::V, Error>) -> bool {
    match r {
        Ok(v) => expected == Ok::<T::V, Error>(v.deep_view()),
        Err(e) => expected == Err::<T::V, Error>(e),
    }
}

/// What a failure looks like to the client: a status and a message.
#[derive(Debug, PartialEq, Eq)]
pub struct ErrorBody {
    pub status: StatusCode,
    pub message: String,
}

/// The message sent when nothing more specific may be said.
pub open spec fn generic_message() -> Seq<char> {
    "Something went wrong"@
}

impl Error {
    /// The status code this failure is reported with.
    pub open spec fn spec_status(self) -> StatusCode {
        match self {
            Error::MalformedHeader(_) => StatusCode::BadRequest,
            Error::Unauthenticated => StatusCode::Unauthorized,
            Error::UsernameTaken => StatusCode::Conflict,
            Error::UserNotFound(_) => StatusCode::NotFound,
            Error::InvalidCredentials => StatusCode::Forbidden,
            Error::SelfFollow => StatusCode::Conflict,
            Error::AlreadyFollowing => StatusCode::Conflict,
            Error::ContentTooLong => StatusCode::Conflict,
            Error::StorageUnavailable => StatusCode::InternalServerError,
        }
    }

    /// The message this failure is reported with.
    pub open spec fn spec_message(self) -> Seq<char> {
        match self {
            Error::MalformedHeader(HeaderFault::Missing) => "Missing value for 'Authorization' header"@,
            Error::MalformedHeader(HeaderFault::Unparseable) => "Unable to parse Authorization header value"@,
            Error::Unauthenticated => "Invalid auth token"@,
            Error::UsernameTaken => "Submitted username already taken"@,
            Error::UserNotFound(Lookup::Account) => "User not found"@,
            Error::UserNotFound(Lookup::Profile) => "User does not exist"@,
            Error::InvalidCredentials => generic_message(),
            Error::SelfFollow => "You cannot follow yourself"@,
            Error::AlreadyFollowing => "You cannot follow the same user twice"@,
            Error::ContentTooLong => "content too long"@,
            Error::StorageUnavailable => "Storage unavailable"@,
        }
    }

    /// The status code this failure is reported with.
    #[verifier::when_used_as_spec(spec_status)]
    pub fn status(self) -> (s: StatusCode)
        ensures
            s == self.spec_status(),
            !StatusCode::code_is_success(s.spec_code()),
    {
        match self {
            Error::MalformedHeader(_) => StatusCode::BadRequest,
            Error::Unauthenticated => StatusCode::Unauthorized,
            Error::UsernameTaken => StatusCode::Conflict,
            Error::UserNotFound(_) => StatusCode::NotFound,
            Error::InvalidCredentials => StatusCode::Forbidden,
            Error::SelfFollow => StatusCode::Conflict,
            Error::AlreadyFollowing => StatusCode::Conflict,
            Error::ContentTooLong => StatusCode::Conflict,
            Error::StorageUnavailable => StatusCode::InternalServerError,
        }
    }

    /// The message this failure is reported with.
    pub fn message(self) -> (m: String)
        ensures
            m@ == self.spec_message(),
    {
        let text = match self {
            Error::MalformedHeader(HeaderFault::Missing) => "Missing value for 'Authorization' header",
            Error::MalformedHeader(HeaderFault::Unparseable) => "Unable to parse Authorization header value",
            Error::Unauthenticated => "Invalid auth token",
            Error::UsernameTaken => "Submitted username already taken",
            Error::UserNotFound(Lookup::Account) => "User not found",
            Error::UserNotFound(Lookup::Profile) => "User does not exist",
            Error::InvalidCredentials => "Something went wrong",
            Error::SelfFollow => "You cannot follow yourself",
            Error::AlreadyFollowing => "You cannot follow the same user twice",
            Error::ContentTooLong => "content too long",
            Error::StorageUnavailable => "Storage unavailable",
        };
        text.to_owned()
    }

    /// Status and message together, as the client gets them.
    pub fn body(self) -> (b: ErrorBody)
        ensures
            b.status == self.spec_status(),
            b.message@ == self.spec_message(),
    {
        ErrorBody { status: self.status(), message: self.message() }
    }
}

/// A failure that says no more than its status.
pub fn something_went_wrong(status_code: StatusCode) -> (b: ErrorBody)
    ensures
        b.status == status_code,
        b.message@ == generic_message(),
{
    ErrorBody { status: status_code, message: "Something went wrong".to_owned() }
}

} // verus!
