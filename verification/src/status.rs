//! The HTTP status codes the service answers with.

use vstd::prelude::*;

verus! {

/// A status code of a response.
#[derive(Debug, PartialEq, Eq, Clone, Copy, Structural)]
pub enum StatusCode {
    Success,
    Created,
    BadRequest,
    Unauthorized,
    Forbidden,
    NotFound,
    Conflict,
    InternalServerError,
}

impl DeepView for StatusCode {
    type V = StatusCode;

    open spec fn deep_view(&self) -> StatusCode {
        *self
    }
}

impl StatusCode {
    /// The numeric code.
    pub open spec fn spec_code(self) -> u16 {
        match self {
            StatusCode::Success => 200,
            StatusCode::Created => 201,
            StatusCode::BadRequest => 400,
            StatusCode::Unauthorized => 401,
            StatusCode::Forbidden => 403,
            StatusCode::NotFound => 404,
            StatusCode::Conflict => 409,
            StatusCode::InternalServerError => 500,
        }
    }

    /// The numeric code.
    #[verifier::when_used_as_spec(spec_code)]
    pub fn code(self) -> (c: u16)
        ensures
            c == self.spec_code(),
    {
        match self {
            StatusCode::Success => 200,
            StatusCode::Created => 201,
            StatusCode::BadRequest => 400,
            StatusCode::Unauthorized => 401,
            StatusCode::Forbidden => 403,
            StatusCode::NotFound => 404,
            StatusCode::Conflict => 409,
            StatusCode::InternalServerError => 500,
        }
    }

    /// Whether a numeric code reports success, that is, lies in 200..=299.
    pub open spec fn code_is_success(code: u16) -> bool {
        200 <= code <= 299
    }

    /// Whether this status reports success.
    pub fn is_success(self) -> (b: bool)
        ensures
            b == Self::code_is_success(self.spec_code()),
            b == (self == StatusCode::Success || self == StatusCode::Created),
    {
        match self {
            StatusCode::Success | StatusCode::Created => true,
            _ => false,
        }
    }
}

} // verus!
