//! The auth gate: from the `Authorization` header of a request to the user
//! who sent it. Every protected operation passes through here first.

use vstd::prelude::*;
use vstd::string::StrSliceExecFns;
use crate::credentials::Credentials;
use crate::error::{agrees, Error, HeaderFault};
use crate::responses::{UserResponse, UserView};
use crate::state::State;

verus! {

/// What a request carries besides its body: the value of its
/// `Authorization` header, if it has one, and the two numbers of its query.
#[derive(Debug, PartialEq, Eq)]
pub struct Request {
    pub authorization: Option<String>,
    pub page: Option<usize>,
    pub page_size: Option<usize>,
}

/// What a [`Request`] stands for.
pub struct RequestView {
    pub authorization: Option<Seq<char>>,
    pub page: Option<usize>,
    pub page_size: Option<usize>,
}

impl View for Request {
    type V = RequestView;

    open spec fn view(&self) -> RequestView {
        RequestView {
            authorization: self.authorization.deep_view(),
            page: self.page,
            page_size: self.page_size,
        }
    }
}

/// What a bearer header begins with.
pub open spec fn bearer_prefix() -> Seq<char> {
    "Bearer "@
}

/// The token of a header of the form `Bearer <token>`. The token is all
/// that follows the prefix; it may be empty, and it holds no line feed.
pub open spec fn bearer_token(header: Seq<char>) -> Option<Seq<char>> {
    let rest = header.skip(bearer_prefix().len() as int);
    if bearer_prefix().is_prefix_of(header) && !rest.contains('\n') {
        Some(rest)
    } else {
        None
    }
}

/// The header that carries `token`.
pub open spec fn bearer_header(token: Seq<char>) -> Seq<char> {
    bearer_prefix() + token
}

/// The token a request presents, or what is wrong with its header.
pub open spec fn presented_token(authorization: Option<Seq<char>>) -> Result<Seq<char>, Error> {
    match authorization {
        None => Err(Error::MalformedHeader(HeaderFault::Missing)),
        Some(header) => match bearer_token(header) {
            None => Err(Error::MalformedHeader(HeaderFault::Unparseable)),
            Some(token) => Ok(token),
        },
    }
}

impl Credentials {
    /// Who sent a request with the given `Authorization` header.
    pub open spec fn authenticate(self, authorization: Option<Seq<char>>) -> Result<
        UserView,
        Error,
    > {
        match presented_token(authorization) {
            Err(e) => Err(e),
            Ok(token) => match self.resolve(token) {
                None => Err(Error::Unauthenticated),
                Some(user) => Ok(user),
            },
        }
    }
}

/// A header made of the prefix and a token without line feed carries that token.
pub proof fn lemma_bearer_round_trip(token: Seq<char>)
    requires
        !token.contains('\n'),
    ensures
        bearer_token(bearer_header(token)) == Some(token),
{
    let header = bearer_header(token);
    let n = bearer_prefix().len() as int;
    assert(header.skip(n) =~= token);
    assert(header.subrange(0, n) =~= bearer_prefix());
}

/// Reads the token out of a header of the form `Bearer <token>`.
pub fn parse_bearer(header: &str) -> (r: Option<String>)
    ensures
        r.deep_view() == bearer_token(header@),
{
    let prefix = "Bearer ";
    proof {
        reveal_strlit("Bearer ");
    }
    let n = header.unicode_len();
    let m = prefix.unicode_len();
    if n < m {
        return None;
    }
    let mut i: usize = 0;
    while i < m
        invariant
            i <= m <= n,
            m == prefix@.len(),
            n == header@.len(),
            prefix@ == bearer_prefix(),
            forall|j: int| 0 <= j < i ==> header@[j] == prefix@[j],
        decreases m - i,
    {
        if header.get_char(i) != prefix.get_char(i) {
            assert(header@.subrange(0, m as int)[i as int] != prefix@[i as int]);
            return None;
        }
        i += 1;
    }
    assert(header@.subrange(0, m as int) =~= prefix@);
    let ghost rest = header@.skip(m as int);
    let mut k: usize = m;
    while k < n
        invariant
            m <= k <= n,
            n == header@.len(),
            m == bearer_prefix().len(),
            rest == header@.skip(m as int),
            forall|j: int| 0 <= j < k - m ==> rest[j] != '\n',
        decreases n - k,
    {
        if header.get_char(k) == '\n' {
            assert(rest[k - m] == '\n');
            assert(rest.contains('\n'));
            return None;
        }
        k += 1;
    }
    let token = header.substring_char(m, n).to_owned();
    assert(token@ =~= rest);
    Some(token)
}

/// The token that a request presents.
pub fn get_auth_token(req: &Request) -> (r: Result<String, Error>)
    ensures
        agrees(r, presented_token(req@.authorization)),
{
    match &req.authorization {
        None => Err(Error::MalformedHeader(HeaderFault::Missing)),
        Some(header) => match parse_bearer(header.as_str()) {
            None => Err(Error::MalformedHeader(HeaderFault::Unparseable)),
            Some(token) => Ok(token),
        },
    }
}

/// The user who sent a request. Changes nothing.
pub fn authenticate(state: &State, req: &Request) -> (r: Result<UserResponse, Error>)
    requires
        state.wf(),
    ensures
        agrees(r, state@.credentials.authenticate(req@.authorization)),
{
    let token = match get_auth_token(req) {
        Ok(token) => token,
        Err(e) => {
            return Err(e);
        },
    };
    match state.credentials.resolve(token.as_str()) {
        None => Err(Error::Unauthenticated),
        Some(user) => Ok(user),
    }
}

} // verus!
