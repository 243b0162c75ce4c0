//! What the service draws from outside itself: random identifiers, random
//! tokens and the time of day.
//!
//! The three functions at the end of this file are not verified. Each makes
//! one call into another crate, and what its contract says of that call is
//! taken on trust.

use vstd::prelude::*;
use crate::auth::{bearer_header, bearer_token, lemma_bearer_round_trip};

verus! {

/// How many characters a token has.
pub const TOKEN_LEN: usize = 32;

/// Whether a character is an ASCII letter or digit.
pub open spec fn is_alphanumeric(c: char) -> bool {
    ('a' <= c && c <= 'z') || ('A' <= c && c <= 'Z') || ('0' <= c && c <= '9')
}

/// Whether a text is made of ASCII letters and digits only.
pub open spec fn all_alphanumeric(s: Seq<char>) -> bool {
    forall|i: int| 0 <= i < s.len() ==> is_alphanumeric(#[trigger] s[i])
}

/// A text of letters and digits is a token that a bearer header can carry.
pub proof fn lemma_alphanumeric_is_bearable(token: Seq<char>)
    requires
        all_alphanumeric(token),
    ensures
        bearer_token(bearer_header(token)) == Some(token),
{
    if token.contains('\n') {
        let i = choose|i: int| 0 <= i < token.len() && token[i] == '\n';
        assert(is_alphanumeric(token[i]));
    }
    lemma_bearer_round_trip(token);
}

/// A new bearer token: [`TOKEN_LEN`] random letters and digits, safe to put
/// in a URL and fit to travel in a bearer header.
pub fn generate_token() -> (token: String)
    ensures
        token@.len() == TOKEN_LEN,
        all_alphanumeric(token@),
        bearer_token(bearer_header(token@)) == Some(token@),
{
    let token = random_alphanumeric(TOKEN_LEN);
    proof {
        lemma_alphanumeric_is_bearable(token@);
    }
    token
}

/// Draws a random identifier. Calls `uuid::Uuid::new_v4`, which fills a
/// version-4 UUID from the operating system's random source, and hands the
/// UUID back as the number that `Uuid::as_u128` gives. Nothing is claimed of
/// the number: two calls may even give the same one.
#[verifier::external_body]
pub(crate) fn random_id() -> u128 {
    uuid::Uuid::new_v4().as_u128()
}

/// Reads the clock. Calls `chrono::Utc::now` and hands back what
/// `DateTime::timestamp_micros` makes of it: the microseconds since the
/// Unix epoch. Nothing is claimed of the number.
#[verifier::external_body]
pub(crate) fn now_micros() -> i64 {
    chrono::Utc::now().timestamp_micros()
}

/// Draws `len` random characters. Samples `rand::distributions::Alphanumeric`
/// from `rand::rngs::OsRng` through `rand::Rng::sample_iter`; that
/// distribution yields ASCII letters and digits only, and `len` samples are
/// taken. Which characters come is left open.
#[verifier::external_body]
pub(crate) fn random_alphanumeric(len: usize) -> (s: String)
    ensures
        s@.len() == len,
        all_alphanumeric(s@),
{
    rand::Rng::sample_iter(rand::rngs::OsRng, &rand::distributions::Alphanumeric)
        .take(len)
        .map(char::from)
        .collect()
}

} // verus!
