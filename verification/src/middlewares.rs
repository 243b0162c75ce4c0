//! Turns every failure into the same envelope: a status code, written out in
//! decimal, and a message.

use vstd::prelude::*;
use vstd::string::StringExecFns;
use crate::error::generic_message;
use crate::status::StatusCode;

verus! {

/// The character of a decimal digit.
pub open spec fn digit(d: nat) -> char {
    if d == 0 {
        '0'
    } else if d == 1 {
        '1'
    } else if d == 2 {
        '2'
    } else if d == 3 {
        '3'
    } else if d == 4 {
        '4'
    } else if d == 5 {
        '5'
    } else if d == 6 {
        '6'
    } else if d == 7 {
        '7'
    } else if d == 8 {
        '8'
    } else {
        '9'
    }
}

/// A number written in decimal, without leading zeros.
pub open spec fn decimal(n: nat) -> Seq<char>
    decreases n,
{
    if n < 10 {
        seq![digit(n)]
    } else {
        decimal(n / 10).push(digit(n % 10))
    }
}

fn digit_text(d: u16) -> (r: &'static str)
    requires
        d < 10,
    ensures
        r@ == seq![digit(d as nat)],
{
    proof {
        reveal_strlit("0");
        reveal_strlit("1");
        reveal_strlit("2");
        reveal_strlit("3");
        reveal_strlit("4");
        reveal_strlit("5");
        reveal_strlit("6");
        reveal_strlit("7");
        reveal_strlit("8");
        reveal_strlit("9");
    }
    let r = if d == 0 {
        "0"
    } else if d == 1 {
        "1"
    } else if d == 2 {
        "2"
    } else if d == 3 {
        "3"
    } else if d == 4 {
        "4"
    } else if d == 5 {
        "5"
    } else if d == 6 {
        "6"
    } else if d == 7 {
        "7"
    } else if d == 8 {
        "8"
    } else {
        "9"
    };
    assert(r@ =~= seq![digit(d as nat)]);
    r
}

/// Writes a status code in decimal.
pub fn status_text(code: u16) -> (r: String)
    ensures
        r@ == decimal(code as nat),
    decreases code,
{
    if code < 10 {
        digit_text(code).to_owned()
    } else {
        let mut text = status_text(code / 10);
        text.append(digit_text(code % 10));
        assert(text@ =~= decimal((code / 10) as nat).push(digit((code % 10) as nat)));
        text
    }
}

/// A failure that a handler reported.
#[derive(Debug, PartialEq, Eq)]
pub struct Failure {
    pub status: u16,
    pub message: String,
}

/// What the middleware looks at in a response: its status, the failure it
/// carries if it carries one, and whether its body is empty, if that is
/// known.
#[derive(Debug, PartialEq, Eq)]
pub struct Outcome {
    pub status: u16,
    pub error: Option<Failure>,
    pub body_is_empty: Option<bool>,
}

/// The envelope of a failure.
#[derive(Debug, PartialEq, Eq)]
pub struct ErrorEnvelope {
    pub status_code: String,
    pub message: String,
}

/// What an [`ErrorEnvelope`] stands for.
pub struct EnvelopeView {
    pub status_code: Seq<char>,
    pub message: Seq<char>,
}

impl DeepView for ErrorEnvelope {
    type V = EnvelopeView;

    open spec fn deep_view(&self) -> EnvelopeView {
        EnvelopeView { status_code: self.status_code@, message: self.message@ }
    }
}

/// What is to be done with a response.
#[derive(Debug, PartialEq, Eq)]
pub enum Rewrite {
    /// The response goes out as it is.
    Keep,
    /// A new response with the given status takes its place, with the
    /// envelope as its body.
    Replace(u16, ErrorEnvelope),
    /// The response goes out with the envelope as its body.
    Fill(ErrorEnvelope),
}

/// What a [`Rewrite`] stands for.
pub enum RewriteView {
    Keep,
    Replace(u16, EnvelopeView),
    Fill(EnvelopeView),
}

impl DeepView for Rewrite {
    type V = RewriteView;

    open spec fn deep_view(&self) -> RewriteView {
        match self {
            Rewrite::Keep => RewriteView::Keep,
            Rewrite::Replace(status, envelope) => RewriteView::Replace(
                *status,
                envelope.deep_view(),
            ),
            Rewrite::Fill(envelope) => RewriteView::Fill(envelope.deep_view()),
        }
    }
}

/// The envelope of a failure with the given status and message.
pub open spec fn envelope(status: u16, message: Seq<char>) -> EnvelopeView {
    EnvelopeView { status_code: decimal(status as nat), message }
}

/// The middleware that gives every failure its envelope.
#[derive(Debug)]
pub struct ErrResponseToJson;

impl ErrResponseToJson {
    /// Whether the middleware can decide on a response: it has to know
    /// whether the body is empty where that decides.
    pub open spec fn decides(outcome: Outcome) -> bool {
        outcome.error is None && !StatusCode::code_is_success(outcome.status)
            ==> outcome.body_is_empty is Some
    }

    /// What is to be done with a response. A failure that a handler
    /// reported is put into its envelope, under the failure's own status. A
    /// response that reports success is kept. Any other response is kept if
    /// it has a body, and gets the envelope of its status, with the generic
    /// message, if it has none.
    pub open spec fn rewrite(outcome: Outcome) -> RewriteView {
        match outcome.error {
            Some(failure) => RewriteView::Replace(
                failure.status,
                envelope(failure.status, failure.message@),
            ),
            None => if StatusCode::code_is_success(outcome.status) {
                RewriteView::Keep
            } else if outcome.body_is_empty == Some(true) {
                RewriteView::Fill(envelope(outcome.status, generic_message()))
            } else {
                RewriteView::Keep
            },
        }
    }

    /// Decides what is to be done with a response.
    pub fn handle(&self, outcome: &Outcome) -> (r: Rewrite)
        requires
            Self::decides(*outcome),
        ensures
            r.deep_view() == Self::rewrite(*outcome),
    {
        match &outcome.error {
            Some(failure) => Rewrite::Replace(
                failure.status,
                ErrorEnvelope {
                    status_code: status_text(failure.status),
                    message: failure.message.clone(),
                },
            ),
            None => {
                if 200 <= outcome.status && outcome.status <= 299 {
                    Rewrite::Keep
                } else {
                    match outcome.body_is_empty {
                        Some(true) => Rewrite::Fill(
                            ErrorEnvelope {
                                status_code: status_text(outcome.status),
                                message: "Something went wrong".to_owned(),
                            },
                        ),
                        _ => Rewrite::Keep,
                    }
                }
            },
        }
    }
}

} // verus!
