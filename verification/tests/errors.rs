use chirp_feed::error::{something_went_wrong, Error, HeaderFault, Lookup};
use chirp_feed::middlewares::{
    status_text, ErrResponseToJson, ErrorEnvelope, Failure, Outcome, Rewrite,
};
use chirp_feed::status::StatusCode;

#[test]
fn every_failure_has_its_status_and_message() {
    let table = [
        (
            Error::MalformedHeader(HeaderFault::Missing),
            400,
            "Missing value for 'Authorization' header",
        ),
        (
            Error::MalformedHeader(HeaderFault::Unparseable),
            400,
            "Unable to parse Authorization header value",
        ),
        (Error::Unauthenticated, 401, "Invalid auth token"),
        (Error::UsernameTaken, 409, "Submitted username already taken"),
        (Error::UserNotFound(Lookup::Account), 404, "User not found"),
        (Error::UserNotFound(Lookup::Profile), 404, "User does not exist"),
        (Error::InvalidCredentials, 403, "Something went wrong"),
        (Error::SelfFollow, 409, "You cannot follow yourself"),
        (Error::AlreadyFollowing, 409, "You cannot follow the same user twice"),
        (Error::ContentTooLong, 409, "content too long"),
        (Error::StorageUnavailable, 500, "Storage unavailable"),
    ];
    for (error, code, message) in table {
        assert_eq!(error.status().code(), code);
        assert!(!error.status().is_success());
        assert_eq!(error.message(), message);
        let body = error.body();
        assert_eq!((body.status.code(), body.message.as_str()), (code, message));
    }
}

#[test]
fn status_codes_are_the_usual_ones() {
    assert_eq!(StatusCode::Success.code(), 200);
    assert_eq!(StatusCode::Created.code(), 201);
    assert_eq!(StatusCode::BadRequest.code(), 400);
    assert_eq!(StatusCode::Unauthorized.code(), 401);
    assert_eq!(StatusCode::Forbidden.code(), 403);
    assert_eq!(StatusCode::NotFound.code(), 404);
    assert_eq!(StatusCode::Conflict.code(), 409);
    assert_eq!(StatusCode::InternalServerError.code(), 500);
    assert!(StatusCode::Success.is_success());
    assert!(StatusCode::Created.is_success());
    assert!(!StatusCode::BadRequest.is_success());
    assert!(!StatusCode::InternalServerError.is_success());
}

#[test]
fn something_went_wrong_says_no_more_than_the_status() {
    let body = something_went_wrong(StatusCode::Forbidden);
    assert_eq!(body.status, StatusCode::Forbidden);
    assert_eq!(body.message, "Something went wrong");
    assert_eq!(something_went_wrong(StatusCode::NotFound).status.code(), 404);
}

#[test]
fn status_codes_are_written_in_decimal() {
    assert_eq!(status_text(0), "0");
    assert_eq!(status_text(7), "7");
    assert_eq!(status_text(10), "10");
    assert_eq!(status_text(403), "403");
    assert_eq!(status_text(409), "409");
    assert_eq!(status_text(422), "422");
    assert_eq!(status_text(500), "500");
    assert_eq!(status_text(1000), "1000");
    assert_eq!(status_text(u16::MAX), "65535");
    for code in [1u16, 9, 11, 99, 100, 101, 200, 999, 12345, 60000] {
        assert_eq!(status_text(code), code.to_string());
    }
}

fn envelope(status_code: &str, message: &str) -> ErrorEnvelope {
    ErrorEnvelope { status_code: status_code.to_string(), message: message.to_string() }
}

#[test]
fn a_reported_failure_is_put_into_its_envelope() {
    let outcome = Outcome {
        status: 500,
        error: Some(Failure { status: 409, message: "content too long".to_string() }),
        body_is_empty: None,
    };
    assert_eq!(
        ErrResponseToJson.handle(&outcome),
        Rewrite::Replace(409, envelope("409", "content too long"))
    );
    let unprocessable = Outcome {
        status: 422,
        error: Some(Failure {
            status: 422,
            message: "missing field `content` at line 1 column 13".to_string(),
        }),
        body_is_empty: Some(true),
    };
    assert_eq!(
        ErrResponseToJson.handle(&unprocessable),
        Rewrite::Replace(422, envelope("422", "missing field `content` at line 1 column 13"))
    );
}

#[test]
fn a_success_is_kept_as_it_is() {
    for status in [200u16, 201, 204, 299] {
        for body_is_empty in [None, Some(true), Some(false)] {
            let outcome = Outcome { status, error: None, body_is_empty };
            assert_eq!(ErrResponseToJson.handle(&outcome), Rewrite::Keep);
        }
    }
}

#[test]
fn a_bare_failure_gets_the_generic_envelope() {
    for status in [199u16, 300, 403, 404, 500] {
        let empty = Outcome { status, error: None, body_is_empty: Some(true) };
        assert_eq!(
            ErrResponseToJson.handle(&empty),
            Rewrite::Fill(envelope(&status.to_string(), "Something went wrong"))
        );
        let full = Outcome { status, error: None, body_is_empty: Some(false) };
        assert_eq!(ErrResponseToJson.handle(&full), Rewrite::Keep);
    }
}
