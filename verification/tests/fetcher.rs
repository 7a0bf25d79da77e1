use eplayer::error::CaptionError;
use eplayer::fetch::{payload_of_response, Response, FETCH_TIMEOUT_SECS};

fn answered(status: u16, body: &str) -> Response {
    Response::Answered { status, body: body.to_string() }
}

#[test]
fn a_fetch_may_take_two_minutes() {
    assert_eq!(FETCH_TIMEOUT_SECS, 120);
}

#[test]
fn success_hands_over_the_body() {
    assert_eq!(payload_of_response(answered(200, "{\"events\":[]}")), Ok("{\"events\":[]}".to_string()));
    assert_eq!(payload_of_response(answered(204, "")), Ok(String::new()));
    assert_eq!(payload_of_response(answered(299, "x")), Ok("x".to_string()));
}

#[test]
fn other_statuses_are_http_errors() {
    for status in [0, 100, 199, 300, 301, 404, 429, 500, 503, u16::MAX] {
        assert_eq!(
            payload_of_response(answered(status, "body")),
            Err(CaptionError::FetchHttpError),
            "{}",
            status
        );
    }
}

#[test]
fn timeout_is_told_from_a_broken_connection() {
    assert_eq!(payload_of_response(Response::TimedOut), Err(CaptionError::FetchTimeout));
    assert_eq!(payload_of_response(Response::Unreachable), Err(CaptionError::FetchTransportError));
}
