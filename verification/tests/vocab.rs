use orion::http::HttpStatus;
use orion::text::chars::chars_of;
use orion::http::{HttpMethod, HttpVersion};

#[test]
fn from_code_200_is_the_ok_status() {
    let status = HttpStatus::from_code(200).unwrap();
    assert_eq!(status, HttpStatus::OK);
    assert_eq!(status.reason_phrase(), "OK");
}

#[test]
fn from_code_unknown_is_absent() {
    assert!(HttpStatus::from_code(999).is_none());
    assert!(HttpStatus::from_code(0).is_none());
    assert!(HttpStatus::from_code(404 + 1000).is_none());
}

#[test]
fn every_code_round_trips_through_from_code() {
    let all = [
        HttpStatus::OK,
        HttpStatus::Created,
        HttpStatus::NoContent,
        HttpStatus::MovedPermanently,
        HttpStatus::Found,
        HttpStatus::NotModified,
        HttpStatus::BadRequest,
        HttpStatus::Unauthorized,
        HttpStatus::Forbidden,
        HttpStatus::NotFound,
        HttpStatus::MethodNotAllowed,
        HttpStatus::PayloadTooLarge,
        HttpStatus::RequestUriTooLong,
        HttpStatus::InternalServerError,
        HttpStatus::NotImplemented,
        HttpStatus::BadGateway,
        HttpStatus::ServiceUnavailable,
        HttpStatus::HttpVersionNotSupported,
    ];
    for status in all {
        assert_eq!(HttpStatus::from_code(status.code()), Some(status));
    }
}

#[test]
fn status_codes_and_phrases_are_canonical() {
    assert_eq!(HttpStatus::PayloadTooLarge.code(), 413);
    assert_eq!(HttpStatus::RequestUriTooLong.code(), 414);
    assert_eq!(HttpStatus::HttpVersionNotSupported.code(), 505);
    assert_eq!(HttpStatus::HttpVersionNotSupported.reason_phrase(), "HTTP Version Not Supported");
    assert_eq!(HttpStatus::BadGateway.reason_phrase(), "Bad Gateway");
}

#[test]
fn method_tokens_convert_both_ways() {
    let cases = [
        (HttpMethod::GET, "GET"),
        (HttpMethod::POST, "POST"),
        (HttpMethod::PUT, "PUT"),
        (HttpMethod::DELETE, "DELETE"),
        (HttpMethod::HEAD, "HEAD"),
        (HttpMethod::OPTIONS, "OPTIONS"),
    ];
    for (method, token) in cases {
        assert_eq!(method.as_str(), token);
        assert_eq!(HttpMethod::from_chars(&chars_of(token)), Some(method));
    }
    assert_eq!(HttpMethod::from_chars(&chars_of("PATCH")), None);
}

#[test]
fn version_tokens_convert_both_ways() {
    assert_eq!(HttpVersion::from_chars(&chars_of("HTTP/1.0")), Some(HttpVersion::HTTP1_0));
    assert_eq!(HttpVersion::from_chars(&chars_of("HTTP/1.1")), Some(HttpVersion::HTTP1_1));
    assert_eq!(HttpVersion::from_chars(&chars_of("HTTP/2.0")), Some(HttpVersion::HTTP2_0));
    assert_eq!(HttpVersion::from_chars(&chars_of("HTTP/2")), Some(HttpVersion::HTTP2_0));
    assert_eq!(HttpVersion::from_chars(&chars_of("HTTP/3")), None);
    assert_eq!(HttpVersion::HTTP1_1.as_str(), "HTTP/1.1");
}
