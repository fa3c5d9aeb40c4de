use orion::http::util::errors::HttpParseError;
use orion::http::util::parser::{parse_host_and_port, parse_http_request};
use orion::http::{HttpMethod, HttpVersion};

#[test]
fn parses_request_line_and_headers_exactly() {
    let raw = "GET /index.html?q=1 HTTP/1.1\r\nHost: example.com:8080\r\nAccept: */*\r\n\r\n";
    let req = parse_http_request(raw).unwrap();
    assert_eq!(req.method, HttpMethod::GET);
    assert_eq!(req.path, "/index.html?q=1");
    assert_eq!(req.version, HttpVersion::HTTP1_1);
    assert_eq!(req.headers.get("Host").unwrap().as_str(), "example.com:8080");
    assert_eq!(req.headers.get("accept").unwrap().as_str(), "*/*");
    assert_eq!(req.origin, ("example.com".to_string(), 8080));
    assert_eq!(req.body, Some(Vec::new()));
}

#[test]
fn body_is_taken_verbatim() {
    let raw = "POST /submit HTTP/1.1\r\nHost: h\r\n\r\n{\"k\":1}";
    let req = parse_http_request(raw).unwrap();
    assert_eq!(req.method, HttpMethod::POST);
    assert_eq!(req.body, Some(b"{\"k\":1}".to_vec()));
}

#[test]
fn missing_separator_is_malformed() {
    let raw = "GET / HTTP/1.1\r\nHost: h\r\n";
    match parse_http_request(raw) {
        Err(HttpParseError::MalformedRequest(d)) => assert_eq!(d, "No headers found"),
        other => panic!("expected a malformed-request error, got {:?}", other),
    }
}

#[test]
fn empty_input_is_malformed_not_empty_request() {
    match parse_http_request("") {
        Err(HttpParseError::MalformedRequest(d)) => assert_eq!(d, "No headers found"),
        other => panic!("expected a malformed-request error, got {:?}", other),
    }
}

#[test]
fn missing_method_is_named() {
    match parse_http_request(" \r\n\r\n") {
        Err(HttpParseError::MalformedRequest(d)) => assert_eq!(d, "Missing HTTP method"),
        other => panic!("expected a malformed-request error, got {:?}", other),
    }
}

#[test]
fn missing_path_is_named() {
    match parse_http_request("GET\r\n\r\n") {
        Err(HttpParseError::MalformedRequest(d)) => assert_eq!(d, "Missing Path"),
        other => panic!("expected a malformed-request error, got {:?}", other),
    }
}

#[test]
fn missing_version_is_named() {
    match parse_http_request("GET /\r\n\r\n") {
        Err(HttpParseError::MalformedRequest(d)) => assert_eq!(d, "Missing HTTP version"),
        other => panic!("expected a malformed-request error, got {:?}", other),
    }
}

#[test]
fn unknown_method_token_is_carried() {
    match parse_http_request("BREW /pot HTTP/1.1\r\n\r\n") {
        Err(HttpParseError::UnsupportedMethod(t)) => assert_eq!(t, "BREW"),
        other => panic!("expected an unsupported-method error, got {:?}", other),
    }
}

#[test]
fn method_matching_is_case_sensitive() {
    match parse_http_request("get / HTTP/1.1\r\n\r\n") {
        Err(HttpParseError::UnsupportedMethod(t)) => assert_eq!(t, "get"),
        other => panic!("expected an unsupported-method error, got {:?}", other),
    }
}

#[test]
fn unknown_version_token_is_carried() {
    match parse_http_request("GET / HTTP/9\r\n\r\n") {
        Err(HttpParseError::UnsupportedHttpVersion(t)) => assert_eq!(t, "HTTP/9"),
        other => panic!("expected an unsupported-version error, got {:?}", other),
    }
}

#[test]
fn version_alias_http2_is_accepted_by_the_parser() {
    let req = parse_http_request("GET / HTTP/2\r\nHost: h\r\n\r\n").unwrap();
    assert_eq!(req.version, HttpVersion::HTTP2_0);
}

#[test]
fn header_line_without_colon_is_named() {
    match parse_http_request("GET / HTTP/1.1\r\nbroken line\r\nHost: h\r\n\r\n") {
        Err(HttpParseError::MalformedRequest(d)) => {
            assert_eq!(d, "Invalid header line: broken line")
        },
        other => panic!("expected a malformed-request error, got {:?}", other),
    }
}

#[test]
fn header_names_fold_to_lowercase_and_values_trim() {
    let raw = "GET / HTTP/1.1\r\nHOST:   spaced.example   \r\n\r\n";
    let req = parse_http_request(raw).unwrap();
    assert_eq!(req.headers.get("host").unwrap().as_str(), "spaced.example");
    assert_eq!(req.origin.0, "spaced.example");
}

#[test]
fn absent_host_defaults_origin() {
    let req = parse_http_request("GET / HTTP/1.1\r\n\r\n").unwrap();
    assert_eq!(req.origin, ("127.0.0.1".to_string(), 80));
}

#[test]
fn duplicate_header_last_write_wins() {
    let raw = "GET / HTTP/1.1\r\nX-A: 1\r\nx-a: 2\r\n\r\n";
    let req = parse_http_request(raw).unwrap();
    assert_eq!(req.headers.get("x-a").unwrap().as_str(), "2");
    assert_eq!(req.headers.iter().len(), 1);
}

#[test]
fn host_with_port_parses() {
    assert_eq!(parse_host_and_port("example.com:8081"), ("example.com".to_string(), 8081));
}

#[test]
fn host_without_port_defaults_to_80() {
    assert_eq!(parse_host_and_port("example.com"), ("example.com".to_string(), 80));
}

#[test]
fn bracketed_ipv6_host_keeps_brackets() {
    assert_eq!(parse_host_and_port("[::1]:8080"), ("[::1]".to_string(), 8080));
    assert_eq!(parse_host_and_port("[::1]"), ("[::1]".to_string(), 80));
}

#[test]
fn malformed_port_defaults_to_80() {
    assert_eq!(parse_host_and_port("example.com:abc"), ("example.com".to_string(), 80));
    assert_eq!(parse_host_and_port("example.com:99999"), ("example.com".to_string(), 80));
}

#[test]
fn parse_error_messages_render() {
    assert_eq!(
        HttpParseError::EmptyRequest.message(),
        "HTTP request cannot be empty"
    );
    assert_eq!(
        HttpParseError::MalformedRequest("No headers found".to_string()).message(),
        "Malformed HTTP request No headers found"
    );
    assert_eq!(
        HttpParseError::UnsupportedMethod("BREW".to_string()).message(),
        "Unsupported HTTP method: BREW"
    );
    assert_eq!(
        HttpParseError::UnsupportedHttpVersion("HTTP/9".to_string()).message(),
        "Unsupported HTTP version: HTTP/9"
    );
}
