use orion::enums::{HttpRequest, HttpResponse};
use orion::http_utility;

fn simple_request() -> HttpRequest {
    HttpRequest {
        method: "GET".to_string(),
        path: "/".to_string(),
        version: "HTTP/1.1".to_string(),
        headers: vec![("host".to_string(), "example.com".to_string())],
        origin: ("example.com".to_string(), 80),
    }
}

#[test]
fn simple_parse_reads_the_first_three_tokens() {
    let req = http_utility::parse_http_request(
        "GET /index HTTP/1.1\r\nHost: example.com:8081\r\n\r\n",
    )
    .unwrap();
    assert_eq!(req.method, "GET");
    assert_eq!(req.path, "/index");
    assert_eq!(req.version, "HTTP/1.1");
    assert_eq!(req.origin, ("example.com".to_string(), 8081));
}

#[test]
fn simple_parse_needs_three_tokens() {
    assert!(http_utility::parse_http_request("GET /index\r\n").is_none());
    assert!(http_utility::parse_http_request("").is_none());
}

#[test]
fn simple_parse_skips_lines_without_colons() {
    let req = http_utility::parse_http_request(
        "GET / HTTP/1.1\r\nnot a header\r\nAccept: */*\r\n\r\n",
    )
    .unwrap();
    assert_eq!(req.headers, vec![("accept".to_string(), "*/*".to_string())]);
}

#[test]
fn simple_parse_defaults_the_origin() {
    let req = http_utility::parse_http_request("GET / HTTP/1.1\r\n\r\n").unwrap();
    assert_eq!(req.origin, ("127.0.0.1".to_string(), 80));
}

#[test]
fn simple_verify_accepts_a_valid_request() {
    assert!(http_utility::verify_http_request(&simple_request()).is_ok());
}

#[test]
fn simple_verify_rejects_empty_fields_with_400() {
    let mut req = simple_request();
    req.path = "".to_string();
    let resp = http_utility::verify_http_request(&req).unwrap_err();
    assert_eq!(resp.status_code, 400);
    assert_eq!(resp.body, "Malformed Request");
}

#[test]
fn simple_verify_rejects_unknown_methods_with_405() {
    let mut req = simple_request();
    req.method = "BREW".to_string();
    let resp = http_utility::verify_http_request(&req).unwrap_err();
    assert_eq!(resp.status_code, 405);
    assert_eq!(resp.body, "Method Not Allowed (BREW)");
    assert_eq!(resp.reason_phrase, "Method Not Allowed");
}

#[test]
fn simple_verify_rejects_other_versions_with_505() {
    let mut req = simple_request();
    req.version = "HTTP/1.0".to_string();
    let resp = http_utility::verify_http_request(&req).unwrap_err();
    assert_eq!(resp.status_code, 505);
    assert_eq!(resp.body, "Version Not Supported (HTTP/1.0)");
}

#[test]
fn simple_verify_requires_a_host_header() {
    let mut req = simple_request();
    req.headers = vec![("accept".to_string(), "*/*".to_string())];
    let resp = http_utility::verify_http_request(&req).unwrap_err();
    assert_eq!(resp.status_code, 400);
    assert_eq!(resp.body, "Bad Request: Missing Host Header");
}

#[test]
fn simple_request_renders_its_wire_text() {
    let req = simple_request();
    assert_eq!(req.to_string(), "GET / HTTP/1.1\r\nhost: example.com\r\n\r\n");
}

#[test]
fn simple_response_fills_reason_and_length() {
    let resp = HttpResponse::new(200, "okay".to_string());
    assert_eq!(resp.status_code, 200);
    assert_eq!(resp.reason_phrase, "OK");
    assert_eq!(
        resp.headers,
        vec![
            ("Content-Type".to_string(), "text/plain".to_string()),
            ("Server".to_string(), "Orion/1.0".to_string()),
            ("Content-Length".to_string(), "4".to_string()),
        ]
    );
    assert_eq!(resp.body, "okay");
}

#[test]
fn simple_response_unknown_code_gets_unknown_reason() {
    let resp = HttpResponse::new(418, "teapot".to_string());
    assert_eq!(resp.reason_phrase, "Unknown");
}

#[test]
fn simple_response_with_header_appends() {
    let resp = HttpResponse::new(200, "".to_string())
        .with_header("X-Forwarded-For".to_string(), "127.0.0.1:8081".to_string());
    assert_eq!(
        resp.headers.last().unwrap(),
        &("X-Forwarded-For".to_string(), "127.0.0.1:8081".to_string())
    );
}

#[test]
fn simple_response_renders_status_line_headers_and_body() {
    let resp = HttpResponse::new(400, "no".to_string());
    assert_eq!(
        resp.render(),
        "HTTP/1.1 400 Bad Request\r\nContent-Type: text/plain\r\nServer: Orion/1.0\r\nContent-Length: 2\r\n\r\nno"
    );
}
