use orion::http::util::parser::parse_http_request;
use orion::http::util::validator::verify_http_request;
use orion::http::{HttpHeaders, HttpMethod, HttpRequest, HttpVersion};

fn valid_request() -> HttpRequest {
    HttpRequest {
        method: HttpMethod::GET,
        path: "/index".to_string(),
        version: HttpVersion::HTTP1_1,
        headers: {
            let mut h = HttpHeaders::new();
            h.insert("Host".to_string(), "example.com".to_string());
            h
        },
        origin: ("example.com".to_string(), 80),
        body: None,
    }
}

#[test]
fn valid_request_is_accepted() {
    assert!(verify_http_request(&valid_request()).is_ok());
}

#[test]
fn parsed_valid_request_is_accepted() {
    let req = parse_http_request("GET / HTTP/1.1\r\nHost: h\r\n\r\n").unwrap();
    assert!(verify_http_request(&req).is_ok());
}

#[test]
fn empty_path_is_rejected_with_400() {
    let mut req = valid_request();
    req.path = "".to_string();
    let resp = verify_http_request(&req).unwrap_err();
    assert_eq!(resp.status_code(), 400);
    assert_eq!(resp.body_as_string().unwrap(), "Path cannot be empty");
}

#[test]
fn query_only_path_is_rejected_with_400() {
    let mut req = valid_request();
    req.path = "?x=1".to_string();
    let resp = verify_http_request(&req).unwrap_err();
    assert_eq!(resp.status_code(), 400);
}

#[test]
fn overlong_path_is_rejected_with_414() {
    let mut req = valid_request();
    req.path = format!("/{}", "a".repeat(2048));
    let resp = verify_http_request(&req).unwrap_err();
    assert_eq!(resp.status_code(), 414);
    assert_eq!(
        resp.body_as_string().unwrap(),
        "Path exceeds maximum length of 2048 characters"
    );
}

#[test]
fn path_of_exactly_the_url_limit_passes_that_check() {
    let mut req = valid_request();
    req.path = format!("/{}", "a".repeat(2047));
    assert!(verify_http_request(&req).is_ok());
}

#[test]
fn query_string_does_not_count_toward_path_length() {
    let mut req = valid_request();
    req.path = format!("/a?{}", "x".repeat(4000));
    assert!(verify_http_request(&req).is_ok());
}

#[test]
fn too_many_query_params_rejected_with_400() {
    let mut req = valid_request();
    let mut path = "/s?".to_string();
    for i in 0..101 {
        if i > 0 {
            path.push('&');
        }
        path.push_str(&format!("k{}=v", i));
    }
    req.path = path;
    let resp = verify_http_request(&req).unwrap_err();
    assert_eq!(resp.status_code(), 400);
    assert_eq!(resp.body_as_string().unwrap(), "Too many query parameters, maximum is 100");
}

#[test]
fn a_hundred_query_params_pass() {
    let mut req = valid_request();
    let mut path = "/s?".to_string();
    for i in 0..100 {
        if i > 0 {
            path.push('&');
        }
        path.push_str(&format!("k{}=v", i));
    }
    req.path = path;
    assert!(verify_http_request(&req).is_ok());
}

#[test]
fn http_1_0_is_rejected_with_505() {
    let mut req = valid_request();
    req.version = HttpVersion::HTTP1_0;
    let resp = verify_http_request(&req).unwrap_err();
    assert_eq!(resp.status_code(), 505);
    assert_eq!(resp.body_as_string().unwrap(), "HTTP version (HTTP/1.0) is not supported");
}

#[test]
fn http_2_0_is_rejected_with_505() {
    let mut req = valid_request();
    req.version = HttpVersion::HTTP2_0;
    let resp = verify_http_request(&req).unwrap_err();
    assert_eq!(resp.status_code(), 505);
}

#[test]
fn a_hundred_and_one_headers_rejected_with_400() {
    let mut req = valid_request();
    for i in 0..100 {
        req.headers.insert(format!("x-h{}", i), "v".to_string());
    }
    assert_eq!(req.headers.iter().len(), 101);
    let resp = verify_http_request(&req).unwrap_err();
    assert_eq!(resp.status_code(), 400);
    assert_eq!(resp.body_as_string().unwrap(), "Too many headers, maximum is 100");
}

#[test]
fn exactly_a_hundred_headers_pass() {
    let mut req = valid_request();
    for i in 0..99 {
        req.headers.insert(format!("x-h{}", i), "v".to_string());
    }
    assert_eq!(req.headers.iter().len(), 100);
    assert!(verify_http_request(&req).is_ok());
}

#[test]
fn overlong_header_name_rejected_with_400() {
    let mut req = valid_request();
    let name = "x".repeat(65);
    req.headers.insert(name.clone(), "v".to_string());
    let resp = verify_http_request(&req).unwrap_err();
    assert_eq!(resp.status_code(), 400);
    assert_eq!(
        resp.body_as_string().unwrap(),
        format!("Header name '{}' exceeds maximum length of 64", name)
    );
}

#[test]
fn overlong_header_value_rejected_with_400() {
    let mut req = valid_request();
    req.headers.insert("x-big".to_string(), "v".repeat(8193));
    let resp = verify_http_request(&req).unwrap_err();
    assert_eq!(resp.status_code(), 400);
    assert_eq!(
        resp.body_as_string().unwrap(),
        "Header value for 'x-big' exceeds maximum length of 8192"
    );
}

#[test]
fn header_lengths_at_the_limits_pass() {
    let mut req = valid_request();
    req.headers.insert("x".repeat(64), "v".repeat(8192));
    assert!(verify_http_request(&req).is_ok());
}

#[test]
fn missing_host_rejected_with_400() {
    let mut req = valid_request();
    req.headers = HttpHeaders::new();
    req.headers.insert("Accept".to_string(), "*/*".to_string());
    let resp = verify_http_request(&req).unwrap_err();
    assert_eq!(resp.status_code(), 400);
    assert_eq!(resp.body_as_string().unwrap(), "Host header is required");
}

#[test]
fn oversized_body_rejected_with_413() {
    let mut req = valid_request();
    req.body = Some(vec![0u8; 10485761]);
    let resp = verify_http_request(&req).unwrap_err();
    assert_eq!(resp.status_code(), 413);
    assert_eq!(
        resp.body_as_string().unwrap(),
        "Request body exceeds maximum size of 10485760 bytes"
    );
}

#[test]
fn body_of_exactly_the_limit_passes() {
    let mut req = valid_request();
    req.body = Some(vec![0u8; 10485760]);
    assert!(verify_http_request(&req).is_ok());
}

#[test]
fn absent_body_passes() {
    let mut req = valid_request();
    req.body = None;
    assert!(verify_http_request(&req).is_ok());
}
