use orion::http::{HttpMethod, HttpRequest, HttpVersion};

#[test]
fn new_request_has_the_documented_defaults() {
    let req = HttpRequest::new(HttpMethod::GET, "/home".to_string());
    assert_eq!(req.method, HttpMethod::GET);
    assert_eq!(req.path, "/home");
    assert_eq!(req.version, HttpVersion::HTTP1_1);
    assert_eq!(req.headers.iter().len(), 0);
    assert_eq!(req.origin, ("localhost".to_string(), 80));
    assert!(req.body.is_none());
}

#[test]
fn builder_style_header_addition() {
    let req = HttpRequest::new(HttpMethod::GET, "/".to_string())
        .with_header("Host".to_string(), "example.com".to_string());
    assert_eq!(req.headers.get("host").unwrap().as_str(), "example.com");
}

#[test]
fn with_body_sets_content_length() {
    let req = HttpRequest::new(HttpMethod::POST, "/".to_string()).with_body(b"abcde".to_vec());
    assert_eq!(req.headers.get("content-length").unwrap().as_str(), "5");
    assert_eq!(req.body, Some(b"abcde".to_vec()));
}

#[test]
fn request_body_as_string_requires_valid_utf8() {
    let ok = HttpRequest::new(HttpMethod::POST, "/".to_string()).with_body(b"text".to_vec());
    assert_eq!(ok.body_as_string().unwrap(), "text");
    let none = HttpRequest::new(HttpMethod::POST, "/".to_string());
    assert!(none.body_as_string().is_none());
    let bad = HttpRequest::new(HttpMethod::POST, "/".to_string()).with_body(vec![0xc3, 0x28]);
    assert!(bad.body_as_string().is_none());
}

#[test]
fn clone_keeps_every_field() {
    let req = HttpRequest::new(HttpMethod::PUT, "/x".to_string())
        .with_header("Host".to_string(), "h".to_string())
        .with_body(b"12".to_vec());
    let copy = req.clone();
    assert_eq!(copy.method, HttpMethod::PUT);
    assert_eq!(copy.path, "/x");
    assert_eq!(copy.headers.get("host").unwrap().as_str(), "h");
    assert_eq!(copy.body, Some(b"12".to_vec()));
}
