use orion::http::util::builder::{
    create_error_response, create_html_response, create_json_response, create_success_response,
};
use orion::http::{HttpResponse, HttpStatus};

#[test]
fn text_response_sets_default_headers() {
    let r = HttpResponse::text(HttpStatus::OK, "hi".to_string());
    assert_eq!(r.status_code(), 200);
    assert_eq!(r.headers.get("Content-Type").unwrap().as_str(), "text/plain; charset=utf-8");
    assert_eq!(r.headers.get("Content-Length").unwrap().as_str(), "2");
    assert_eq!(r.headers.get("Server").unwrap().as_str(), "Orion/1.0");
    assert_eq!(r.body, b"hi".to_vec());
}

#[test]
fn html_response_sets_html_content_type() {
    let r = HttpResponse::html(HttpStatus::NotFound, "<p>gone</p>".to_string());
    assert_eq!(r.status_code(), 404);
    assert_eq!(r.headers.get("content-type").unwrap().as_str(), "text/html; charset=utf-8");
}

#[test]
fn json_response_sets_json_content_type() {
    let r = HttpResponse::json(HttpStatus::Created, "{\"id\":7}".to_string());
    assert_eq!(r.status_code(), 201);
    assert_eq!(r.headers.get("content-type").unwrap().as_str(), "application/json");
    assert_eq!(r.headers.get("content-length").unwrap().as_str(), "8");
}

#[test]
fn content_length_counts_utf8_bytes() {
    let r = HttpResponse::text(HttpStatus::OK, "\u{e9}".to_string());
    assert_eq!(r.headers.get("content-length").unwrap().as_str(), "2");
}

#[test]
fn with_header_appends_and_overwrites() {
    let r = HttpResponse::text(HttpStatus::OK, "x".to_string())
        .with_header("X-Extra".to_string(), "1".to_string())
        .with_header("x-extra".to_string(), "2".to_string());
    assert_eq!(r.headers.get("x-extra").unwrap().as_str(), "2");
}

#[test]
fn response_body_as_string_requires_valid_utf8() {
    let r = HttpResponse::text(HttpStatus::OK, "ok".to_string());
    assert_eq!(r.body_as_string().unwrap(), "ok");
    let mut binary = HttpResponse::text(HttpStatus::OK, "".to_string());
    binary.body = vec![0xff, 0xfe];
    assert!(binary.body_as_string().is_none());
}

#[test]
fn render_emits_the_exact_wire_form() {
    let r = HttpResponse::text(HttpStatus::OK, "hi".to_string());
    assert_eq!(
        r.render(),
        "HTTP/1.1 200 OK\r\ncontent-type: text/plain; charset=utf-8\r\ncontent-length: 2\r\nserver: Orion/1.0\r\n\r\nhi"
    );
}

#[test]
fn render_shows_a_placeholder_for_binary_bodies() {
    let mut r = HttpResponse::text(HttpStatus::OK, "".to_string());
    r.body = vec![0xff, 0x00, 0x01];
    let text = r.render();
    assert!(text.ends_with("\r\n\r\n[Binary data: 3 bytes]"));
}

#[test]
fn error_response_closes_the_connection() {
    let r = create_error_response(HttpStatus::BadGateway, "upstream failed".to_string());
    assert_eq!(r.status_code(), 502);
    assert_eq!(r.headers.get("connection").unwrap().as_str(), "close");
    assert_eq!(r.body_as_string().unwrap(), "upstream failed");
}

#[test]
fn success_response_keeps_the_connection_alive() {
    let r = create_success_response("done".to_string());
    assert_eq!(r.status_code(), 200);
    assert_eq!(r.headers.get("connection").unwrap().as_str(), "keep-alive");
    assert_eq!(r.headers.get("content-type").unwrap().as_str(), "text/plain; charset=utf-8");
}

#[test]
fn html_and_json_builders_fix_status_200() {
    let h = create_html_response("<b>ok</b>".to_string());
    assert_eq!(h.status_code(), 200);
    assert_eq!(h.headers.get("content-type").unwrap().as_str(), "text/html; charset=utf-8");
    assert_eq!(h.headers.get("connection").unwrap().as_str(), "keep-alive");
    let j = create_json_response("[]".to_string());
    assert_eq!(j.status_code(), 200);
    assert_eq!(j.headers.get("content-type").unwrap().as_str(), "application/json");
}
