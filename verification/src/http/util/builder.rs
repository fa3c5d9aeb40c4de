//! Convenience response constructors: error responses close the
//! connection, success responses keep it alive.

use vstd::prelude::*;
use vstd::string::StringExecFns;
use vstd::utf8::encode_utf8;
use crate::http::enums::HttpStatus;
use crate::http::headers::lemma_assoc_index;
use crate::http::response::{
    HttpResponse, RespView, response_headers, text_response_view, html_response_view,
    json_response_view,
};
use crate::text::chars::lower;

verus! {

/// The shape of a response built by [`create_error_response`]: a
/// plain-text response with `Connection: close` appended.
pub open spec fn error_response_view(status: HttpStatus, message: Seq<char>) -> RespView {
    RespView {
        status,
        headers: text_response_view(status, message).headers.push(
            (lower("Connection"@), "close"@)),
        body: encode_utf8(message),
    }
}

/// The shape of a keep-alive response with the given Content-Type.
pub open spec fn keep_alive_view(ctype: Seq<char>, body: Seq<char>) -> RespView {
    RespView {
        status: HttpStatus::OK,
        headers: response_headers(ctype, encode_utf8(body).len()).push(
            (lower("Connection"@), "keep-alive"@)),
        body: encode_utf8(body),
    }
}

/// A ready-to-send error response: plain text with the given status and
/// message, `Connection: close`.
pub fn create_error_response(status: HttpStatus, message: String) -> (r: HttpResponse)
    ensures
        r@ =~= error_response_view(status, message@),
        r.headers.wf(),
{
    let ghost msg = message@;
    let base = HttpResponse::text(status, message);
    let r = base.with_header(String::from_str("Connection"), String::from_str("close"));
    proof {
        crate::http::response::lemma_default_header_names();
        lemma_assoc_index(base@.headers, lower("Connection"@));
        assert(r@.headers =~= error_response_view(status, msg).headers);
    }
    r
}

/// A plain-text success response with status 200, `Connection:
/// keep-alive`.
pub fn create_success_response(body: String) -> (r: HttpResponse)
    ensures
        r@ =~= keep_alive_view("text/plain; charset=utf-8"@, body@),
        r.headers.wf(),
{
    let ghost msg = body@;
    let base = HttpResponse::text(HttpStatus::OK, body);
    let r = base.with_header(String::from_str("Connection"), String::from_str("keep-alive"));
    proof {
        crate::http::response::lemma_default_header_names();
        lemma_assoc_index(base@.headers, lower("Connection"@));
        assert(r@.headers =~= keep_alive_view("text/plain; charset=utf-8"@, msg).headers);
    }
    r
}

/// An HTML success response with status 200, `Connection: keep-alive`.
pub fn create_html_response(html: String) -> (r: HttpResponse)
    ensures
        r@ =~= keep_alive_view("text/html; charset=utf-8"@, html@),
        r.headers.wf(),
{
    let ghost msg = html@;
    let base = HttpResponse::html(HttpStatus::OK, html);
    let r = base.with_header(String::from_str("Connection"), String::from_str("keep-alive"));
    proof {
        crate::http::response::lemma_default_header_names();
        lemma_assoc_index(base@.headers, lower("Connection"@));
        assert(r@.headers =~= keep_alive_view("text/html; charset=utf-8"@, msg).headers);
    }
    r
}

/// A JSON success response with status 200, `Connection: keep-alive`.
pub fn create_json_response(json: String) -> (r: HttpResponse)
    ensures
        r@ =~= keep_alive_view("application/json"@, json@),
        r.headers.wf(),
{
    let ghost msg = json@;
    let base = HttpResponse::json(HttpStatus::OK, json);
    let r = base.with_header(String::from_str("Connection"), String::from_str("keep-alive"));
    proof {
        crate::http::response::lemma_default_header_names();
        lemma_assoc_index(base@.headers, lower("Connection"@));
        assert(r@.headers =~= keep_alive_view("application/json"@, msg).headers);
    }
    r
}

} // verus!
