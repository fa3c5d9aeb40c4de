//! The request validator: resource-limit and protocol policy on a parsed
//! request.  Every failure is a ready-to-send plain-text response with
//! the right status; checks run in a fixed order and the first failure
//! wins.  [`spec_verify`] is the exact model.

use vstd::prelude::*;
use vstd::string::StringExecFns;
use vstd::string::StringSliceAdditionalSpecFns;
use vstd::utf8::encode_utf8;
use crate::http::enums::{HttpStatus, HttpVersion};
use crate::http::headers::assoc_find;
use crate::http::request::{HttpRequest, ReqView};
use crate::http::response::{HttpResponse, RespView, text_response_view};
use crate::http::util::constants::HttpLimits;
use crate::http::util::query_params::{extract_query_params, spec_extract_query};
use crate::text::chars::{lower, pairs_view};

verus! {

/// True when a stored header breaks a length limit: its name is over
/// `MAX_HEADER_NAME_LEN` bytes or its value over `MAX_HEADER_VALUE_LEN`.
pub open spec fn header_bad(p: (Seq<char>, Seq<char>)) -> bool {
    ||| encode_utf8(p.0).len() > HttpLimits::MAX_HEADER_NAME_LEN
    ||| encode_utf8(p.1).len() > HttpLimits::MAX_HEADER_VALUE_LEN
}

/// Index of the first header at or after `i` that breaks a length limit;
/// the length when none does.
pub open spec fn first_bad_header(hs: Seq<(Seq<char>, Seq<char>)>, i: int) -> int
    decreases hs.len() - i,
        when 0 <= i <= hs.len()
{
    if i >= hs.len() {
        hs.len() as int
    } else if header_bad(hs[i]) {
        i
    } else {
        first_bad_header(hs, i + 1)
    }
}

/// What [`first_bad_header`] returns.
pub proof fn lemma_first_bad_header(hs: Seq<(Seq<char>, Seq<char>)>, i: int)
    requires
        0 <= i <= hs.len(),
    ensures
        i <= first_bad_header(hs, i) <= hs.len(),
        first_bad_header(hs, i) < hs.len() ==> header_bad(hs[first_bad_header(hs, i)]),
        forall|j: int| i <= j < first_bad_header(hs, i) ==> !header_bad(hs[j]),
    decreases hs.len() - i,
{
    if i < hs.len() && !header_bad(hs[i]) {
        lemma_first_bad_header(hs, i + 1);
    }
}

/// The body of the response rejecting a header: the name message when
/// the name is too long, else the value message, either naming the
/// offending header.
pub open spec fn bad_header_message(p: (Seq<char>, Seq<char>)) -> Seq<char> {
    if encode_utf8(p.0).len() > HttpLimits::MAX_HEADER_NAME_LEN {
        "Header name '"@ + p.0 + "' exceeds maximum length of 64"@
    } else {
        "Header value for '"@ + p.0 + "' exceeds maximum length of 8192"@
    }
}

/// The body of the response rejecting the request's version.
pub open spec fn version_message(v: HttpVersion) -> Seq<char> {
    "HTTP version ("@ + v.spec_text() + ") is not supported"@
}

/// What [`verify_http_request`] returns: acceptance, or the first
/// failing check's response.  In order: the query-stripped path must be
/// non-empty (400) and at most `MAX_URL_LENGTH` bytes (414); at most
/// `MAX_QUERY_PARAMS` query parameters (400); the version must be
/// HTTP/1.1 exactly (505); at most `MAX_HEADERS` headers (400); every
/// header within the name and value length limits (400); a Host header
/// present (400); a body, if any, of at most `MAX_BODY_SIZE` bytes (413).
pub open spec fn spec_verify(req: ReqView) -> Result<(), RespView> {
    let path = spec_extract_query(req.path).0;
    let query = spec_extract_query(req.path).1;
    if path.len() == 0 {
        Err(text_response_view(HttpStatus::BadRequest, "Path cannot be empty"@))
    } else if encode_utf8(path).len() > HttpLimits::MAX_URL_LENGTH {
        Err(
            text_response_view(
                HttpStatus::RequestUriTooLong,
                "Path exceeds maximum length of 2048 characters"@,
            ),
        )
    } else if query.len() > HttpLimits::MAX_QUERY_PARAMS {
        Err(
            text_response_view(
                HttpStatus::BadRequest,
                "Too many query parameters, maximum is 100"@,
            ),
        )
    } else if req.version != HttpVersion::HTTP1_1 {
        Err(text_response_view(HttpStatus::HttpVersionNotSupported, version_message(req.version)))
    } else if req.headers.len() > HttpLimits::MAX_HEADERS {
        Err(text_response_view(HttpStatus::BadRequest, "Too many headers, maximum is 100"@))
    } else if first_bad_header(req.headers, 0) < req.headers.len() {
        Err(
            text_response_view(
                HttpStatus::BadRequest,
                bad_header_message(req.headers[first_bad_header(req.headers, 0)]),
            ),
        )
    } else if assoc_find(req.headers, lower("host"@)) is None {
        Err(text_response_view(HttpStatus::BadRequest, "Host header is required"@))
    } else if req.body matches Some(b) && b.len() > HttpLimits::MAX_BODY_SIZE {
        Err(
            text_response_view(
                HttpStatus::PayloadTooLarge,
                "Request body exceeds maximum size of 10485760 bytes"@,
            ),
        )
    } else {
        Ok(())
    }
}

/// Scans the stored headers in order for the first one over a length
/// limit, and builds its rejection when one exists.
fn check_header_lengths(headers: &crate::http::headers::HttpHeaders) -> (r: Option<HttpResponse>)
    ensures
        match r {
            Some(resp) => first_bad_header(headers@, 0) < headers@.len() && resp@
                == text_response_view(
                HttpStatus::BadRequest,
                bad_header_message(headers@[first_bad_header(headers@, 0)]),
            ),
            None => first_bad_header(headers@, 0) == headers@.len(),
        },
{
    let ghost hs = headers@;
    let entries = headers.iter();
    let mut i: usize = 0;
    while i < entries.len()
        invariant
            i <= entries@.len(),
            entries@.len() == hs.len(),
            hs == headers@,
            forall|j: int| 0 <= j < hs.len() ==> (#[trigger] entries@[j]).0@ == hs[j].0 && entries@[
                j].1@ == hs[j].1,
            first_bad_header(hs, 0) == first_bad_header(hs, i as int),
            forall|j: int| 0 <= j < i ==> !header_bad(hs[j]),
        decreases entries@.len() - i,
    {
        let name_len = entries[i].0.as_str().as_bytes_vec().len();
        let value_len = entries[i].1.as_str().as_bytes_vec().len();
        proof {
            assert(entries@[i as int].0@ == hs[i as int].0);
            assert(entries@[i as int].1@ == hs[i as int].1);
            assert(name_len == encode_utf8(hs[i as int].0).len());
            assert(value_len == encode_utf8(hs[i as int].1).len());
        }
        if name_len > HttpLimits::MAX_HEADER_NAME_LEN {
            proof {
                assert(header_bad(hs[i as int]));
                assert(first_bad_header(hs, i as int) == i);
            }
            let msg = String::from_str("Header name '").concat(entries[i].0.as_str()).concat(
                "' exceeds maximum length of 64",
            );
            return Some(HttpResponse::text(HttpStatus::BadRequest, msg));
        }
        if value_len > HttpLimits::MAX_HEADER_VALUE_LEN {
            proof {
                assert(header_bad(hs[i as int]));
                assert(first_bad_header(hs, i as int) == i);
            }
            let msg = String::from_str("Header value for '").concat(entries[i].0.as_str()).concat(
                "' exceeds maximum length of 8192",
            );
            return Some(HttpResponse::text(HttpStatus::BadRequest, msg));
        }
        proof {
            assert(!header_bad(hs[i as int]));
        }
        i = i + 1;
    }
    None
}

/// Validates a parsed request, [`spec_verify`] exactly.  The request is
/// never changed; a failure carries the complete response to write.
#[verifier::rlimit(100)]
pub fn verify_http_request(req: &HttpRequest) -> (r: Result<(), HttpResponse>)
    ensures
        match r {
            Ok(_) => spec_verify(req@) == Ok::<(), RespView>(()),
            Err(resp) => spec_verify(req@) == Err::<(), RespView>(resp@),
        },
{
    let (path, query) = extract_query_params(req.path.as_str());
    if path.as_str().is_empty() {
        return Err(
            HttpResponse::text(HttpStatus::BadRequest, String::from_str("Path cannot be empty")),
        );
    }
    if path.as_str().as_bytes_vec().len() > HttpLimits::MAX_URL_LENGTH {
        return Err(
            HttpResponse::text(
                HttpStatus::RequestUriTooLong,
                String::from_str("Path exceeds maximum length of 2048 characters"),
            ),
        );
    }
    proof {
        assert(query@.len() == pairs_view(query@).len());
    }
    if query.len() > HttpLimits::MAX_QUERY_PARAMS {
        return Err(
            HttpResponse::text(
                HttpStatus::BadRequest,
                String::from_str("Too many query parameters, maximum is 100"),
            ),
        );
    }
    if req.version != HttpVersion::HTTP1_1 {
        let msg = String::from_str("HTTP version (").concat(req.version.as_str()).concat(
            ") is not supported",
        );
        return Err(HttpResponse::text(HttpStatus::HttpVersionNotSupported, msg));
    }
    if req.headers.len() > HttpLimits::MAX_HEADERS {
        return Err(
            HttpResponse::text(
                HttpStatus::BadRequest,
                String::from_str("Too many headers, maximum is 100"),
            ),
        );
    }
    if let Some(resp) = check_header_lengths(&req.headers) {
        return Err(resp);
    }
    if req.headers.get("host").is_none() {
        return Err(
            HttpResponse::text(
                HttpStatus::BadRequest,
                String::from_str("Host header is required"),
            ),
        );
    }
    if let Some(body) = req.body.as_ref() {
        if body.len() > HttpLimits::MAX_BODY_SIZE {
            return Err(
                HttpResponse::text(
                    HttpStatus::PayloadTooLarge,
                    String::from_str("Request body exceeds maximum size of 10485760 bytes"),
                ),
            );
        }
    }
    Ok(())
}

/// Every request within all the limits is accepted: a non-empty stripped
/// path of at most the URL limit, at most the query-parameter limit, the
/// exact version HTTP/1.1, at most the header-count limit (one hundred
/// headers pass), every header within the name and value limits, a Host
/// header present, and a body, if any, of at most the size limit (a body
/// of exactly that size passes).
pub proof fn lemma_verify_accepts(req: ReqView)
    requires
        spec_extract_query(req.path).0.len() > 0,
        encode_utf8(spec_extract_query(req.path).0).len() <= HttpLimits::MAX_URL_LENGTH,
        spec_extract_query(req.path).1.len() <= HttpLimits::MAX_QUERY_PARAMS,
        req.version == HttpVersion::HTTP1_1,
        req.headers.len() <= HttpLimits::MAX_HEADERS,
        forall|j: int| 0 <= j < req.headers.len() ==> !header_bad(#[trigger] req.headers[j]),
        assoc_find(req.headers, lower("host"@)) is Some,
        req.body matches Some(b) ==> b.len() <= HttpLimits::MAX_BODY_SIZE,
    ensures
        spec_verify(req) == Ok::<(), RespView>(()),
{
    lemma_first_bad_header(req.headers, 0);
}

/// A request with more than the header-count limit, whose earlier checks
/// pass, fails validation with status 400: one hundred and one headers
/// are rejected.
pub proof fn lemma_verify_rejects_excess_headers(req: ReqView)
    requires
        spec_extract_query(req.path).0.len() > 0,
        encode_utf8(spec_extract_query(req.path).0).len() <= HttpLimits::MAX_URL_LENGTH,
        spec_extract_query(req.path).1.len() <= HttpLimits::MAX_QUERY_PARAMS,
        req.version == HttpVersion::HTTP1_1,
        req.headers.len() > HttpLimits::MAX_HEADERS,
    ensures
        spec_verify(req) == Err::<(), RespView>(
            text_response_view(HttpStatus::BadRequest, "Too many headers, maximum is 100"@),
        ),
        spec_verify(req)->Err_0.status == HttpStatus::BadRequest,
{
}

/// A request with version HTTP/1.0, whose path checks pass, fails
/// validation with status 505, whatever else is valid.
pub proof fn lemma_verify_rejects_http_1_0(req: ReqView)
    requires
        spec_extract_query(req.path).0.len() > 0,
        encode_utf8(spec_extract_query(req.path).0).len() <= HttpLimits::MAX_URL_LENGTH,
        spec_extract_query(req.path).1.len() <= HttpLimits::MAX_QUERY_PARAMS,
        req.version == HttpVersion::HTTP1_0,
    ensures
        spec_verify(req) == Err::<(), RespView>(
            text_response_view(
                HttpStatus::HttpVersionNotSupported,
                version_message(HttpVersion::HTTP1_0),
            ),
        ),
        spec_verify(req)->Err_0.status == HttpStatus::HttpVersionNotSupported,
{
}

/// A request without a Host header, whose earlier checks pass, fails
/// validation with status 400, however valid it is otherwise.
pub proof fn lemma_verify_requires_host(req: ReqView)
    requires
        spec_extract_query(req.path).0.len() > 0,
        encode_utf8(spec_extract_query(req.path).0).len() <= HttpLimits::MAX_URL_LENGTH,
        spec_extract_query(req.path).1.len() <= HttpLimits::MAX_QUERY_PARAMS,
        req.version == HttpVersion::HTTP1_1,
        req.headers.len() <= HttpLimits::MAX_HEADERS,
        forall|j: int| 0 <= j < req.headers.len() ==> !header_bad(#[trigger] req.headers[j]),
        assoc_find(req.headers, lower("host"@)) is None,
    ensures
        spec_verify(req) == Err::<(), RespView>(
            text_response_view(HttpStatus::BadRequest, "Host header is required"@),
        ),
        spec_verify(req)->Err_0.status == HttpStatus::BadRequest,
{
    lemma_first_bad_header(req.headers, 0);
}

/// A request whose body is over the size limit, and whose earlier checks
/// pass, fails validation with status 413: one byte over the limit is
/// rejected.
pub proof fn lemma_verify_rejects_oversized_body(req: ReqView)
    requires
        spec_extract_query(req.path).0.len() > 0,
        encode_utf8(spec_extract_query(req.path).0).len() <= HttpLimits::MAX_URL_LENGTH,
        spec_extract_query(req.path).1.len() <= HttpLimits::MAX_QUERY_PARAMS,
        req.version == HttpVersion::HTTP1_1,
        req.headers.len() <= HttpLimits::MAX_HEADERS,
        forall|j: int| 0 <= j < req.headers.len() ==> !header_bad(#[trigger] req.headers[j]),
        assoc_find(req.headers, lower("host"@)) is Some,
        req.body matches Some(b) && b.len() > HttpLimits::MAX_BODY_SIZE,
    ensures
        spec_verify(req) == Err::<(), RespView>(
            text_response_view(
                HttpStatus::PayloadTooLarge,
                "Request body exceeds maximum size of 10485760 bytes"@,
            ),
        ),
        spec_verify(req)->Err_0.status == HttpStatus::PayloadTooLarge,
{
    lemma_first_bad_header(req.headers, 0);
}

} // verus!
