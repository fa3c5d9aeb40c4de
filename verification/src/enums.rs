//! A self-contained request/response pair kept beside the main engine:
//! requests and responses over plain strings, with header lists instead
//! of a folded map.  [`crate::http_utility`] parses and validates these.

use vstd::prelude::*;
use vstd::string::StringExecFns;
use vstd::utf8::encode_utf8;
use crate::text::chars::pairs_view;
use crate::text::numbers::{usize_to_string, dec_str};

verus! {

/// The mathematical shape of a plain-string request.
#[verifier::ext_equal]
pub struct RequestView {
    pub method: Seq<char>,
    pub path: Seq<char>,
    pub version: Seq<char>,
    pub headers: Seq<(Seq<char>, Seq<char>)>,
    pub origin_host: Seq<char>,
    pub origin_port: u16,
}

/// A request whose method, path and version are plain strings and whose
/// headers are the list of pairs read from the input, in order.
#[derive(Debug)]
pub struct HttpRequest {
    pub method: String,
    pub path: String,
    pub version: String,
    pub headers: Vec<(String, String)>,
    pub origin: (String, u16),
}

impl View for HttpRequest {
    type V = RequestView;

    open spec fn view(&self) -> RequestView {
        RequestView {
            method: self.method@,
            path: self.path@,
            version: self.version@,
            headers: pairs_view(self.headers@),
            origin_host: self.origin.0@,
            origin_port: self.origin.1,
        }
    }
}

/// One rendered header line per pair, in order.
pub open spec fn render_pairs(hs: Seq<(Seq<char>, Seq<char>)>) -> Seq<char>
    decreases hs.len(),
{
    if hs.len() == 0 {
        Seq::<char>::empty()
    } else {
        render_pairs(hs.drop_last()) + hs.last().0 + ": "@ + hs.last().1 + "\r\n"@
    }
}

/// The wire text of a plain-string request: its request line, every
/// header as `name: value`, then a blank line.
pub open spec fn spec_request_text(rv: RequestView) -> Seq<char> {
    rv.method + " "@ + rv.path + " "@ + rv.version + "\r\n"@ + render_pairs(rv.headers) + "\r\n"@
}

impl HttpRequest {
    /// Renders the request to its wire text, [`spec_request_text`]
    /// exactly.
    pub fn to_string(&self) -> (out: String)
        ensures
            out@ == spec_request_text(self@),
    {
        let mut out = String::new();
        out.append(self.method.as_str());
        out.append(" ");
        out.append(self.path.as_str());
        out.append(" ");
        out.append(self.version.as_str());
        out.append("\r\n");
        let ghost hs = pairs_view(self.headers@);
        let ghost pre = out@;
        let mut i: usize = 0;
        proof {
            assert(hs.subrange(0, 0) =~= Seq::<(Seq<char>, Seq<char>)>::empty());
        }
        while i < self.headers.len()
            invariant
                i <= self.headers@.len(),
                hs == pairs_view(self.headers@),
                hs.len() == self.headers@.len(),
                out@ == pre + render_pairs(hs.subrange(0, i as int)),
            decreases self.headers@.len() - i,
        {
            out.append(self.headers[i].0.as_str());
            out.append(": ");
            out.append(self.headers[i].1.as_str());
            out.append("\r\n");
            i = i + 1;
            proof {
                let sub = hs.subrange(0, i as int);
                assert(sub.drop_last() =~= hs.subrange(0, i - 1));
                assert(sub.last() == hs[i - 1]);
                assert(hs[i - 1].0 == self.headers@[i - 1].0@ && hs[i - 1].1 == self.headers@[
                    i - 1].1@);
                assert(out@ =~= pre + render_pairs(sub));
            }
        }
        proof {
            assert(hs.subrange(0, hs.len() as int) =~= hs);
        }
        out.append("\r\n");
        proof {
            assert(out@ =~= spec_request_text(self@));
        }
        out
    }
}

/// The mathematical shape of a plain-string response.
#[verifier::ext_equal]
pub struct ResponseView {
    pub status_code: u16,
    pub reason_phrase: Seq<char>,
    pub headers: Seq<(Seq<char>, Seq<char>)>,
    pub body: Seq<char>,
}

/// A response whose status is a bare code and whose body is a string.
#[derive(Debug)]
pub struct HttpResponse {
    pub status_code: u16,
    pub reason_phrase: String,
    pub headers: Vec<(String, String)>,
    pub body: String,
}

impl View for HttpResponse {
    type V = ResponseView;

    open spec fn view(&self) -> ResponseView {
        ResponseView {
            status_code: self.status_code,
            reason_phrase: self.reason_phrase@,
            headers: pairs_view(self.headers@),
            body: self.body@,
        }
    }
}

/// The reason phrase [`HttpResponse::new`] stores for a code: the
/// canonical phrase for the codes it knows, `Unknown` for the rest.
pub open spec fn spec_reason_of(code: u16) -> Seq<char> {
    if code == 200 {
        "OK"@
    } else if code == 400 {
        "Bad Request"@
    } else if code == 405 {
        "Method Not Allowed"@
    } else if code == 505 {
        "HTTP Version Not Supported"@
    } else if code == 500 {
        "Internal Server Error"@
    } else {
        "Unknown"@
    }
}

/// The shape of a response built by [`HttpResponse::new`]: the looked-up
/// reason phrase, and default headers with a Content-Length computed
/// from the body's byte length.
pub open spec fn new_response_view(code: u16, body: Seq<char>) -> ResponseView {
    ResponseView {
        status_code: code,
        reason_phrase: spec_reason_of(code),
        headers: seq![
            ("Content-Type"@, "text/plain"@),
            ("Server"@, "Orion/1.0"@),
            ("Content-Length"@, dec_str(encode_utf8(body).len())),
        ],
        body,
    }
}

impl HttpResponse {
    /// A plain-text response with the given code and body,
    /// [`new_response_view`] exactly.
    pub fn new(status_code: u16, body: String) -> (r: HttpResponse)
        ensures
            r@ =~= new_response_view(status_code, body@),
    {
        let reason = if status_code == 200 {
            String::from_str("OK")
        } else if status_code == 400 {
            String::from_str("Bad Request")
        } else if status_code == 405 {
            String::from_str("Method Not Allowed")
        } else if status_code == 505 {
            String::from_str("HTTP Version Not Supported")
        } else if status_code == 500 {
            String::from_str("Internal Server Error")
        } else {
            String::from_str("Unknown")
        };
        let mut headers: Vec<(String, String)> = Vec::new();
        let pair_ct = (String::from_str("Content-Type"), String::from_str("text/plain"));
        headers.push(pair_ct);
        let pair_server = (String::from_str("Server"), String::from_str("Orion/1.0"));
        headers.push(pair_server);
        let body_len = body.as_str().as_bytes_vec().len();
        let pair_cl = (String::from_str("Content-Length"), usize_to_string(body_len));
        headers.push(pair_cl);
        let r = HttpResponse { status_code, reason_phrase: reason, headers, body };
        proof {
            assert(r@.headers =~= new_response_view(status_code, r.body@).headers);
        }
        r
    }

    /// The response with one more header appended at the end.
    pub fn with_header(self, key: String, value: String) -> (r: HttpResponse)
        ensures
            r@.headers == self@.headers.push((key@, value@)),
            r@.status_code == self@.status_code,
            r@.reason_phrase == self@.reason_phrase,
            r@.body == self@.body,
    {
        let ghost orig = self@;
        let ghost kv = (key@, value@);
        let mut r = self;
        let pair = (key, value);
        r.headers.push(pair);
        proof {
            assert(r@.headers =~= orig.headers.push(kv));
        }
        r
    }

    /// The wire text of the response: its status line with the stored
    /// reason phrase, every header, a blank line, then the body.
    pub fn render(&self) -> (out: String)
        ensures
            out@ == "HTTP/1.1 "@ + dec_str(self@.status_code as nat) + " "@ + self@.reason_phrase
                + "\r\n"@ + render_pairs(self@.headers) + "\r\n"@ + self@.body,
    {
        let mut out = String::from_str("HTTP/1.1 ");
        let code_text = usize_to_string(self.status_code as usize);
        out.append(code_text.as_str());
        out.append(" ");
        out.append(self.reason_phrase.as_str());
        out.append("\r\n");
        let ghost hs = pairs_view(self.headers@);
        let ghost pre = out@;
        let mut i: usize = 0;
        proof {
            assert(hs.subrange(0, 0) =~= Seq::<(Seq<char>, Seq<char>)>::empty());
        }
        while i < self.headers.len()
            invariant
                i <= self.headers@.len(),
                hs == pairs_view(self.headers@),
                hs.len() == self.headers@.len(),
                out@ == pre + render_pairs(hs.subrange(0, i as int)),
            decreases self.headers@.len() - i,
        {
            out.append(self.headers[i].0.as_str());
            out.append(": ");
            out.append(self.headers[i].1.as_str());
            out.append("\r\n");
            i = i + 1;
            proof {
                let sub = hs.subrange(0, i as int);
                assert(sub.drop_last() =~= hs.subrange(0, i - 1));
                assert(sub.last() == hs[i - 1]);
                assert(hs[i - 1].0 == self.headers@[i - 1].0@ && hs[i - 1].1 == self.headers@[
                    i - 1].1@);
                assert(out@ =~= pre + render_pairs(sub));
            }
        }
        proof {
            assert(hs.subrange(0, hs.len() as int) =~= hs);
        }
        out.append("\r\n");
        out.append(self.body.as_str());
        out
    }
}

} // verus!
