//! The structured request: method, raw path (query string included),
//! version, headers, origin derived from the Host header, and an
//! optional body of bytes.

use vstd::prelude::*;
use vstd::string::StringExecFns;
use vstd::utf8::{valid_utf8, decode_utf8};
use crate::http::enums::{HttpMethod, HttpVersion};
use crate::http::headers::{HttpHeaders, spec_insert};
use crate::text::chars::chars_to_string;
use crate::text::numbers::{usize_to_string, dec_str};
use crate::text::utf8::{utf8_is_valid, utf8_lossy_vec, lemma_utf8_lossy_valid};

verus! {

/// The mathematical shape of a request.
#[verifier::ext_equal]
pub struct ReqView {
    pub method: HttpMethod,
    pub path: Seq<char>,
    pub version: HttpVersion,
    pub headers: Seq<(Seq<char>, Seq<char>)>,
    pub origin_host: Seq<char>,
    pub origin_port: u16,
    pub body: Option<Seq<u8>>,
}

/// A parsed HTTP request.
#[derive(Debug)]
pub struct HttpRequest {
    pub method: HttpMethod,
    pub path: String,
    pub version: HttpVersion,
    pub headers: HttpHeaders,
    pub origin: (String, u16),
    pub body: Option<Vec<u8>>,
}

impl View for HttpRequest {
    type V = ReqView;

    open spec fn view(&self) -> ReqView {
        ReqView {
            method: self.method,
            path: self.path@,
            version: self.version,
            headers: self.headers@,
            origin_host: self.origin.0@,
            origin_port: self.origin.1,
            body: match self.body {
                Some(b) => Some(b@),
                None => None,
            },
        }
    }
}

impl Clone for HttpRequest {
    /// An independent request with the same fields.
    fn clone(&self) -> (r: HttpRequest)
        ensures
            r@ == self@,
    {
        let body = match &self.body {
            Some(b) => Some(clone_bytes(b)),
            None => None,
        };
        let r = HttpRequest {
            method: self.method,
            path: self.path.clone(),
            version: self.version,
            headers: self.headers.clone(),
            origin: (self.origin.0.clone(), self.origin.1),
            body,
        };
        proof {
            assert(r@ =~= self@);
        }
        r
    }
}

/// An independent copy of a byte vector.
fn clone_bytes(v: &Vec<u8>) -> (r: Vec<u8>)
    ensures
        r@ == v@,
{
    let mut r: Vec<u8> = Vec::new();
    let mut i: usize = 0;
    while i < v.len()
        invariant
            i <= v@.len(),
            r@ == v@.subrange(0, i as int),
        decreases v@.len() - i,
    {
        r.push(v[i]);
        i = i + 1;
        assert(r@ =~= v@.subrange(0, i as int));
    }
    assert(r@ =~= v@);
    r
}

impl HttpRequest {
    /// A request of the given method and path, with version HTTP/1.1, no
    /// headers, the default origin and no body.
    pub fn new(method: HttpMethod, path: String) -> (r: HttpRequest)
        ensures
            r@.method == method,
            r@.path == path@,
            r@.version == HttpVersion::HTTP1_1,
            r@.headers == Seq::<(Seq<char>, Seq<char>)>::empty(),
            r@.origin_host == "localhost"@,
            r@.origin_port == 80,
            r@.body is None,
            r.headers.wf(),
    {
        HttpRequest {
            method,
            path,
            version: HttpVersion::HTTP1_1,
            headers: HttpHeaders::new(),
            origin: (String::from_str("localhost"), 80),
            body: None,
        }
    }

    /// The request with one more header inserted; everything else kept.
    pub fn with_header(self, key: String, value: String) -> (r: HttpRequest)
        requires
            self.headers.wf(),
        ensures
            r@.headers == spec_insert(self@.headers, key@, value@),
            r@.method == self@.method && r@.path == self@.path && r@.version == self@.version,
            r@.origin_host == self@.origin_host && r@.origin_port == self@.origin_port,
            r@.body == self@.body,
            r.headers.wf(),
    {
        let mut r = self;
        r.headers.insert(key, value);
        r
    }

    /// The request with the given body, and a Content-Length header
    /// computed from that body's length; everything else kept.
    pub fn with_body(self, body: Vec<u8>) -> (r: HttpRequest)
        requires
            self.headers.wf(),
        ensures
            r@.headers == spec_insert(self@.headers, "Content-Length"@, dec_str(body@.len())),
            r@.body == Some(body@),
            r@.method == self@.method && r@.path == self@.path && r@.version == self@.version,
            r@.origin_host == self@.origin_host && r@.origin_port == self@.origin_port,
            r.headers.wf(),
    {
        let mut r = self;
        let len_text = usize_to_string(body.len());
        r.headers.insert(String::from_str("Content-Length"), len_text);
        r.body = Some(body);
        r
    }

    /// The body read as UTF-8 text: present exactly when there is a body
    /// and its bytes are valid UTF-8.
    pub fn body_as_string(&self) -> (r: Option<String>)
        ensures
            r is Some <==> (self@.body is Some && valid_utf8(self@.body->0)),
            r is Some ==> r->0@ == decode_utf8(self@.body->0),
    {
        match &self.body {
            None => None,
            Some(b) => {
                if utf8_is_valid(b) {
                    proof {
                        lemma_utf8_lossy_valid(b@);
                    }
                    let chars = utf8_lossy_vec(b);
                    Some(chars_to_string(&chars))
                } else {
                    None
                }
            },
        }
    }
}

} // verus!
