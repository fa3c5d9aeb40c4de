//! The closed HTTP method vocabulary.  Any token outside it fails
//! parsing; comparison is case-sensitive against these exact tokens.

use vstd::prelude::*;
use crate::text::chars::chars_eq_str;

verus! {

/// The request methods the engine accepts.
#[derive(Debug, Clone, Copy, PartialEq, Eq, Structural)]
pub enum HttpMethod {
    GET,
    POST,
    PUT,
    DELETE,
    HEAD,
    OPTIONS,
}

impl HttpMethod {
    /// The request-line token of this method.
    pub open spec fn spec_token(self) -> Seq<char> {
        match self {
            HttpMethod::GET => "GET"@,
            HttpMethod::POST => "POST"@,
            HttpMethod::PUT => "PUT"@,
            HttpMethod::DELETE => "DELETE"@,
            HttpMethod::HEAD => "HEAD"@,
            HttpMethod::OPTIONS => "OPTIONS"@,
        }
    }

    /// The method a request-line token names, if any.
    pub open spec fn spec_from_token(s: Seq<char>) -> Option<HttpMethod> {
        if s == "GET"@ {
            Some(HttpMethod::GET)
        } else if s == "POST"@ {
            Some(HttpMethod::POST)
        } else if s == "PUT"@ {
            Some(HttpMethod::PUT)
        } else if s == "DELETE"@ {
            Some(HttpMethod::DELETE)
        } else if s == "HEAD"@ {
            Some(HttpMethod::HEAD)
        } else if s == "OPTIONS"@ {
            Some(HttpMethod::OPTIONS)
        } else {
            None
        }
    }

    /// The token of this method, as text.
    pub fn as_str(&self) -> (r: &'static str)
        ensures
            r@ == self.spec_token(),
    {
        match self {
            HttpMethod::GET => "GET",
            HttpMethod::POST => "POST",
            HttpMethod::PUT => "PUT",
            HttpMethod::DELETE => "DELETE",
            HttpMethod::HEAD => "HEAD",
            HttpMethod::OPTIONS => "OPTIONS",
        }
    }

    /// Computes [`HttpMethod::spec_from_token`] on the characters of `v`.
    pub fn from_chars(v: &Vec<char>) -> (r: Option<HttpMethod>)
        ensures
            r == HttpMethod::spec_from_token(v@),
    {
        if chars_eq_str(v, "GET") {
            Some(HttpMethod::GET)
        } else if chars_eq_str(v, "POST") {
            Some(HttpMethod::POST)
        } else if chars_eq_str(v, "PUT") {
            Some(HttpMethod::PUT)
        } else if chars_eq_str(v, "DELETE") {
            Some(HttpMethod::DELETE)
        } else if chars_eq_str(v, "HEAD") {
            Some(HttpMethod::HEAD)
        } else if chars_eq_str(v, "OPTIONS") {
            Some(HttpMethod::OPTIONS)
        } else {
            None
        }
    }
}

} // verus!
