//! The closed HTTP version vocabulary.  The parser accepts every token
//! in it; which versions the engine serves is the validator's decision.

use vstd::prelude::*;
use crate::text::chars::chars_eq_str;

verus! {

/// The protocol versions the parser recognises.
#[derive(Debug, Clone, Copy, PartialEq, Eq, Structural)]
pub enum HttpVersion {
    HTTP1_0,
    HTTP1_1,
    HTTP2_0,
}

impl HttpVersion {
    /// The canonical text of this version.
    pub open spec fn spec_text(self) -> Seq<char> {
        match self {
            HttpVersion::HTTP1_0 => "HTTP/1.0"@,
            HttpVersion::HTTP1_1 => "HTTP/1.1"@,
            HttpVersion::HTTP2_0 => "HTTP/2.0"@,
        }
    }

    /// The version a request-line token names, if any; `HTTP/2` is an
    /// accepted alias of `HTTP/2.0`.
    pub open spec fn spec_from_token(s: Seq<char>) -> Option<HttpVersion> {
        if s == "HTTP/1.0"@ {
            Some(HttpVersion::HTTP1_0)
        } else if s == "HTTP/1.1"@ {
            Some(HttpVersion::HTTP1_1)
        } else if s == "HTTP/2.0"@ || s == "HTTP/2"@ {
            Some(HttpVersion::HTTP2_0)
        } else {
            None
        }
    }

    /// The canonical text of this version.
    pub fn as_str(&self) -> (r: &'static str)
        ensures
            r@ == self.spec_text(),
    {
        match self {
            HttpVersion::HTTP1_0 => "HTTP/1.0",
            HttpVersion::HTTP1_1 => "HTTP/1.1",
            HttpVersion::HTTP2_0 => "HTTP/2.0",
        }
    }

    /// Computes [`HttpVersion::spec_from_token`] on the characters of `v`.
    pub fn from_chars(v: &Vec<char>) -> (r: Option<HttpVersion>)
        ensures
            r == HttpVersion::spec_from_token(v@),
    {
        if chars_eq_str(v, "HTTP/1.0") {
            Some(HttpVersion::HTTP1_0)
        } else if chars_eq_str(v, "HTTP/1.1") {
            Some(HttpVersion::HTTP1_1)
        } else if chars_eq_str(v, "HTTP/2.0") || chars_eq_str(v, "HTTP/2") {
            Some(HttpVersion::HTTP2_0)
        } else {
            None
        }
    }
}

} // verus!
