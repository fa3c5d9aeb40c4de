//! The parse-error taxonomy.  Parse errors are structural and terminal:
//! the byte stream is not a well-formed HTTP message, so no structured
//! request exists.  They are kept apart from validation errors, which
//! carry a ready-to-send response instead.

use vstd::prelude::*;
use vstd::string::StringExecFns;

verus! {

/// Why a parse attempt failed.
#[derive(Debug, Clone)]
pub enum HttpParseError {
    /// The input held no request line at all.
    EmptyRequest,
    /// The input is not a well-formed message; the detail names what is
    /// missing or which line is broken.
    MalformedRequest(String),
    /// The request-line method token is outside the method vocabulary.
    UnsupportedMethod(String),
    /// The request-line version token is outside the version vocabulary.
    UnsupportedHttpVersion(String),
}

/// The mathematical shape of a parse error: the same four cases over
/// character sequences.
pub enum ParseErrView {
    EmptyRequest,
    MalformedRequest(Seq<char>),
    UnsupportedMethod(Seq<char>),
    UnsupportedHttpVersion(Seq<char>),
}

impl View for HttpParseError {
    type V = ParseErrView;

    open spec fn view(&self) -> ParseErrView {
        match self {
            HttpParseError::EmptyRequest => ParseErrView::EmptyRequest,
            HttpParseError::MalformedRequest(d) => ParseErrView::MalformedRequest(d@),
            HttpParseError::UnsupportedMethod(t) => ParseErrView::UnsupportedMethod(t@),
            HttpParseError::UnsupportedHttpVersion(t) => ParseErrView::UnsupportedHttpVersion(t@),
        }
    }
}

impl HttpParseError {
    /// The text of the error, one line.
    pub fn message(&self) -> (r: String)
        ensures
            r@ == match self@ {
                ParseErrView::EmptyRequest => "HTTP request cannot be empty"@,
                ParseErrView::MalformedRequest(d) => "Malformed HTTP request "@ + d,
                ParseErrView::UnsupportedMethod(t) => "Unsupported HTTP method: "@ + t,
                ParseErrView::UnsupportedHttpVersion(t) => "Unsupported HTTP version: "@ + t,
            },
    {
        match self {
            HttpParseError::EmptyRequest => String::from_str("HTTP request cannot be empty"),
            HttpParseError::MalformedRequest(d) => String::from_str(
                "Malformed HTTP request ").concat(d.as_str()),
            HttpParseError::UnsupportedMethod(t) => String::from_str(
                "Unsupported HTTP method: ").concat(t.as_str()),
            HttpParseError::UnsupportedHttpVersion(t) => String::from_str(
                "Unsupported HTTP version: ").concat(t.as_str()),
        }
    }
}

} // verus!
