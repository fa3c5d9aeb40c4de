//! The closed status-code vocabulary: each status carries a fixed
//! numeric code and canonical reason phrase, and lookup by code returns
//! nothing for an unrecognised code rather than fabricating a phrase.

use vstd::prelude::*;

verus! {

/// The response status codes the engine can emit.
#[derive(Debug, Clone, Copy, PartialEq, Eq, Structural)]
pub enum HttpStatus {
    OK,
    Created,
    NoContent,
    MovedPermanently,
    Found,
    NotModified,
    BadRequest,
    Unauthorized,
    Forbidden,
    NotFound,
    MethodNotAllowed,
    PayloadTooLarge,
    RequestUriTooLong,
    InternalServerError,
    NotImplemented,
    BadGateway,
    ServiceUnavailable,
    HttpVersionNotSupported,
}

impl HttpStatus {
    /// The numeric code of this status.
    pub open spec fn spec_code(self) -> u16 {
        match self {
            HttpStatus::OK => 200,
            HttpStatus::Created => 201,
            HttpStatus::NoContent => 204,
            HttpStatus::MovedPermanently => 301,
            HttpStatus::Found => 302,
            HttpStatus::NotModified => 304,
            HttpStatus::BadRequest => 400,
            HttpStatus::Unauthorized => 401,
            HttpStatus::Forbidden => 403,
            HttpStatus::NotFound => 404,
            HttpStatus::MethodNotAllowed => 405,
            HttpStatus::PayloadTooLarge => 413,
            HttpStatus::RequestUriTooLong => 414,
            HttpStatus::InternalServerError => 500,
            HttpStatus::NotImplemented => 501,
            HttpStatus::BadGateway => 502,
            HttpStatus::ServiceUnavailable => 503,
            HttpStatus::HttpVersionNotSupported => 505,
        }
    }

    /// The canonical reason phrase of this status.
    pub open spec fn spec_reason(self) -> Seq<char> {
        match self {
            HttpStatus::OK => "OK"@,
            HttpStatus::Created => "Created"@,
            HttpStatus::NoContent => "No Content"@,
            HttpStatus::MovedPermanently => "Moved Permanently"@,
            HttpStatus::Found => "Found"@,
            HttpStatus::NotModified => "Not Modified"@,
            HttpStatus::BadRequest => "Bad Request"@,
            HttpStatus::Unauthorized => "Unauthorized"@,
            HttpStatus::Forbidden => "Forbidden"@,
            HttpStatus::NotFound => "Not Found"@,
            HttpStatus::MethodNotAllowed => "Method Not Allowed"@,
            HttpStatus::PayloadTooLarge => "Payload Too Large"@,
            HttpStatus::RequestUriTooLong => "Request URI Too Long"@,
            HttpStatus::InternalServerError => "Internal Server Error"@,
            HttpStatus::NotImplemented => "Not Implemented"@,
            HttpStatus::BadGateway => "Bad Gateway"@,
            HttpStatus::ServiceUnavailable => "Service Unavailable"@,
            HttpStatus::HttpVersionNotSupported => "HTTP Version Not Supported"@,
        }
    }

    /// The status a numeric code names, if any.
    pub open spec fn spec_from_code(code: u16) -> Option<HttpStatus> {
        if code == 200 {
            Some(HttpStatus::OK)
        } else if code == 201 {
            Some(HttpStatus::Created)
        } else if code == 204 {
            Some(HttpStatus::NoContent)
        } else if code == 301 {
            Some(HttpStatus::MovedPermanently)
        } else if code == 302 {
            Some(HttpStatus::Found)
        } else if code == 304 {
            Some(HttpStatus::NotModified)
        } else if code == 400 {
            Some(HttpStatus::BadRequest)
        } else if code == 401 {
            Some(HttpStatus::Unauthorized)
        } else if code == 403 {
            Some(HttpStatus::Forbidden)
        } else if code == 404 {
            Some(HttpStatus::NotFound)
        } else if code == 405 {
            Some(HttpStatus::MethodNotAllowed)
        } else if code == 413 {
            Some(HttpStatus::PayloadTooLarge)
        } else if code == 414 {
            Some(HttpStatus::RequestUriTooLong)
        } else if code == 500 {
            Some(HttpStatus::InternalServerError)
        } else if code == 501 {
            Some(HttpStatus::NotImplemented)
        } else if code == 502 {
            Some(HttpStatus::BadGateway)
        } else if code == 503 {
            Some(HttpStatus::ServiceUnavailable)
        } else if code == 505 {
            Some(HttpStatus::HttpVersionNotSupported)
        } else {
            None
        }
    }

    /// The numeric code of this status.
    pub fn code(&self) -> (r: u16)
        ensures
            r == self.spec_code(),
    {
        match self {
            HttpStatus::OK => 200,
            HttpStatus::Created => 201,
            HttpStatus::NoContent => 204,
            HttpStatus::MovedPermanently => 301,
            HttpStatus::Found => 302,
            HttpStatus::NotModified => 304,
            HttpStatus::BadRequest => 400,
            HttpStatus::Unauthorized => 401,
            HttpStatus::Forbidden => 403,
            HttpStatus::NotFound => 404,
            HttpStatus::MethodNotAllowed => 405,
            HttpStatus::PayloadTooLarge => 413,
            HttpStatus::RequestUriTooLong => 414,
            HttpStatus::InternalServerError => 500,
            HttpStatus::NotImplemented => 501,
            HttpStatus::BadGateway => 502,
            HttpStatus::ServiceUnavailable => 503,
            HttpStatus::HttpVersionNotSupported => 505,
        }
    }

    /// The canonical reason phrase of this status.
    pub fn reason_phrase(&self) -> (r: &'static str)
        ensures
            r@ == self.spec_reason(),
    {
        match self {
            HttpStatus::OK => "OK",
            HttpStatus::Created => "Created",
            HttpStatus::NoContent => "No Content",
            HttpStatus::MovedPermanently => "Moved Permanently",
            HttpStatus::Found => "Found",
            HttpStatus::NotModified => "Not Modified",
            HttpStatus::BadRequest => "Bad Request",
            HttpStatus::Unauthorized => "Unauthorized",
            HttpStatus::Forbidden => "Forbidden",
            HttpStatus::NotFound => "Not Found",
            HttpStatus::MethodNotAllowed => "Method Not Allowed",
            HttpStatus::PayloadTooLarge => "Payload Too Large",
            HttpStatus::RequestUriTooLong => "Request URI Too Long",
            HttpStatus::InternalServerError => "Internal Server Error",
            HttpStatus::NotImplemented => "Not Implemented",
            HttpStatus::BadGateway => "Bad Gateway",
            HttpStatus::ServiceUnavailable => "Service Unavailable",
            HttpStatus::HttpVersionNotSupported => "HTTP Version Not Supported",
        }
    }

    /// Computes [`HttpStatus::spec_from_code`]: the status with the given
    /// code, or nothing for an unrecognised code.
    pub fn from_code(code: u16) -> (r: Option<HttpStatus>)
        ensures
            r == HttpStatus::spec_from_code(code),
    {
        if code == 200 {
            Some(HttpStatus::OK)
        } else if code == 201 {
            Some(HttpStatus::Created)
        } else if code == 204 {
            Some(HttpStatus::NoContent)
        } else if code == 301 {
            Some(HttpStatus::MovedPermanently)
        } else if code == 302 {
            Some(HttpStatus::Found)
        } else if code == 304 {
            Some(HttpStatus::NotModified)
        } else if code == 400 {
            Some(HttpStatus::BadRequest)
        } else if code == 401 {
            Some(HttpStatus::Unauthorized)
        } else if code == 403 {
            Some(HttpStatus::Forbidden)
        } else if code == 404 {
            Some(HttpStatus::NotFound)
        } else if code == 405 {
            Some(HttpStatus::MethodNotAllowed)
        } else if code == 413 {
            Some(HttpStatus::PayloadTooLarge)
        } else if code == 414 {
            Some(HttpStatus::RequestUriTooLong)
        } else if code == 500 {
            Some(HttpStatus::InternalServerError)
        } else if code == 501 {
            Some(HttpStatus::NotImplemented)
        } else if code == 502 {
            Some(HttpStatus::BadGateway)
        } else if code == 503 {
            Some(HttpStatus::ServiceUnavailable)
        } else if code == 505 {
            Some(HttpStatus::HttpVersionNotSupported)
        } else {
            None
        }
    }
}

} // verus!
