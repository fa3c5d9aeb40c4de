//! The resource limits the validator enforces.  They bound what a single
//! message may consume, whatever else is in flight.

use vstd::prelude::*;

verus! {

/// The fixed resource limits of the engine.
pub struct HttpLimits;

impl HttpLimits {
    /// Most headers a request may carry.
    pub const MAX_HEADERS: usize = 100;

    /// Longest stored header name, in bytes.
    pub const MAX_HEADER_NAME_LEN: usize = 64;

    /// Longest header value, in bytes.
    pub const MAX_HEADER_VALUE_LEN: usize = 8192;

    /// Most query parameters a request path may carry.
    pub const MAX_QUERY_PARAMS: usize = 100;

    /// Longest query-stripped path, in bytes.
    pub const MAX_URL_LENGTH: usize = 2048;

    /// Largest request body, in bytes.
    pub const MAX_BODY_SIZE: usize = 10485760;
}

} // verus!
