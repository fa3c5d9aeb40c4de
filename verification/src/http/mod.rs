//! The HTTP/1.1 message engine: vocabularies, header container, request
//! and response types, and the parser, validator and response builders.

pub mod enums;
pub mod headers;
pub mod request;
pub mod response;
pub mod util;

pub use enums::HttpMethod;
pub use enums::HttpVersion;
pub use enums::HttpStatus;
pub use headers::HttpHeaders;
pub use request::HttpRequest;
pub use response::HttpResponse;
pub use util::parse_http_request;
pub use util::verify_http_request;
pub use util::url_decode;
pub use util::url_encode;
pub use util::HttpParseError;
pub use util::HttpLimits;
