//! Utilities of the message engine: URL codec, query-string splitting,
//! request parsing, request validation, response builders, resource
//! limits and the parse-error taxonomy.

pub mod builder;
pub mod constants;
pub mod errors;
pub mod parser;
pub mod query_params;
pub mod url_lib;
pub mod validator;

pub use parser::parse_http_request;
pub use parser::parse_host_and_port;
pub use builder::create_error_response;
pub use builder::create_success_response;
pub use builder::create_html_response;
pub use builder::create_json_response;
pub use query_params::extract_query_params;
pub use validator::verify_http_request;
pub use url_lib::url_decode;
pub use url_lib::url_encode;
pub use errors::HttpParseError;
pub use constants::HttpLimits;
