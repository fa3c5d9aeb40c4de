//! The closed vocabularies of the engine: methods, versions and status
//! codes, each a sum type with exhaustive text and code conversions.

pub mod method;
pub mod status;
pub mod version;

pub use method::HttpMethod;
pub use status::HttpStatus;
pub use version::HttpVersion;
