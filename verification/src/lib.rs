//! HTTP/1.1 message engine for a minimal reverse proxy.
//!
//! The crate turns a raw text buffer into a structured request, enforces
//! protocol and resource-limit policy on it, and assembles well-formed
//! responses from status codes and bodies.  Every function is verified:
//! its behaviour is stated in `requires`/`ensures` contracts over
//! mathematical models of the data (sequences of characters and bytes).

pub mod enums;
pub mod http;
pub mod http_utility;
pub mod text;
