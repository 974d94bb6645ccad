//! Core of an XRPC personal-data-server front end: byte-exact validators for
//! the protocol's identifier formats (DIDs, handles, `at://` URIs), the
//! protocol error envelope, and the request-routing and extraction decisions.

pub mod at_identifier;
pub mod at_uri;
pub mod bytes;
pub mod did;
pub mod error;
pub mod handle;
pub mod query;
pub mod router;
