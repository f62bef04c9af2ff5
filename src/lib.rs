//! A small HTTP/1.1 server engine: request framing and parsing, an exact-path router,
//! a response writer with its wire form, and the per-connection lifecycle.
pub mod net;
pub mod routs;
