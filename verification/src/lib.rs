//! A minimal verified HTTP/1.1 origin-server core.
//!
//! The crate owns the request-routing and response-serialization logic of a
//! tiny single-threaded server: a route table mapping exact path strings to
//! response bodies, a parser that extracts the request path from an HTTP
//! request line, and serializers that produce the byte-exact `200 OK` and
//! `404 NOT FOUND` replies.  All of it is specified and verified; the
//! surrounding socket and file I/O lives outside the library and hands it
//! plain strings.

pub mod decimal;
pub mod error;
pub mod parse;
pub mod response;
pub mod router;
