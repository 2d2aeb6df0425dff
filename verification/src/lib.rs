//! A minimal HTTP/1.1 protocol core: request parsing, a response model with
//! exact wire-format serialization, and method/path routing to a small set of
//! handlers. The byte-oriented edges (sockets, file loading, JSON data) are
//! collaborators that hand plain values in and take plain values out.

pub mod common;
pub mod handler;
pub mod http_request;
pub mod http_response;
pub mod router;
pub mod server;
pub mod strmap;
pub mod text;
