//! HTTP-style request/response messaging over local IPC endpoints
//! (Unix domain sockets and Windows named pipes).
//!
//! This crate holds the protocol logic: request framing, response parsing,
//! routing, URL decoding, endpoint validation, buffer pooling and server
//! bookkeeping. Every function is verified against its contract.

pub mod errors;
pub mod text;

pub mod numbers;
pub mod utf8;
pub mod json;
pub mod url;
pub mod headers;
pub mod wire;
pub mod http_types;
pub mod request;
pub mod response;
pub mod router;
pub mod server;
pub mod buffer_pool;
pub mod transport;
pub mod client;
pub mod client_reader;
pub mod ipc_client;
pub mod stream;
pub mod round_trip;
pub mod types;
