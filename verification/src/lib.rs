//! A minimal HTTP/1.1 client core: URI parsing and address resolution,
//! request-line and header wire serialization, and an incremental parser
//! for the response status line, header block and body.
//!
//! The transport itself (dialing, blocking reads and writes) lives with
//! the caller: this crate computes the exact bytes to send and decodes
//! the bytes that arrived.

pub mod client;
pub mod headers;
pub mod method;
pub mod protocol;
pub mod request;
pub mod response;
pub mod status_code;
pub mod stream_buffer;
pub mod text;
pub mod uri;
pub mod utils;

pub use client::{HttpClient, HttpError};
pub use headers::HttpHeaders;
pub use method::HttpMethod;
pub use protocol::Protocol;
pub use request::HttpRequest;
pub use response::{HttpResponse, ResponseError};
pub use status_code::StatusCode;
pub use stream_buffer::StreamBuffer;
pub use text::{parse_u16, parse_usize};
pub use uri::{Uri, UriError};
