//! An HTTP/1.x client engine: what a request is on the wire, which
//! transport a configuration calls for and how it is established, and what
//! a response is when it comes back. Sockets and TLS are left to the caller:
//! the library decides, the caller performs.

pub mod text;
pub mod method;
pub mod version;
pub mod status;
pub mod error;
pub mod headers;
pub mod payload;
pub mod credentials;
pub mod endpoint;
pub mod request;
pub mod lines;
pub mod chunked;
pub mod parse;
pub mod round_trip;
pub mod response;
pub mod transport;
pub mod socks;
pub mod establish;
pub mod client;
pub mod client_builder;
pub mod record;
