//! The connection layer of a tunnelling server: who may connect, how many sessions a
//! client may hold, and how QUIC connections and HTTP/3 streams are driven.

pub mod ascii;
pub mod authentication;
pub mod buffers;
pub mod connection_limiter;
pub mod credentials;
pub mod failure;
pub mod h3_frame;
pub mod h3_stream_write_policy;
pub mod http_message;
pub mod laws;
pub mod protocol;
pub mod quic_multiplexer;
pub mod quic_token;
pub mod revocation;
pub mod secrets;
pub mod session_history;
pub mod table;
