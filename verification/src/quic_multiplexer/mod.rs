//! QUIC connections over one UDP socket, and the HTTP/3 streams on each of them.

pub mod batch;
pub mod body_read;
pub mod events;
pub mod multiplexer;
pub mod packets;
pub mod request;
pub mod socket;
pub mod streams;
pub mod tls;
pub mod udp;
