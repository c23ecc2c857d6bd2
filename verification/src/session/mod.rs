//! WebTransport sessions, which are layered on top of QUIC connections:
//!
//! - each stream starts with a few bytes identifying its type and its session;
//! - each datagram starts with the session;
//! - error codes share their space with HTTP/3, so they are shifted into it.

pub mod accept;
pub mod close;
pub mod headers;
pub mod open;
pub mod protocol;
pub mod server;
