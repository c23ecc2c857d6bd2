//! QUIC connections and streams: the state that a connection shares with its streams,
//! and what a driver of the transport does with it.
//!
//! Nothing here touches a socket or the transport itself. Where the transport has to be
//! asked something, the state says what to ask, and is told what came back.

pub mod client;
pub mod connection;
pub mod driver;
pub mod pass;
pub mod priority;
pub mod send;
pub mod socket;
pub mod stream;
pub mod tls;
