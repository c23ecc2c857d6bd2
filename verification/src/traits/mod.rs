//! What a WebTransport session and its streams are expected to do, whichever transport
//! is underneath.

pub mod error;
pub mod poll;
pub mod stats;
pub mod util;
