//! Sessions in the browser.
//!
//! Every WebTransport operation in the browser is a promise, which delivers its result
//! exactly once to whoever is subscribed at the time, and cannot be cancelled. What is
//! waited for therefore has to outlive the poll that started it, and the handle too.

pub mod datagram;
pub mod error;
pub mod incoming;
pub mod recv;
pub mod send;
