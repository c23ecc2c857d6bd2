//! WebTransport sessions over QUIC.
//!
//! - [`ez`] is QUIC: the state that a connection shares with its streams, the ranking of
//!   streams by priority, and the passes of a driver over the transport.
//! - [`session`] is WebTransport on top of it: the headers of streams and datagrams, and
//!   how sessions end.
//! - [`browser`] is WebTransport where the browser is the transport.
//! - [`traits`] is what all of them look like from outside.
//!
//! Nothing here performs I/O. Where a transport has to be asked something, a function says
//! what to ask, and another is told what came back.

pub mod any;
pub mod browser;
pub mod ez;
pub mod payload;
pub mod proto;
pub mod session;
pub mod text;
pub mod traits;
pub mod waiters;

pub use quinn;

pub use crate::ez::client::{QlogCompression, Settings};
pub use crate::traits::poll::{
    RecvStream as PollRecvStream, SendStream as PollSendStream, Session as PollSession,
};
