//! Errors of WebTransport operations.

use vstd::prelude::*;

use crate::traits::util::{MaybeSend, MaybeSync};

verus! {

/// Error trait for WebTransport operations.
pub trait Error: MaybeSend + MaybeSync {
    /// Returns the error code and reason if this was an application error.
    ///
    /// Reasons are bytes on the wire, but are converted to a `String` for convenience.
    fn session_error(&self) -> Option<(u32, String)>;

    /// Returns the error code if this was a stream error.
    fn stream_error(&self) -> (code: Option<u32>)
        default_ensures
            code is None,
    {
        None
    }
}

} // verus!
