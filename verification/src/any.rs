//! A session over either of two transports: QUIC, or a WebSocket where QUIC is not to be
//! had.

use bytes::Bytes;
use std::task::{Context, Poll};
use std::time::Duration;
use vstd::prelude::*;

use crate::traits::error::Error;
use crate::traits::poll::{RecvStream, SendStream, Session};
use crate::traits::stats::Stats;

verus! {

/// A session over either transport.
pub enum WebTransportSessionAny<Q, W> {
    Quinn(Q),
    WebSocket(W),
}

/// An outgoing stream over either transport.
pub enum WebTransportSendStreamAny<Q, W> {
    Quinn(Q),
    WebSocket(W),
}

/// An incoming stream over either transport.
pub enum WebTransportRecvStreamAny<Q, W> {
    Quinn(Q),
    WebSocket(W),
}

/// An error of either transport.
#[derive(Debug)]
pub enum WebTransportErrorAny<Q, W> {
    Quinn(Q),
    WebSocket(W),
}

/// The statistics of either transport.
pub enum WebTransportStatsAny<Q, W> {
    Quinn(Q),
    WebSocket(W),
}

impl<Q, W> WebTransportSessionAny<Q, W> {
    /// The session over QUIC, which this has to be.
    pub fn into_quic(self) -> (session: Q)
        requires
            self is Quinn,
        ensures
            self == WebTransportSessionAny::<Q, W>::Quinn(session),
    {
        match self {
            WebTransportSessionAny::Quinn(session) => session,
            WebTransportSessionAny::WebSocket(_) => vstd::pervasive::unreached(),
        }
    }
}

impl<Q: Error, W: Error> Error for WebTransportErrorAny<Q, W> {
    fn session_error(&self) -> (result: Option<(u32, String)>)
        ensures
            match *self {
                WebTransportErrorAny::Quinn(error) => call_ensures(Q::session_error, (&error,), result),
                WebTransportErrorAny::WebSocket(error) => call_ensures(
                    W::session_error,
                    (&error,),
                    result,
                ),
            },
    {
        match self {
            WebTransportErrorAny::Quinn(error) => error.session_error(),
            WebTransportErrorAny::WebSocket(error) => error.session_error(),
        }
    }

    fn stream_error(&self) -> (result: Option<u32>)
        ensures
            match *self {
                WebTransportErrorAny::Quinn(error) => call_ensures(Q::stream_error, (&error,), result),
                WebTransportErrorAny::WebSocket(error) => call_ensures(W::stream_error, (&error,), result),
            },
    {
        match self {
            WebTransportErrorAny::Quinn(error) => error.stream_error(),
            WebTransportErrorAny::WebSocket(error) => error.stream_error(),
        }
    }
}

/// The outcome of an operation over QUIC, as one over either transport.
pub open spec fn quinn_outcome<T, Q, W>(result: Poll<Result<T, Q>>) -> Poll<
    Result<T, WebTransportErrorAny<Q, W>>,
> {
    match result {
        Poll::Ready(Ok(value)) => Poll::Ready(Ok(value)),
        Poll::Ready(Err(error)) => Poll::Ready(Err(WebTransportErrorAny::Quinn(error))),
        Poll::Pending => Poll::Pending,
    }
}

/// The outcome of an operation over QUIC, as one over either transport.
pub fn quinn_result<T, Q, W>(result: Poll<Result<T, Q>>) -> (any: Poll<
    Result<T, WebTransportErrorAny<Q, W>>,
>)
    ensures
        any == quinn_outcome::<T, Q, W>(result),
{
    match result {
        Poll::Ready(Ok(value)) => Poll::Ready(Ok(value)),
        Poll::Ready(Err(error)) => Poll::Ready(Err(WebTransportErrorAny::Quinn(error))),
        Poll::Pending => Poll::Pending,
    }
}

/// The outcome of an operation over a WebSocket, as one over either transport.
pub open spec fn ws_outcome<T, Q, W>(result: Poll<Result<T, W>>) -> Poll<
    Result<T, WebTransportErrorAny<Q, W>>,
> {
    match result {
        Poll::Ready(Ok(value)) => Poll::Ready(Ok(value)),
        Poll::Ready(Err(error)) => Poll::Ready(Err(WebTransportErrorAny::WebSocket(error))),
        Poll::Pending => Poll::Pending,
    }
}

/// The outcome of an operation over a WebSocket, as one over either transport.
pub fn ws_result<T, Q, W>(result: Poll<Result<T, W>>) -> (any: Poll<
    Result<T, WebTransportErrorAny<Q, W>>,
>)
    ensures
        any == ws_outcome::<T, Q, W>(result),
{
    match result {
        Poll::Ready(Ok(value)) => Poll::Ready(Ok(value)),
        Poll::Ready(Err(error)) => Poll::Ready(Err(WebTransportErrorAny::WebSocket(error))),
        Poll::Pending => Poll::Pending,
    }
}

/// A stream opened over QUIC, as one over either transport.
pub open spec fn quinn_opened<S, V, Q, W>(result: Poll<Result<S, Q>>) -> Poll<
    Result<WebTransportSendStreamAny<S, V>, WebTransportErrorAny<Q, W>>,
> {
    match result {
        Poll::Ready(Ok(stream)) => Poll::Ready(Ok(WebTransportSendStreamAny::Quinn(stream))),
        Poll::Ready(Err(error)) => Poll::Ready(Err(WebTransportErrorAny::Quinn(error))),
        Poll::Pending => Poll::Pending,
    }
}

/// A stream opened over QUIC, as one over either transport.
pub fn quinn_send<S, V, Q, W>(result: Poll<Result<S, Q>>) -> (any: Poll<
    Result<WebTransportSendStreamAny<S, V>, WebTransportErrorAny<Q, W>>,
>)
    ensures
        any == quinn_opened::<S, V, Q, W>(result),
{
    match result {
        Poll::Ready(Ok(stream)) => Poll::Ready(Ok(WebTransportSendStreamAny::Quinn(stream))),
        Poll::Ready(Err(error)) => Poll::Ready(Err(WebTransportErrorAny::Quinn(error))),
        Poll::Pending => Poll::Pending,
    }
}

/// A stream opened over a WebSocket, as one over either transport.
pub open spec fn ws_opened<S, V, Q, W>(result: Poll<Result<V, W>>) -> Poll<
    Result<WebTransportSendStreamAny<S, V>, WebTransportErrorAny<Q, W>>,
> {
    match result {
        Poll::Ready(Ok(stream)) => Poll::Ready(Ok(WebTransportSendStreamAny::WebSocket(stream))),
        Poll::Ready(Err(error)) => Poll::Ready(Err(WebTransportErrorAny::WebSocket(error))),
        Poll::Pending => Poll::Pending,
    }
}

/// A stream opened over a WebSocket, as one over either transport.
pub fn ws_send<S, V, Q, W>(result: Poll<Result<V, W>>) -> (any: Poll<
    Result<WebTransportSendStreamAny<S, V>, WebTransportErrorAny<Q, W>>,
>)
    ensures
        any == ws_opened::<S, V, Q, W>(result),
{
    match result {
        Poll::Ready(Ok(stream)) => Poll::Ready(Ok(WebTransportSendStreamAny::WebSocket(stream))),
        Poll::Ready(Err(error)) => Poll::Ready(Err(WebTransportErrorAny::WebSocket(error))),
        Poll::Pending => Poll::Pending,
    }
}

/// A stream accepted over QUIC, as one over either transport.
pub open spec fn quinn_accepted<R, V, Q, W>(result: Poll<Result<R, Q>>) -> Poll<
    Result<WebTransportRecvStreamAny<R, V>, WebTransportErrorAny<Q, W>>,
> {
    match result {
        Poll::Ready(Ok(stream)) => Poll::Ready(Ok(WebTransportRecvStreamAny::Quinn(stream))),
        Poll::Ready(Err(error)) => Poll::Ready(Err(WebTransportErrorAny::Quinn(error))),
        Poll::Pending => Poll::Pending,
    }
}

/// A stream accepted over QUIC, as one over either transport.
pub fn quinn_recv<R, V, Q, W>(result: Poll<Result<R, Q>>) -> (any: Poll<
    Result<WebTransportRecvStreamAny<R, V>, WebTransportErrorAny<Q, W>>,
>)
    ensures
        any == quinn_accepted::<R, V, Q, W>(result),
{
    match result {
        Poll::Ready(Ok(stream)) => Poll::Ready(Ok(WebTransportRecvStreamAny::Quinn(stream))),
        Poll::Ready(Err(error)) => Poll::Ready(Err(WebTransportErrorAny::Quinn(error))),
        Poll::Pending => Poll::Pending,
    }
}

/// A stream accepted over a WebSocket, as one over either transport.
pub open spec fn ws_accepted<R, V, Q, W>(result: Poll<Result<V, W>>) -> Poll<
    Result<WebTransportRecvStreamAny<R, V>, WebTransportErrorAny<Q, W>>,
> {
    match result {
        Poll::Ready(Ok(stream)) => Poll::Ready(Ok(WebTransportRecvStreamAny::WebSocket(stream))),
        Poll::Ready(Err(error)) => Poll::Ready(Err(WebTransportErrorAny::WebSocket(error))),
        Poll::Pending => Poll::Pending,
    }
}

/// A stream accepted over a WebSocket, as one over either transport.
pub fn ws_recv<R, V, Q, W>(result: Poll<Result<V, W>>) -> (any: Poll<
    Result<WebTransportRecvStreamAny<R, V>, WebTransportErrorAny<Q, W>>,
>)
    ensures
        any == ws_accepted::<R, V, Q, W>(result),
{
    match result {
        Poll::Ready(Ok(stream)) => Poll::Ready(Ok(WebTransportRecvStreamAny::WebSocket(stream))),
        Poll::Ready(Err(error)) => Poll::Ready(Err(WebTransportErrorAny::WebSocket(error))),
        Poll::Pending => Poll::Pending,
    }
}

/// The two halves of a stream over QUIC, as those of one over either transport.
pub open spec fn quinn_halves<S, R, T, U, Q, W>(result: Poll<Result<(S, R), Q>>) -> Poll<
    Result<(WebTransportSendStreamAny<S, T>, WebTransportRecvStreamAny<R, U>), WebTransportErrorAny<Q, W>>,
> {
    match result {
        Poll::Ready(Ok((send, recv))) => Poll::Ready(
            Ok((WebTransportSendStreamAny::Quinn(send), WebTransportRecvStreamAny::Quinn(recv))),
        ),
        Poll::Ready(Err(error)) => Poll::Ready(Err(WebTransportErrorAny::Quinn(error))),
        Poll::Pending => Poll::Pending,
    }
}

/// The two halves of a stream over QUIC, as those of one over either transport.
pub fn quinn_bi<S, R, T, U, Q, W>(result: Poll<Result<(S, R), Q>>) -> (any: Poll<
    Result<(WebTransportSendStreamAny<S, T>, WebTransportRecvStreamAny<R, U>), WebTransportErrorAny<Q, W>>,
>)
    ensures
        any == quinn_halves::<S, R, T, U, Q, W>(result),
{
    match result {
        Poll::Ready(Ok((send, recv))) => Poll::Ready(
            Ok((WebTransportSendStreamAny::Quinn(send), WebTransportRecvStreamAny::Quinn(recv))),
        ),
        Poll::Ready(Err(error)) => Poll::Ready(Err(WebTransportErrorAny::Quinn(error))),
        Poll::Pending => Poll::Pending,
    }
}

/// The two halves of a stream over a WebSocket, as those of one over either transport.
pub open spec fn ws_halves<S, R, T, U, Q, W>(result: Poll<Result<(T, U), W>>) -> Poll<
    Result<(WebTransportSendStreamAny<S, T>, WebTransportRecvStreamAny<R, U>), WebTransportErrorAny<Q, W>>,
> {
    match result {
        Poll::Ready(Ok((send, recv))) => Poll::Ready(
            Ok((WebTransportSendStreamAny::WebSocket(send), WebTransportRecvStreamAny::WebSocket(recv))),
        ),
        Poll::Ready(Err(error)) => Poll::Ready(Err(WebTransportErrorAny::WebSocket(error))),
        Poll::Pending => Poll::Pending,
    }
}

/// The two halves of a stream over a WebSocket, as those of one over either transport.
pub fn ws_bi<S, R, T, U, Q, W>(result: Poll<Result<(T, U), W>>) -> (any: Poll<
    Result<(WebTransportSendStreamAny<S, T>, WebTransportRecvStreamAny<R, U>), WebTransportErrorAny<Q, W>>,
>)
    ensures
        any == ws_halves::<S, R, T, U, Q, W>(result),
{
    match result {
        Poll::Ready(Ok((send, recv))) => Poll::Ready(
            Ok((WebTransportSendStreamAny::WebSocket(send), WebTransportRecvStreamAny::WebSocket(recv))),
        ),
        Poll::Ready(Err(error)) => Poll::Ready(Err(WebTransportErrorAny::WebSocket(error))),
        Poll::Pending => Poll::Pending,
    }
}

impl<Q: SendStream, W: SendStream> SendStream for WebTransportSendStreamAny<Q, W> {
    type Error = WebTransportErrorAny<Q::Error, W::Error>;

    fn poll_write(&mut self, cx: &mut Context<'_>, buf: &[u8]) -> (result: Poll<
        Result<usize, Self::Error>,
    >)
        ensures
            match *old(self) {
                WebTransportSendStreamAny::Quinn(before) => exists|
                    stream: &mut Q,
                    context: &mut Context<'_>,
                    own: Poll<Result<usize, Q::Error>>,
                |
                    {
                        &&& *stream == before
                        &&& *final(self) == WebTransportSendStreamAny::<Q, W>::Quinn(*final(stream))
                        &&& *context == *old(cx) && *final(context) == *final(cx)
                        &&& #[trigger] call_ensures(Q::poll_write, (stream, context, buf), own)
                        &&& result == quinn_outcome::<usize, Q::Error, W::Error>(own)
                    },
                WebTransportSendStreamAny::WebSocket(before) => exists|
                    stream: &mut W,
                    context: &mut Context<'_>,
                    own: Poll<Result<usize, W::Error>>,
                |
                    {
                        &&& *stream == before
                        &&& *final(self) == WebTransportSendStreamAny::<Q, W>::WebSocket(*final(stream))
                        &&& *context == *old(cx) && *final(context) == *final(cx)
                        &&& #[trigger] call_ensures(W::poll_write, (stream, context, buf), own)
                        &&& result == ws_outcome::<usize, Q::Error, W::Error>(own)
                    },
            },
    {
        match self {
            WebTransportSendStreamAny::Quinn(stream) => quinn_result(stream.poll_write(cx, buf)),
            WebTransportSendStreamAny::WebSocket(stream) => ws_result(stream.poll_write(cx, buf)),
        }
    }

    fn poll_write_buf(&mut self, cx: &mut Context<'_>, buf: &mut Bytes) -> (result: Poll<
        Result<usize, Self::Error>,
    >)
        ensures
            match *old(self) {
                WebTransportSendStreamAny::Quinn(before) => exists|
                    stream: &mut Q,
                    context: &mut Context<'_>,
                    data: &mut Bytes,
                    own: Poll<Result<usize, Q::Error>>,
                |
                    {
                        &&& *stream == before
                        &&& *final(self) == WebTransportSendStreamAny::<Q, W>::Quinn(*final(stream))
                        &&& *context == *old(cx) && *final(context) == *final(cx)
                        &&& *data == *old(buf) && *final(data) == *final(buf)
                        &&& #[trigger] call_ensures(Q::poll_write_buf, (stream, context, data), own)
                        &&& result == quinn_outcome::<usize, Q::Error, W::Error>(own)
                    },
                WebTransportSendStreamAny::WebSocket(before) => exists|
                    stream: &mut W,
                    context: &mut Context<'_>,
                    data: &mut Bytes,
                    own: Poll<Result<usize, W::Error>>,
                |
                    {
                        &&& *stream == before
                        &&& *final(self) == WebTransportSendStreamAny::<Q, W>::WebSocket(*final(stream))
                        &&& *context == *old(cx) && *final(context) == *final(cx)
                        &&& *data == *old(buf) && *final(data) == *final(buf)
                        &&& #[trigger] call_ensures(W::poll_write_buf, (stream, context, data), own)
                        &&& result == ws_outcome::<usize, Q::Error, W::Error>(own)
                    },
            },
    {
        match self {
            WebTransportSendStreamAny::Quinn(stream) => quinn_result(stream.poll_write_buf(cx, buf)),
            WebTransportSendStreamAny::WebSocket(stream) => ws_result(stream.poll_write_buf(cx, buf)),
        }
    }

    fn set_priority(&mut self, order: i32)
        ensures
            match *old(self) {
                WebTransportSendStreamAny::Quinn(before) => exists|stream: &mut Q|
                    {
                        &&& *stream == before
                        &&& *final(self) == WebTransportSendStreamAny::<Q, W>::Quinn(*final(stream))
                        &&& #[trigger] call_ensures(Q::set_priority, (stream, order), ())
                    },
                WebTransportSendStreamAny::WebSocket(before) => exists|stream: &mut W|
                    {
                        &&& *stream == before
                        &&& *final(self) == WebTransportSendStreamAny::<Q, W>::WebSocket(*final(stream))
                        &&& #[trigger] call_ensures(W::set_priority, (stream, order), ())
                    },
            },
    {
        match self {
            WebTransportSendStreamAny::Quinn(stream) => stream.set_priority(order),
            WebTransportSendStreamAny::WebSocket(stream) => stream.set_priority(order),
        }
    }

    fn finish(&mut self) -> (result: Result<(), Self::Error>)
        ensures
            match *old(self) {
                WebTransportSendStreamAny::Quinn(before) => exists|
                    stream: &mut Q,
                    own: Result<(), Q::Error>,
                |
                    {
                        &&& *stream == before
                        &&& *final(self) == WebTransportSendStreamAny::<Q, W>::Quinn(*final(stream))
                        &&& #[trigger] call_ensures(Q::finish, (stream,), own)
                        &&& match own {
                            Ok(_) => result is Ok,
                            Err(error) => result matches Err(WebTransportErrorAny::Quinn(wrapped))
                                && wrapped == error,
                        }
                    },
                WebTransportSendStreamAny::WebSocket(before) => exists|
                    stream: &mut W,
                    own: Result<(), W::Error>,
                |
                    {
                        &&& *stream == before
                        &&& *final(self) == WebTransportSendStreamAny::<Q, W>::WebSocket(*final(stream))
                        &&& #[trigger] call_ensures(W::finish, (stream,), own)
                        &&& match own {
                            Ok(_) => result is Ok,
                            Err(error) => result matches Err(WebTransportErrorAny::WebSocket(wrapped))
                                && wrapped == error,
                        }
                    },
            },
    {
        match self {
            WebTransportSendStreamAny::Quinn(stream) => match stream.finish() {
                Ok(()) => Ok(()),
                Err(error) => Err(WebTransportErrorAny::Quinn(error)),
            },
            WebTransportSendStreamAny::WebSocket(stream) => match stream.finish() {
                Ok(()) => Ok(()),
                Err(error) => Err(WebTransportErrorAny::WebSocket(error)),
            },
        }
    }

    fn reset(&mut self, code: u32)
        ensures
            match *old(self) {
                WebTransportSendStreamAny::Quinn(before) => exists|stream: &mut Q|
                    {
                        &&& *stream == before
                        &&& *final(self) == WebTransportSendStreamAny::<Q, W>::Quinn(*final(stream))
                        &&& #[trigger] call_ensures(Q::reset, (stream, code), ())
                    },
                WebTransportSendStreamAny::WebSocket(before) => exists|stream: &mut W|
                    {
                        &&& *stream == before
                        &&& *final(self) == WebTransportSendStreamAny::<Q, W>::WebSocket(*final(stream))
                        &&& #[trigger] call_ensures(W::reset, (stream, code), ())
                    },
            },
    {
        match self {
            WebTransportSendStreamAny::Quinn(stream) => stream.reset(code),
            WebTransportSendStreamAny::WebSocket(stream) => stream.reset(code),
        }
    }

    fn poll_closed(&mut self, cx: &mut Context<'_>) -> (result: Poll<Result<(), Self::Error>>)
        ensures
            match *old(self) {
                WebTransportSendStreamAny::Quinn(before) => exists|
                    stream: &mut Q,
                    context: &mut Context<'_>,
                    own: Poll<Result<(), Q::Error>>,
                |
                    {
                        &&& *stream == before
                        &&& *final(self) == WebTransportSendStreamAny::<Q, W>::Quinn(*final(stream))
                        &&& *context == *old(cx) && *final(context) == *final(cx)
                        &&& #[trigger] call_ensures(Q::poll_closed, (stream, context), own)
                        &&& result == quinn_outcome::<(), Q::Error, W::Error>(own)
                    },
                WebTransportSendStreamAny::WebSocket(before) => exists|
                    stream: &mut W,
                    context: &mut Context<'_>,
                    own: Poll<Result<(), W::Error>>,
                |
                    {
                        &&& *stream == before
                        &&& *final(self) == WebTransportSendStreamAny::<Q, W>::WebSocket(*final(stream))
                        &&& *context == *old(cx) && *final(context) == *final(cx)
                        &&& #[trigger] call_ensures(W::poll_closed, (stream, context), own)
                        &&& result == ws_outcome::<(), Q::Error, W::Error>(own)
                    },
            },
    {
        match self {
            WebTransportSendStreamAny::Quinn(stream) => quinn_result(stream.poll_closed(cx)),
            WebTransportSendStreamAny::WebSocket(stream) => ws_result(stream.poll_closed(cx)),
        }
    }
}

impl<Q: RecvStream, W: RecvStream> RecvStream for WebTransportRecvStreamAny<Q, W> {
    type Error = WebTransportErrorAny<Q::Error, W::Error>;

    fn poll_read(&mut self, cx: &mut Context<'_>, dst: &mut [u8]) -> (result: Poll<
        Result<Option<usize>, Self::Error>,
    >)
        ensures
            match *old(self) {
                WebTransportRecvStreamAny::Quinn(before) => exists|
                    stream: &mut Q,
                    context: &mut Context<'_>,
                    data: &mut [u8],
                    own: Poll<Result<Option<usize>, Q::Error>>,
                |
                    {
                        &&& *stream == before
                        &&& *final(self) == WebTransportRecvStreamAny::<Q, W>::Quinn(*final(stream))
                        &&& *context == *old(cx) && *final(context) == *final(cx)
                        &&& data@ == old(dst)@ && final(data)@ == final(dst)@
                        &&& #[trigger] call_ensures(Q::poll_read, (stream, context, data), own)
                        &&& result == quinn_outcome::<Option<usize>, Q::Error, W::Error>(own)
                    },
                WebTransportRecvStreamAny::WebSocket(before) => exists|
                    stream: &mut W,
                    context: &mut Context<'_>,
                    data: &mut [u8],
                    own: Poll<Result<Option<usize>, W::Error>>,
                |
                    {
                        &&& *stream == before
                        &&& *final(self) == WebTransportRecvStreamAny::<Q, W>::WebSocket(*final(stream))
                        &&& *context == *old(cx) && *final(context) == *final(cx)
                        &&& data@ == old(dst)@ && final(data)@ == final(dst)@
                        &&& #[trigger] call_ensures(W::poll_read, (stream, context, data), own)
                        &&& result == ws_outcome::<Option<usize>, Q::Error, W::Error>(own)
                    },
            },
    {
        match self {
            WebTransportRecvStreamAny::Quinn(stream) => quinn_result(stream.poll_read(cx, dst)),
            WebTransportRecvStreamAny::WebSocket(stream) => ws_result(stream.poll_read(cx, dst)),
        }
    }

    fn stop(&mut self, code: u32)
        ensures
            match *old(self) {
                WebTransportRecvStreamAny::Quinn(before) => exists|stream: &mut Q|
                    {
                        &&& *stream == before
                        &&& *final(self) == WebTransportRecvStreamAny::<Q, W>::Quinn(*final(stream))
                        &&& #[trigger] call_ensures(Q::stop, (stream, code), ())
                    },
                WebTransportRecvStreamAny::WebSocket(before) => exists|stream: &mut W|
                    {
                        &&& *stream == before
                        &&& *final(self) == WebTransportRecvStreamAny::<Q, W>::WebSocket(*final(stream))
                        &&& #[trigger] call_ensures(W::stop, (stream, code), ())
                    },
            },
    {
        match self {
            WebTransportRecvStreamAny::Quinn(stream) => stream.stop(code),
            WebTransportRecvStreamAny::WebSocket(stream) => stream.stop(code),
        }
    }

    fn poll_closed(&mut self, cx: &mut Context<'_>) -> (result: Poll<Result<(), Self::Error>>)
        ensures
            match *old(self) {
                WebTransportRecvStreamAny::Quinn(before) => exists|
                    stream: &mut Q,
                    context: &mut Context<'_>,
                    own: Poll<Result<(), Q::Error>>,
                |
                    {
                        &&& *stream == before
                        &&& *final(self) == WebTransportRecvStreamAny::<Q, W>::Quinn(*final(stream))
                        &&& *context == *old(cx) && *final(context) == *final(cx)
                        &&& #[trigger] call_ensures(Q::poll_closed, (stream, context), own)
                        &&& result == quinn_outcome::<(), Q::Error, W::Error>(own)
                    },
                WebTransportRecvStreamAny::WebSocket(before) => exists|
                    stream: &mut W,
                    context: &mut Context<'_>,
                    own: Poll<Result<(), W::Error>>,
                |
                    {
                        &&& *stream == before
                        &&& *final(self) == WebTransportRecvStreamAny::<Q, W>::WebSocket(*final(stream))
                        &&& *context == *old(cx) && *final(context) == *final(cx)
                        &&& #[trigger] call_ensures(W::poll_closed, (stream, context), own)
                        &&& result == ws_outcome::<(), Q::Error, W::Error>(own)
                    },
            },
    {
        match self {
            WebTransportRecvStreamAny::Quinn(stream) => quinn_result(stream.poll_closed(cx)),
            WebTransportRecvStreamAny::WebSocket(stream) => ws_result(stream.poll_closed(cx)),
        }
    }
}

impl<Q: Stats, W: Stats> Stats for WebTransportStatsAny<Q, W> {
    fn bytes_sent(&self) -> (metric: Option<u64>)
        ensures
            match *self {
                WebTransportStatsAny::Quinn(stats) => call_ensures(Q::bytes_sent, (&stats,), metric),
                WebTransportStatsAny::WebSocket(stats) => call_ensures(W::bytes_sent, (&stats,), metric),
            },
    {
        match self {
            WebTransportStatsAny::Quinn(stats) => stats.bytes_sent(),
            WebTransportStatsAny::WebSocket(stats) => stats.bytes_sent(),
        }
    }

    fn bytes_received(&self) -> (metric: Option<u64>)
        ensures
            match *self {
                WebTransportStatsAny::Quinn(stats) => call_ensures(Q::bytes_received, (&stats,), metric),
                WebTransportStatsAny::WebSocket(stats) => call_ensures(W::bytes_received, (&stats,), metric),
            },
    {
        match self {
            WebTransportStatsAny::Quinn(stats) => stats.bytes_received(),
            WebTransportStatsAny::WebSocket(stats) => stats.bytes_received(),
        }
    }

    fn bytes_lost(&self) -> (metric: Option<u64>)
        ensures
            match *self {
                WebTransportStatsAny::Quinn(stats) => call_ensures(Q::bytes_lost, (&stats,), metric),
                WebTransportStatsAny::WebSocket(stats) => call_ensures(W::bytes_lost, (&stats,), metric),
            },
    {
        match self {
            WebTransportStatsAny::Quinn(stats) => stats.bytes_lost(),
            WebTransportStatsAny::WebSocket(stats) => stats.bytes_lost(),
        }
    }

    fn packets_sent(&self) -> (metric: Option<u64>)
        ensures
            match *self {
                WebTransportStatsAny::Quinn(stats) => call_ensures(Q::packets_sent, (&stats,), metric),
                WebTransportStatsAny::WebSocket(stats) => call_ensures(W::packets_sent, (&stats,), metric),
            },
    {
        match self {
            WebTransportStatsAny::Quinn(stats) => stats.packets_sent(),
            WebTransportStatsAny::WebSocket(stats) => stats.packets_sent(),
        }
    }

    fn packets_received(&self) -> (metric: Option<u64>)
        ensures
            match *self {
                WebTransportStatsAny::Quinn(stats) => call_ensures(Q::packets_received, (&stats,), metric),
                WebTransportStatsAny::WebSocket(stats) => call_ensures(W::packets_received, (&stats,), metric),
            },
    {
        match self {
            WebTransportStatsAny::Quinn(stats) => stats.packets_received(),
            WebTransportStatsAny::WebSocket(stats) => stats.packets_received(),
        }
    }

    fn packets_lost(&self) -> (metric: Option<u64>)
        ensures
            match *self {
                WebTransportStatsAny::Quinn(stats) => call_ensures(Q::packets_lost, (&stats,), metric),
                WebTransportStatsAny::WebSocket(stats) => call_ensures(W::packets_lost, (&stats,), metric),
            },
    {
        match self {
            WebTransportStatsAny::Quinn(stats) => stats.packets_lost(),
            WebTransportStatsAny::WebSocket(stats) => stats.packets_lost(),
        }
    }

    fn rtt(&self) -> (metric: Option<Duration>)
        ensures
            match *self {
                WebTransportStatsAny::Quinn(stats) => call_ensures(Q::rtt, (&stats,), metric),
                WebTransportStatsAny::WebSocket(stats) => call_ensures(W::rtt, (&stats,), metric),
            },
    {
        match self {
            WebTransportStatsAny::Quinn(stats) => stats.rtt(),
            WebTransportStatsAny::WebSocket(stats) => stats.rtt(),
        }
    }

    fn estimated_send_rate(&self) -> (metric: Option<u64>)
        ensures
            match *self {
                WebTransportStatsAny::Quinn(stats) => call_ensures(Q::estimated_send_rate, (&stats,), metric),
                WebTransportStatsAny::WebSocket(stats) => call_ensures(W::estimated_send_rate, (&stats,), metric),
            },
    {
        match self {
            WebTransportStatsAny::Quinn(stats) => stats.estimated_send_rate(),
            WebTransportStatsAny::WebSocket(stats) => stats.estimated_send_rate(),
        }
    }
}

impl<Q: Session, W: Session> Session for WebTransportSessionAny<Q, W> {
    type SendStream = WebTransportSendStreamAny<Q::SendStream, W::SendStream>;

    type RecvStream = WebTransportRecvStreamAny<Q::RecvStream, W::RecvStream>;

    type Error = WebTransportErrorAny<Q::Error, W::Error>;

    type Stats = WebTransportStatsAny<Q::Stats, W::Stats>;

    fn poll_accept_uni(&mut self, cx: &mut Context<'_>) -> (result: Poll<Result<Self::RecvStream, Self::Error>>)
        ensures
            match *old(self) {
                WebTransportSessionAny::Quinn(before) => exists|
                    session: &mut Q,
                    context: &mut Context<'_>,
                    own: Poll<Result<Q::RecvStream, Q::Error>>,
                |
                    {
                        &&& *session == before
                        &&& *final(self) == WebTransportSessionAny::<Q, W>::Quinn(*final(session))
                        &&& *context == *old(cx) && *final(context) == *final(cx)
                        &&& #[trigger] call_ensures(Q::poll_accept_uni, (session, context), own)
                        &&& result == quinn_accepted::<Q::RecvStream, W::RecvStream, Q::Error, W::Error>(
                            own,
                        )
                    },
                WebTransportSessionAny::WebSocket(before) => exists|
                    session: &mut W,
                    context: &mut Context<'_>,
                    own: Poll<Result<W::RecvStream, W::Error>>,
                |
                    {
                        &&& *session == before
                        &&& *final(self) == WebTransportSessionAny::<Q, W>::WebSocket(*final(session))
                        &&& *context == *old(cx) && *final(context) == *final(cx)
                        &&& #[trigger] call_ensures(W::poll_accept_uni, (session, context), own)
                        &&& result == ws_accepted::<Q::RecvStream, W::RecvStream, Q::Error, W::Error>(
                            own,
                        )
                    },
            },
    {
        match self {
            WebTransportSessionAny::Quinn(session) => quinn_recv(session.poll_accept_uni(cx)),
            WebTransportSessionAny::WebSocket(session) => ws_recv(session.poll_accept_uni(cx)),
        }
    }

    fn poll_accept_bi(&mut self, cx: &mut Context<'_>) -> (result: Poll<
        Result<(Self::SendStream, Self::RecvStream), Self::Error>,
    >)
        ensures
            match *old(self) {
                WebTransportSessionAny::Quinn(before) => exists|
                    session: &mut Q,
                    context: &mut Context<'_>,
                    own: Poll<Result<(Q::SendStream, Q::RecvStream), Q::Error>>,
                |
                    {
                        &&& *session == before
                        &&& *final(self) == WebTransportSessionAny::<Q, W>::Quinn(*final(session))
                        &&& *context == *old(cx) && *final(context) == *final(cx)
                        &&& #[trigger] call_ensures(Q::poll_accept_bi, (session, context), own)
                        &&& result == quinn_halves::<
                            Q::SendStream,
                            Q::RecvStream,
                            W::SendStream,
                            W::RecvStream,
                            Q::Error,
                            W::Error,
                        >(own)
                    },
                WebTransportSessionAny::WebSocket(before) => exists|
                    session: &mut W,
                    context: &mut Context<'_>,
                    own: Poll<Result<(W::SendStream, W::RecvStream), W::Error>>,
                |
                    {
                        &&& *session == before
                        &&& *final(self) == WebTransportSessionAny::<Q, W>::WebSocket(*final(session))
                        &&& *context == *old(cx) && *final(context) == *final(cx)
                        &&& #[trigger] call_ensures(W::poll_accept_bi, (session, context), own)
                        &&& result == ws_halves::<
                            Q::SendStream,
                            Q::RecvStream,
                            W::SendStream,
                            W::RecvStream,
                            Q::Error,
                            W::Error,
                        >(own)
                    },
            },
    {
        match self {
            WebTransportSessionAny::Quinn(session) => quinn_bi(session.poll_accept_bi(cx)),
            WebTransportSessionAny::WebSocket(session) => ws_bi(session.poll_accept_bi(cx)),
        }
    }

    fn poll_open_uni(&mut self, cx: &mut Context<'_>) -> (result: Poll<Result<Self::SendStream, Self::Error>>)
        ensures
            match *old(self) {
                WebTransportSessionAny::Quinn(before) => exists|
                    session: &mut Q,
                    context: &mut Context<'_>,
                    own: Poll<Result<Q::SendStream, Q::Error>>,
                |
                    {
                        &&& *session == before
                        &&& *final(self) == WebTransportSessionAny::<Q, W>::Quinn(*final(session))
                        &&& *context == *old(cx) && *final(context) == *final(cx)
                        &&& #[trigger] call_ensures(Q::poll_open_uni, (session, context), own)
                        &&& result == quinn_opened::<Q::SendStream, W::SendStream, Q::Error, W::Error>(
                            own,
                        )
                    },
                WebTransportSessionAny::WebSocket(before) => exists|
                    session: &mut W,
                    context: &mut Context<'_>,
                    own: Poll<Result<W::SendStream, W::Error>>,
                |
                    {
                        &&& *session == before
                        &&& *final(self) == WebTransportSessionAny::<Q, W>::WebSocket(*final(session))
                        &&& *context == *old(cx) && *final(context) == *final(cx)
                        &&& #[trigger] call_ensures(W::poll_open_uni, (session, context), own)
                        &&& result == ws_opened::<Q::SendStream, W::SendStream, Q::Error, W::Error>(
                            own,
                        )
                    },
            },
    {
        match self {
            WebTransportSessionAny::Quinn(session) => quinn_send(session.poll_open_uni(cx)),
            WebTransportSessionAny::WebSocket(session) => ws_send(session.poll_open_uni(cx)),
        }
    }

    fn poll_open_bi(&mut self, cx: &mut Context<'_>) -> (result: Poll<
        Result<(Self::SendStream, Self::RecvStream), Self::Error>,
    >)
        ensures
            match *old(self) {
                WebTransportSessionAny::Quinn(before) => exists|
                    session: &mut Q,
                    context: &mut Context<'_>,
                    own: Poll<Result<(Q::SendStream, Q::RecvStream), Q::Error>>,
                |
                    {
                        &&& *session == before
                        &&& *final(self) == WebTransportSessionAny::<Q, W>::Quinn(*final(session))
                        &&& *context == *old(cx) && *final(context) == *final(cx)
                        &&& #[trigger] call_ensures(Q::poll_open_bi, (session, context), own)
                        &&& result == quinn_halves::<
                            Q::SendStream,
                            Q::RecvStream,
                            W::SendStream,
                            W::RecvStream,
                            Q::Error,
                            W::Error,
                        >(own)
                    },
                WebTransportSessionAny::WebSocket(before) => exists|
                    session: &mut W,
                    context: &mut Context<'_>,
                    own: Poll<Result<(W::SendStream, W::RecvStream), W::Error>>,
                |
                    {
                        &&& *session == before
                        &&& *final(self) == WebTransportSessionAny::<Q, W>::WebSocket(*final(session))
                        &&& *context == *old(cx) && *final(context) == *final(cx)
                        &&& #[trigger] call_ensures(W::poll_open_bi, (session, context), own)
                        &&& result == ws_halves::<
                            Q::SendStream,
                            Q::RecvStream,
                            W::SendStream,
                            W::RecvStream,
                            Q::Error,
                            W::Error,
                        >(own)
                    },
            },
    {
        match self {
            WebTransportSessionAny::Quinn(session) => quinn_bi(session.poll_open_bi(cx)),
            WebTransportSessionAny::WebSocket(session) => ws_bi(session.poll_open_bi(cx)),
        }
    }

    fn poll_send_datagram(&mut self, cx: &mut Context<'_>, payload: &[u8]) -> (result: Poll<
        Result<(), Self::Error>,
    >)
        ensures
            match *old(self) {
                WebTransportSessionAny::Quinn(before) => exists|
                    session: &mut Q,
                    context: &mut Context<'_>,
                    own: Poll<Result<(), Q::Error>>,
                |
                    {
                        &&& *session == before
                        &&& *final(self) == WebTransportSessionAny::<Q, W>::Quinn(*final(session))
                        &&& *context == *old(cx) && *final(context) == *final(cx)
                        &&& #[trigger] call_ensures(Q::poll_send_datagram, (session, context, payload), own)
                        &&& result == quinn_outcome::<(), Q::Error, W::Error>(own)
                    },
                WebTransportSessionAny::WebSocket(before) => exists|
                    session: &mut W,
                    context: &mut Context<'_>,
                    own: Poll<Result<(), W::Error>>,
                |
                    {
                        &&& *session == before
                        &&& *final(self) == WebTransportSessionAny::<Q, W>::WebSocket(*final(session))
                        &&& *context == *old(cx) && *final(context) == *final(cx)
                        &&& #[trigger] call_ensures(W::poll_send_datagram, (session, context, payload), own)
                        &&& result == ws_outcome::<(), Q::Error, W::Error>(own)
                    },
            },
    {
        match self {
            WebTransportSessionAny::Quinn(session) => quinn_result(session.poll_send_datagram(cx, payload)),
            WebTransportSessionAny::WebSocket(session) => ws_result(session.poll_send_datagram(cx, payload)),
        }
    }

    fn poll_recv_datagram(&mut self, cx: &mut Context<'_>) -> (result: Poll<Result<Bytes, Self::Error>>)
        ensures
            match *old(self) {
                WebTransportSessionAny::Quinn(before) => exists|
                    session: &mut Q,
                    context: &mut Context<'_>,
                    own: Poll<Result<Bytes, Q::Error>>,
                |
                    {
                        &&& *session == before
                        &&& *final(self) == WebTransportSessionAny::<Q, W>::Quinn(*final(session))
                        &&& *context == *old(cx) && *final(context) == *final(cx)
                        &&& #[trigger] call_ensures(Q::poll_recv_datagram, (session, context), own)
                        &&& result == quinn_outcome::<Bytes, Q::Error, W::Error>(own)
                    },
                WebTransportSessionAny::WebSocket(before) => exists|
                    session: &mut W,
                    context: &mut Context<'_>,
                    own: Poll<Result<Bytes, W::Error>>,
                |
                    {
                        &&& *session == before
                        &&& *final(self) == WebTransportSessionAny::<Q, W>::WebSocket(*final(session))
                        &&& *context == *old(cx) && *final(context) == *final(cx)
                        &&& #[trigger] call_ensures(W::poll_recv_datagram, (session, context), own)
                        &&& result == ws_outcome::<Bytes, Q::Error, W::Error>(own)
                    },
            },
    {
        match self {
            WebTransportSessionAny::Quinn(session) => quinn_result(session.poll_recv_datagram(cx)),
            WebTransportSessionAny::WebSocket(session) => ws_result(session.poll_recv_datagram(cx)),
        }
    }

    fn max_datagram_size(&self) -> (size: usize)
        ensures
            match *self {
                WebTransportSessionAny::Quinn(session) => call_ensures(
                    Q::max_datagram_size,
                    (&session,),
                    size,
                ),
                WebTransportSessionAny::WebSocket(session) => call_ensures(
                    W::max_datagram_size,
                    (&session,),
                    size,
                ),
            },
    {
        match self {
            WebTransportSessionAny::Quinn(session) => session.max_datagram_size(),
            WebTransportSessionAny::WebSocket(session) => session.max_datagram_size(),
        }
    }

    fn protocol(&self) -> (name: Option<&str>)
        ensures
            match *self {
                WebTransportSessionAny::Quinn(session) => call_ensures(Q::protocol, (&session,), name),
                WebTransportSessionAny::WebSocket(session) => call_ensures(
                    W::protocol,
                    (&session,),
                    name,
                ),
            },
    {
        match self {
            WebTransportSessionAny::Quinn(session) => session.protocol(),
            WebTransportSessionAny::WebSocket(session) => session.protocol(),
        }
    }

    fn close(&mut self, code: u32, reason: &str)
        ensures
            match *old(self) {
                WebTransportSessionAny::Quinn(before) => exists|session: &mut Q|
                    {
                        &&& *session == before
                        &&& *final(self) == WebTransportSessionAny::<Q, W>::Quinn(*final(session))
                        &&& #[trigger] call_ensures(Q::close, (session, code, reason), ())
                    },
                WebTransportSessionAny::WebSocket(before) => exists|session: &mut W|
                    {
                        &&& *session == before
                        &&& *final(self) == WebTransportSessionAny::<Q, W>::WebSocket(*final(session))
                        &&& #[trigger] call_ensures(W::close, (session, code, reason), ())
                    },
            },
    {
        match self {
            WebTransportSessionAny::Quinn(session) => session.close(code, reason),
            WebTransportSessionAny::WebSocket(session) => session.close(code, reason),
        }
    }

    fn poll_closed(&mut self, cx: &mut Context<'_>) -> (result: Poll<Self::Error>)
        ensures
            match *old(self) {
                WebTransportSessionAny::Quinn(before) => exists|
                    session: &mut Q,
                    context: &mut Context<'_>,
                    own: Poll<Q::Error>,
                |
                    {
                        &&& *session == before
                        &&& *final(self) == WebTransportSessionAny::<Q, W>::Quinn(*final(session))
                        &&& *context == *old(cx) && *final(context) == *final(cx)
                        &&& #[trigger] call_ensures(Q::poll_closed, (session, context), own)
                        &&& match own {
                            Poll::Ready(error) => result == Poll::<Self::Error>::Ready(
                                WebTransportErrorAny::Quinn(error),
                            ),
                            Poll::Pending => result is Pending,
                        }
                    },
                WebTransportSessionAny::WebSocket(before) => exists|
                    session: &mut W,
                    context: &mut Context<'_>,
                    own: Poll<W::Error>,
                |
                    {
                        &&& *session == before
                        &&& *final(self) == WebTransportSessionAny::<Q, W>::WebSocket(*final(session))
                        &&& *context == *old(cx) && *final(context) == *final(cx)
                        &&& #[trigger] call_ensures(W::poll_closed, (session, context), own)
                        &&& match own {
                            Poll::Ready(error) => result == Poll::<Self::Error>::Ready(
                                WebTransportErrorAny::WebSocket(error),
                            ),
                            Poll::Pending => result is Pending,
                        }
                    },
            },
    {
        match self {
            WebTransportSessionAny::Quinn(session) => match session.poll_closed(cx) {
                Poll::Ready(error) => Poll::Ready(WebTransportErrorAny::Quinn(error)),
                Poll::Pending => Poll::Pending,
            },
            WebTransportSessionAny::WebSocket(session) => match session.poll_closed(cx) {
                Poll::Ready(error) => Poll::Ready(WebTransportErrorAny::WebSocket(error)),
                Poll::Pending => Poll::Pending,
            },
        }
    }

    fn stats(&self) -> (stats: Self::Stats)
        ensures
            match *self {
                WebTransportSessionAny::Quinn(session) => stats matches WebTransportStatsAny::Quinn(own)
                    && call_ensures(Q::stats, (&session,), own),
                WebTransportSessionAny::WebSocket(session) => stats matches WebTransportStatsAny::WebSocket(
                    own,
                ) && call_ensures(W::stats, (&session,), own),
            },
    {
        match self {
            WebTransportSessionAny::Quinn(session) => WebTransportStatsAny::Quinn(session.stats()),
            WebTransportSessionAny::WebSocket(session) => WebTransportStatsAny::WebSocket(
                session.stats(),
            ),
        }
    }
}

/// An operation over either transport is pending exactly if the operation of the transport in
/// use is, succeeds exactly if that does, with the same value, and fails exactly if that does,
/// with its error.
pub proof fn law_an_outcome_is_kept_over_either_transport<T, Q, W>()
    ensures
        forall|result: Poll<Result<T, Q>>, any: Poll<Result<T, WebTransportErrorAny<Q, W>>>|
            #[trigger] call_ensures(quinn_result::<T, Q, W>, (result,), any) ==> {
                &&& any is Pending <==> result is Pending
                &&& forall|value: T| any == Poll::<Result<T, WebTransportErrorAny<Q, W>>>::Ready(Ok(value)) <==> result == Poll::<Result<T, Q>>::Ready(Ok(value))
                &&& forall|error: Q|
                    any == Poll::<Result<T, WebTransportErrorAny<Q, W>>>::Ready(Err(WebTransportErrorAny::Quinn(error))) <==> result
                        == Poll::<Result<T, Q>>::Ready(Err(error))
                &&& any matches Poll::Ready(Err(error)) ==> error is Quinn
            },
        forall|result: Poll<Result<T, W>>, any: Poll<Result<T, WebTransportErrorAny<Q, W>>>|
            #[trigger] call_ensures(ws_result::<T, Q, W>, (result,), any) ==> {
                &&& any is Pending <==> result is Pending
                &&& forall|value: T| any == Poll::<Result<T, WebTransportErrorAny<Q, W>>>::Ready(Ok(value)) <==> result == Poll::<Result<T, W>>::Ready(Ok(value))
                &&& forall|error: W|
                    any == Poll::<Result<T, WebTransportErrorAny<Q, W>>>::Ready(Err(WebTransportErrorAny::WebSocket(error))) <==> result
                        == Poll::<Result<T, W>>::Ready(Err(error))
                &&& any matches Poll::Ready(Err(error)) ==> error is WebSocket
            },
{
}

/// The same of opening a stream, which is then one of the transport in use.
pub proof fn law_an_opened_stream_stays_with_its_transport<S, V, Q, W>()
    ensures
        forall|result: Poll<Result<S, Q>>, any: Poll<Result<WebTransportSendStreamAny<S, V>, WebTransportErrorAny<Q, W>>>|
            #[trigger] call_ensures(quinn_send::<S, V, Q, W>, (result,), any) ==> {
                &&& any is Pending <==> result is Pending
                &&& forall|stream: S| any == Poll::<Result<WebTransportSendStreamAny<S, V>, WebTransportErrorAny<Q, W>>>::Ready(
                        Ok(WebTransportSendStreamAny::Quinn(stream)),
                    ) <==> result == Poll::<Result<S, Q>>::Ready(Ok(stream))
                &&& forall|error: Q|
                    any == Poll::<Result<WebTransportSendStreamAny<S, V>, WebTransportErrorAny<Q, W>>>::Ready(Err(WebTransportErrorAny::Quinn(error))) <==> result
                        == Poll::<Result<S, Q>>::Ready(Err(error))
                &&& any matches Poll::Ready(Err(error)) ==> error is Quinn
            },
        forall|result: Poll<Result<V, W>>, any: Poll<Result<WebTransportSendStreamAny<S, V>, WebTransportErrorAny<Q, W>>>|
            #[trigger] call_ensures(ws_send::<S, V, Q, W>, (result,), any) ==> {
                &&& any is Pending <==> result is Pending
                &&& forall|stream: V| any == Poll::<Result<WebTransportSendStreamAny<S, V>, WebTransportErrorAny<Q, W>>>::Ready(
                        Ok(WebTransportSendStreamAny::WebSocket(stream)),
                    ) <==> result == Poll::<Result<V, W>>::Ready(Ok(stream))
                &&& forall|error: W|
                    any == Poll::<Result<WebTransportSendStreamAny<S, V>, WebTransportErrorAny<Q, W>>>::Ready(Err(WebTransportErrorAny::WebSocket(error))) <==> result
                        == Poll::<Result<V, W>>::Ready(Err(error))
                &&& any matches Poll::Ready(Err(error)) ==> error is WebSocket
            },
{
}

/// The same of accepting a stream.
pub proof fn law_an_accepted_stream_stays_with_its_transport<R, V, Q, W>()
    ensures
        forall|result: Poll<Result<R, Q>>, any: Poll<Result<WebTransportRecvStreamAny<R, V>, WebTransportErrorAny<Q, W>>>|
            #[trigger] call_ensures(quinn_recv::<R, V, Q, W>, (result,), any) ==> {
                &&& any is Pending <==> result is Pending
                &&& forall|stream: R| any == Poll::<Result<WebTransportRecvStreamAny<R, V>, WebTransportErrorAny<Q, W>>>::Ready(
                        Ok(WebTransportRecvStreamAny::Quinn(stream)),
                    ) <==> result == Poll::<Result<R, Q>>::Ready(Ok(stream))
                &&& forall|error: Q|
                    any == Poll::<Result<WebTransportRecvStreamAny<R, V>, WebTransportErrorAny<Q, W>>>::Ready(Err(WebTransportErrorAny::Quinn(error))) <==> result
                        == Poll::<Result<R, Q>>::Ready(Err(error))
                &&& any matches Poll::Ready(Err(error)) ==> error is Quinn
            },
        forall|result: Poll<Result<V, W>>, any: Poll<Result<WebTransportRecvStreamAny<R, V>, WebTransportErrorAny<Q, W>>>|
            #[trigger] call_ensures(ws_recv::<R, V, Q, W>, (result,), any) ==> {
                &&& any is Pending <==> result is Pending
                &&& forall|stream: V| any == Poll::<Result<WebTransportRecvStreamAny<R, V>, WebTransportErrorAny<Q, W>>>::Ready(
                        Ok(WebTransportRecvStreamAny::WebSocket(stream)),
                    ) <==> result == Poll::<Result<V, W>>::Ready(Ok(stream))
                &&& forall|error: W|
                    any == Poll::<Result<WebTransportRecvStreamAny<R, V>, WebTransportErrorAny<Q, W>>>::Ready(Err(WebTransportErrorAny::WebSocket(error))) <==> result
                        == Poll::<Result<V, W>>::Ready(Err(error))
                &&& any matches Poll::Ready(Err(error)) ==> error is WebSocket
            },
{
}

/// The same of both halves of a stream.
pub proof fn law_both_halves_stay_with_their_transport<S, R, T, U, Q, W>()
    ensures
        forall|result: Poll<Result<(S, R), Q>>, any: Poll<Result<(WebTransportSendStreamAny<S, T>, WebTransportRecvStreamAny<R, U>), WebTransportErrorAny<Q, W>>>|
            #[trigger] call_ensures(quinn_bi::<S, R, T, U, Q, W>, (result,), any) ==> {
                &&& any is Pending <==> result is Pending
                &&& forall|send: S, recv: R| any == Poll::<Result<(WebTransportSendStreamAny<S, T>, WebTransportRecvStreamAny<R, U>), WebTransportErrorAny<Q, W>>>::Ready(
                        Ok((WebTransportSendStreamAny::Quinn(send), WebTransportRecvStreamAny::Quinn(recv))),
                    ) <==> result == Poll::<Result<(S, R), Q>>::Ready(Ok((send, recv)))
                &&& forall|error: Q|
                    any == Poll::<Result<(WebTransportSendStreamAny<S, T>, WebTransportRecvStreamAny<R, U>), WebTransportErrorAny<Q, W>>>::Ready(Err(WebTransportErrorAny::Quinn(error))) <==> result
                        == Poll::<Result<(S, R), Q>>::Ready(Err(error))
                &&& any matches Poll::Ready(Err(error)) ==> error is Quinn
            },
        forall|result: Poll<Result<(T, U), W>>, any: Poll<Result<(WebTransportSendStreamAny<S, T>, WebTransportRecvStreamAny<R, U>), WebTransportErrorAny<Q, W>>>|
            #[trigger] call_ensures(ws_bi::<S, R, T, U, Q, W>, (result,), any) ==> {
                &&& any is Pending <==> result is Pending
                &&& forall|send: T, recv: U| any == Poll::<Result<(WebTransportSendStreamAny<S, T>, WebTransportRecvStreamAny<R, U>), WebTransportErrorAny<Q, W>>>::Ready(
                        Ok((WebTransportSendStreamAny::WebSocket(send), WebTransportRecvStreamAny::WebSocket(recv))),
                    ) <==> result == Poll::<Result<(T, U), W>>::Ready(Ok((send, recv)))
                &&& forall|error: W|
                    any == Poll::<Result<(WebTransportSendStreamAny<S, T>, WebTransportRecvStreamAny<R, U>), WebTransportErrorAny<Q, W>>>::Ready(Err(WebTransportErrorAny::WebSocket(error))) <==> result
                        == Poll::<Result<(T, U), W>>::Ready(Err(error))
                &&& any matches Poll::Ready(Err(error)) ==> error is WebSocket
            },
{
}

/// Polling an outgoing stream over either transport polls that of the transport in use, with
/// the same arguments, and keeps the outcome.
pub proof fn law_an_outgoing_stream_is_that_of_its_transport<Q: SendStream, W: SendStream>()
    ensures
        forall|any: &mut WebTransportSendStreamAny<Q, W>, cx: &mut Context<'_>, buf: &[u8], result: Poll<Result<usize, WebTransportErrorAny<Q::Error, W::Error>>>|
            #[trigger] call_ensures(WebTransportSendStreamAny::<Q, W>::poll_write, (any, cx, buf), result) && *any is Quinn ==> exists|
                inner: &mut Q, context: &mut Context<'_>, own: Poll<Result<usize, Q::Error>>,
            |
                {
                    &&& *inner == any->Quinn_0
                    &&& *final(any) is Quinn && final(any)->Quinn_0 == *final(inner)
                    &&& *context == *cx
                    &&& #[trigger] call_ensures(Q::poll_write, (inner, context, buf), own)
                    &&& (result is Pending <==> own is Pending) && (result is Pending || match own {
                        Poll::Ready(Ok(value)) => result matches Poll::Ready(Ok(given)) && given == value,
                        Poll::Ready(Err(error)) => result matches Poll::Ready(Err(WebTransportErrorAny::Quinn(given))) && given
                            == error,
                        Poll::Pending => false,
                    })
                },
        forall|any: &mut WebTransportSendStreamAny<Q, W>, cx: &mut Context<'_>, buf: &[u8], result: Poll<Result<usize, WebTransportErrorAny<Q::Error, W::Error>>>|
            #[trigger] call_ensures(WebTransportSendStreamAny::<Q, W>::poll_write, (any, cx, buf), result) && *any is WebSocket ==> exists|
                inner: &mut W, context: &mut Context<'_>, own: Poll<Result<usize, W::Error>>,
            |
                {
                    &&& *inner == any->WebSocket_0
                    &&& *final(any) is WebSocket && final(any)->WebSocket_0 == *final(inner)
                    &&& *context == *cx
                    &&& #[trigger] call_ensures(W::poll_write, (inner, context, buf), own)
                    &&& (result is Pending <==> own is Pending) && (result is Pending || match own {
                        Poll::Ready(Ok(value)) => result matches Poll::Ready(Ok(given)) && given == value,
                        Poll::Ready(Err(error)) => result matches Poll::Ready(Err(WebTransportErrorAny::WebSocket(given))) && given
                            == error,
                        Poll::Pending => false,
                    })
                },
        forall|any: &mut WebTransportSendStreamAny<Q, W>, cx: &mut Context<'_>, buf: &mut Bytes, result: Poll<Result<usize, WebTransportErrorAny<Q::Error, W::Error>>>|
            #[trigger] call_ensures(WebTransportSendStreamAny::<Q, W>::poll_write_buf, (any, cx, buf), result) && *any is Quinn ==> exists|
                inner: &mut Q, context: &mut Context<'_>, data: &mut Bytes, own: Poll<Result<usize, Q::Error>>,
            |
                {
                    &&& *inner == any->Quinn_0
                    &&& *final(any) is Quinn && final(any)->Quinn_0 == *final(inner)
                    &&& *context == *cx
                    &&& *data == *buf && *final(data) == *final(buf)
                    &&& #[trigger] call_ensures(Q::poll_write_buf, (inner, context, data), own)
                    &&& (result is Pending <==> own is Pending) && (result is Pending || match own {
                        Poll::Ready(Ok(value)) => result matches Poll::Ready(Ok(given)) && given == value,
                        Poll::Ready(Err(error)) => result matches Poll::Ready(Err(WebTransportErrorAny::Quinn(given))) && given
                            == error,
                        Poll::Pending => false,
                    })
                },
        forall|any: &mut WebTransportSendStreamAny<Q, W>, cx: &mut Context<'_>, buf: &mut Bytes, result: Poll<Result<usize, WebTransportErrorAny<Q::Error, W::Error>>>|
            #[trigger] call_ensures(WebTransportSendStreamAny::<Q, W>::poll_write_buf, (any, cx, buf), result) && *any is WebSocket ==> exists|
                inner: &mut W, context: &mut Context<'_>, data: &mut Bytes, own: Poll<Result<usize, W::Error>>,
            |
                {
                    &&& *inner == any->WebSocket_0
                    &&& *final(any) is WebSocket && final(any)->WebSocket_0 == *final(inner)
                    &&& *context == *cx
                    &&& *data == *buf && *final(data) == *final(buf)
                    &&& #[trigger] call_ensures(W::poll_write_buf, (inner, context, data), own)
                    &&& (result is Pending <==> own is Pending) && (result is Pending || match own {
                        Poll::Ready(Ok(value)) => result matches Poll::Ready(Ok(given)) && given == value,
                        Poll::Ready(Err(error)) => result matches Poll::Ready(Err(WebTransportErrorAny::WebSocket(given))) && given
                            == error,
                        Poll::Pending => false,
                    })
                },
        forall|any: &mut WebTransportSendStreamAny<Q, W>, cx: &mut Context<'_>, result: Poll<Result<(), WebTransportErrorAny<Q::Error, W::Error>>>|
            #[trigger] call_ensures(WebTransportSendStreamAny::<Q, W>::poll_closed, (any, cx), result) && *any is Quinn ==> exists|
                inner: &mut Q, context: &mut Context<'_>, own: Poll<Result<(), Q::Error>>,
            |
                {
                    &&& *inner == any->Quinn_0
                    &&& *final(any) is Quinn && final(any)->Quinn_0 == *final(inner)
                    &&& *context == *cx
                    &&& #[trigger] call_ensures(Q::poll_closed, (inner, context), own)
                    &&& (result is Pending <==> own is Pending) && (result is Pending || match own {
                        Poll::Ready(Ok(value)) => result matches Poll::Ready(Ok(given)) && given == value,
                        Poll::Ready(Err(error)) => result matches Poll::Ready(Err(WebTransportErrorAny::Quinn(given))) && given
                            == error,
                        Poll::Pending => false,
                    })
                },
        forall|any: &mut WebTransportSendStreamAny<Q, W>, cx: &mut Context<'_>, result: Poll<Result<(), WebTransportErrorAny<Q::Error, W::Error>>>|
            #[trigger] call_ensures(WebTransportSendStreamAny::<Q, W>::poll_closed, (any, cx), result) && *any is WebSocket ==> exists|
                inner: &mut W, context: &mut Context<'_>, own: Poll<Result<(), W::Error>>,
            |
                {
                    &&& *inner == any->WebSocket_0
                    &&& *final(any) is WebSocket && final(any)->WebSocket_0 == *final(inner)
                    &&& *context == *cx
                    &&& #[trigger] call_ensures(W::poll_closed, (inner, context), own)
                    &&& (result is Pending <==> own is Pending) && (result is Pending || match own {
                        Poll::Ready(Ok(value)) => result matches Poll::Ready(Ok(given)) && given == value,
                        Poll::Ready(Err(error)) => result matches Poll::Ready(Err(WebTransportErrorAny::WebSocket(given))) && given
                            == error,
                        Poll::Pending => false,
                    })
                },
{
}

/// Polling an incoming stream over either transport polls that of the transport in use, with
/// the same arguments, and keeps the outcome.
pub proof fn law_an_incoming_stream_is_that_of_its_transport<Q: RecvStream, W: RecvStream>()
    ensures
        forall|any: &mut WebTransportRecvStreamAny<Q, W>, cx: &mut Context<'_>, dst: &mut [u8], result: Poll<Result<Option<usize>, WebTransportErrorAny<Q::Error, W::Error>>>|
            #[trigger] call_ensures(WebTransportRecvStreamAny::<Q, W>::poll_read, (any, cx, dst), result) && *any is Quinn ==> exists|
                inner: &mut Q, context: &mut Context<'_>, data: &mut [u8], own: Poll<Result<Option<usize>, Q::Error>>,
            |
                {
                    &&& *inner == any->Quinn_0
                    &&& *final(any) is Quinn && final(any)->Quinn_0 == *final(inner)
                    &&& *context == *cx
                    &&& data@ == dst@ && final(data)@ == final(dst)@
                    &&& #[trigger] call_ensures(Q::poll_read, (inner, context, data), own)
                    &&& (result is Pending <==> own is Pending) && (result is Pending || match own {
                        Poll::Ready(Ok(value)) => result matches Poll::Ready(Ok(given)) && given == value,
                        Poll::Ready(Err(error)) => result matches Poll::Ready(Err(WebTransportErrorAny::Quinn(given))) && given
                            == error,
                        Poll::Pending => false,
                    })
                },
        forall|any: &mut WebTransportRecvStreamAny<Q, W>, cx: &mut Context<'_>, dst: &mut [u8], result: Poll<Result<Option<usize>, WebTransportErrorAny<Q::Error, W::Error>>>|
            #[trigger] call_ensures(WebTransportRecvStreamAny::<Q, W>::poll_read, (any, cx, dst), result) && *any is WebSocket ==> exists|
                inner: &mut W, context: &mut Context<'_>, data: &mut [u8], own: Poll<Result<Option<usize>, W::Error>>,
            |
                {
                    &&& *inner == any->WebSocket_0
                    &&& *final(any) is WebSocket && final(any)->WebSocket_0 == *final(inner)
                    &&& *context == *cx
                    &&& data@ == dst@ && final(data)@ == final(dst)@
                    &&& #[trigger] call_ensures(W::poll_read, (inner, context, data), own)
                    &&& (result is Pending <==> own is Pending) && (result is Pending || match own {
                        Poll::Ready(Ok(value)) => result matches Poll::Ready(Ok(given)) && given == value,
                        Poll::Ready(Err(error)) => result matches Poll::Ready(Err(WebTransportErrorAny::WebSocket(given))) && given
                            == error,
                        Poll::Pending => false,
                    })
                },
        forall|any: &mut WebTransportRecvStreamAny<Q, W>, cx: &mut Context<'_>, result: Poll<Result<(), WebTransportErrorAny<Q::Error, W::Error>>>|
            #[trigger] call_ensures(WebTransportRecvStreamAny::<Q, W>::poll_closed, (any, cx), result) && *any is Quinn ==> exists|
                inner: &mut Q, context: &mut Context<'_>, own: Poll<Result<(), Q::Error>>,
            |
                {
                    &&& *inner == any->Quinn_0
                    &&& *final(any) is Quinn && final(any)->Quinn_0 == *final(inner)
                    &&& *context == *cx
                    &&& #[trigger] call_ensures(Q::poll_closed, (inner, context), own)
                    &&& (result is Pending <==> own is Pending) && (result is Pending || match own {
                        Poll::Ready(Ok(value)) => result matches Poll::Ready(Ok(given)) && given == value,
                        Poll::Ready(Err(error)) => result matches Poll::Ready(Err(WebTransportErrorAny::Quinn(given))) && given
                            == error,
                        Poll::Pending => false,
                    })
                },
        forall|any: &mut WebTransportRecvStreamAny<Q, W>, cx: &mut Context<'_>, result: Poll<Result<(), WebTransportErrorAny<Q::Error, W::Error>>>|
            #[trigger] call_ensures(WebTransportRecvStreamAny::<Q, W>::poll_closed, (any, cx), result) && *any is WebSocket ==> exists|
                inner: &mut W, context: &mut Context<'_>, own: Poll<Result<(), W::Error>>,
            |
                {
                    &&& *inner == any->WebSocket_0
                    &&& *final(any) is WebSocket && final(any)->WebSocket_0 == *final(inner)
                    &&& *context == *cx
                    &&& #[trigger] call_ensures(W::poll_closed, (inner, context), own)
                    &&& (result is Pending <==> own is Pending) && (result is Pending || match own {
                        Poll::Ready(Ok(value)) => result matches Poll::Ready(Ok(given)) && given == value,
                        Poll::Ready(Err(error)) => result matches Poll::Ready(Err(WebTransportErrorAny::WebSocket(given))) && given
                            == error,
                        Poll::Pending => false,
                    })
                },
{
}

/// Polling a session over either transport polls that of the transport in use, with the same
/// arguments; its streams and errors are those of that transport, and the outcome is kept.
pub proof fn law_a_session_is_that_of_its_transport<Q: Session, W: Session>()
    ensures
        forall|any: &mut WebTransportSessionAny<Q, W>, cx: &mut Context<'_>, result: Poll<Result<WebTransportRecvStreamAny<Q::RecvStream, W::RecvStream>, WebTransportErrorAny<Q::Error, W::Error>>>|
            #[trigger] call_ensures(WebTransportSessionAny::<Q, W>::poll_accept_uni, (any, cx), result) && *any is Quinn ==> exists|
                inner: &mut Q, context: &mut Context<'_>, own: Poll<Result<Q::RecvStream, Q::Error>>,
            |
                {
                    &&& *inner == any->Quinn_0
                    &&& *final(any) is Quinn && final(any)->Quinn_0 == *final(inner)
                    &&& *context == *cx
                    &&& #[trigger] call_ensures(Q::poll_accept_uni, (inner, context), own)
                    &&& (result is Pending <==> own is Pending) && (result is Pending || match own {
                        Poll::Ready(Ok(value)) => result matches Poll::Ready(Ok(WebTransportRecvStreamAny::Quinn(given))) && given
                            == value,
                        Poll::Ready(Err(error)) => result matches Poll::Ready(Err(WebTransportErrorAny::Quinn(given))) && given
                            == error,
                        Poll::Pending => false,
                    })
                },
        forall|any: &mut WebTransportSessionAny<Q, W>, cx: &mut Context<'_>, result: Poll<Result<WebTransportRecvStreamAny<Q::RecvStream, W::RecvStream>, WebTransportErrorAny<Q::Error, W::Error>>>|
            #[trigger] call_ensures(WebTransportSessionAny::<Q, W>::poll_accept_uni, (any, cx), result) && *any is WebSocket ==> exists|
                inner: &mut W, context: &mut Context<'_>, own: Poll<Result<W::RecvStream, W::Error>>,
            |
                {
                    &&& *inner == any->WebSocket_0
                    &&& *final(any) is WebSocket && final(any)->WebSocket_0 == *final(inner)
                    &&& *context == *cx
                    &&& #[trigger] call_ensures(W::poll_accept_uni, (inner, context), own)
                    &&& (result is Pending <==> own is Pending) && (result is Pending || match own {
                        Poll::Ready(Ok(value)) => result matches Poll::Ready(Ok(WebTransportRecvStreamAny::WebSocket(given))) && given
                            == value,
                        Poll::Ready(Err(error)) => result matches Poll::Ready(Err(WebTransportErrorAny::WebSocket(given))) && given
                            == error,
                        Poll::Pending => false,
                    })
                },
        forall|any: &mut WebTransportSessionAny<Q, W>, cx: &mut Context<'_>, result: Poll<Result<(WebTransportSendStreamAny<Q::SendStream, W::SendStream>, WebTransportRecvStreamAny<Q::RecvStream, W::RecvStream>), WebTransportErrorAny<Q::Error, W::Error>>>|
            #[trigger] call_ensures(WebTransportSessionAny::<Q, W>::poll_accept_bi, (any, cx), result) && *any is Quinn ==> exists|
                inner: &mut Q, context: &mut Context<'_>, own: Poll<Result<(Q::SendStream, Q::RecvStream), Q::Error>>,
            |
                {
                    &&& *inner == any->Quinn_0
                    &&& *final(any) is Quinn && final(any)->Quinn_0 == *final(inner)
                    &&& *context == *cx
                    &&& #[trigger] call_ensures(Q::poll_accept_bi, (inner, context), own)
                    &&& (result is Pending <==> own is Pending) && (result is Pending || match own {
                        Poll::Ready(Ok((s, r))) => result matches Poll::Ready(
                            Ok((WebTransportSendStreamAny::Quinn(send), WebTransportRecvStreamAny::Quinn(recv))),
                        ) && send == s && recv == r,
                        Poll::Ready(Err(error)) => result matches Poll::Ready(Err(WebTransportErrorAny::Quinn(given))) && given
                            == error,
                        Poll::Pending => false,
                    })
                },
        forall|any: &mut WebTransportSessionAny<Q, W>, cx: &mut Context<'_>, result: Poll<Result<(WebTransportSendStreamAny<Q::SendStream, W::SendStream>, WebTransportRecvStreamAny<Q::RecvStream, W::RecvStream>), WebTransportErrorAny<Q::Error, W::Error>>>|
            #[trigger] call_ensures(WebTransportSessionAny::<Q, W>::poll_accept_bi, (any, cx), result) && *any is WebSocket ==> exists|
                inner: &mut W, context: &mut Context<'_>, own: Poll<Result<(W::SendStream, W::RecvStream), W::Error>>,
            |
                {
                    &&& *inner == any->WebSocket_0
                    &&& *final(any) is WebSocket && final(any)->WebSocket_0 == *final(inner)
                    &&& *context == *cx
                    &&& #[trigger] call_ensures(W::poll_accept_bi, (inner, context), own)
                    &&& (result is Pending <==> own is Pending) && (result is Pending || match own {
                        Poll::Ready(Ok((s, r))) => result matches Poll::Ready(
                            Ok((WebTransportSendStreamAny::WebSocket(send), WebTransportRecvStreamAny::WebSocket(recv))),
                        ) && send == s && recv == r,
                        Poll::Ready(Err(error)) => result matches Poll::Ready(Err(WebTransportErrorAny::WebSocket(given))) && given
                            == error,
                        Poll::Pending => false,
                    })
                },
        forall|any: &mut WebTransportSessionAny<Q, W>, cx: &mut Context<'_>, result: Poll<Result<WebTransportSendStreamAny<Q::SendStream, W::SendStream>, WebTransportErrorAny<Q::Error, W::Error>>>|
            #[trigger] call_ensures(WebTransportSessionAny::<Q, W>::poll_open_uni, (any, cx), result) && *any is Quinn ==> exists|
                inner: &mut Q, context: &mut Context<'_>, own: Poll<Result<Q::SendStream, Q::Error>>,
            |
                {
                    &&& *inner == any->Quinn_0
                    &&& *final(any) is Quinn && final(any)->Quinn_0 == *final(inner)
                    &&& *context == *cx
                    &&& #[trigger] call_ensures(Q::poll_open_uni, (inner, context), own)
                    &&& (result is Pending <==> own is Pending) && (result is Pending || match own {
                        Poll::Ready(Ok(value)) => result matches Poll::Ready(Ok(WebTransportSendStreamAny::Quinn(given))) && given
                            == value,
                        Poll::Ready(Err(error)) => result matches Poll::Ready(Err(WebTransportErrorAny::Quinn(given))) && given
                            == error,
                        Poll::Pending => false,
                    })
                },
        forall|any: &mut WebTransportSessionAny<Q, W>, cx: &mut Context<'_>, result: Poll<Result<WebTransportSendStreamAny<Q::SendStream, W::SendStream>, WebTransportErrorAny<Q::Error, W::Error>>>|
            #[trigger] call_ensures(WebTransportSessionAny::<Q, W>::poll_open_uni, (any, cx), result) && *any is WebSocket ==> exists|
                inner: &mut W, context: &mut Context<'_>, own: Poll<Result<W::SendStream, W::Error>>,
            |
                {
                    &&& *inner == any->WebSocket_0
                    &&& *final(any) is WebSocket && final(any)->WebSocket_0 == *final(inner)
                    &&& *context == *cx
                    &&& #[trigger] call_ensures(W::poll_open_uni, (inner, context), own)
                    &&& (result is Pending <==> own is Pending) && (result is Pending || match own {
                        Poll::Ready(Ok(value)) => result matches Poll::Ready(Ok(WebTransportSendStreamAny::WebSocket(given))) && given
                            == value,
                        Poll::Ready(Err(error)) => result matches Poll::Ready(Err(WebTransportErrorAny::WebSocket(given))) && given
                            == error,
                        Poll::Pending => false,
                    })
                },
        forall|any: &mut WebTransportSessionAny<Q, W>, cx: &mut Context<'_>, result: Poll<Result<(WebTransportSendStreamAny<Q::SendStream, W::SendStream>, WebTransportRecvStreamAny<Q::RecvStream, W::RecvStream>), WebTransportErrorAny<Q::Error, W::Error>>>|
            #[trigger] call_ensures(WebTransportSessionAny::<Q, W>::poll_open_bi, (any, cx), result) && *any is Quinn ==> exists|
                inner: &mut Q, context: &mut Context<'_>, own: Poll<Result<(Q::SendStream, Q::RecvStream), Q::Error>>,
            |
                {
                    &&& *inner == any->Quinn_0
                    &&& *final(any) is Quinn && final(any)->Quinn_0 == *final(inner)
                    &&& *context == *cx
                    &&& #[trigger] call_ensures(Q::poll_open_bi, (inner, context), own)
                    &&& (result is Pending <==> own is Pending) && (result is Pending || match own {
                        Poll::Ready(Ok((s, r))) => result matches Poll::Ready(
                            Ok((WebTransportSendStreamAny::Quinn(send), WebTransportRecvStreamAny::Quinn(recv))),
                        ) && send == s && recv == r,
                        Poll::Ready(Err(error)) => result matches Poll::Ready(Err(WebTransportErrorAny::Quinn(given))) && given
                            == error,
                        Poll::Pending => false,
                    })
                },
        forall|any: &mut WebTransportSessionAny<Q, W>, cx: &mut Context<'_>, result: Poll<Result<(WebTransportSendStreamAny<Q::SendStream, W::SendStream>, WebTransportRecvStreamAny<Q::RecvStream, W::RecvStream>), WebTransportErrorAny<Q::Error, W::Error>>>|
            #[trigger] call_ensures(WebTransportSessionAny::<Q, W>::poll_open_bi, (any, cx), result) && *any is WebSocket ==> exists|
                inner: &mut W, context: &mut Context<'_>, own: Poll<Result<(W::SendStream, W::RecvStream), W::Error>>,
            |
                {
                    &&& *inner == any->WebSocket_0
                    &&& *final(any) is WebSocket && final(any)->WebSocket_0 == *final(inner)
                    &&& *context == *cx
                    &&& #[trigger] call_ensures(W::poll_open_bi, (inner, context), own)
                    &&& (result is Pending <==> own is Pending) && (result is Pending || match own {
                        Poll::Ready(Ok((s, r))) => result matches Poll::Ready(
                            Ok((WebTransportSendStreamAny::WebSocket(send), WebTransportRecvStreamAny::WebSocket(recv))),
                        ) && send == s && recv == r,
                        Poll::Ready(Err(error)) => result matches Poll::Ready(Err(WebTransportErrorAny::WebSocket(given))) && given
                            == error,
                        Poll::Pending => false,
                    })
                },
        forall|any: &mut WebTransportSessionAny<Q, W>, cx: &mut Context<'_>, payload: &[u8], result: Poll<Result<(), WebTransportErrorAny<Q::Error, W::Error>>>|
            #[trigger] call_ensures(WebTransportSessionAny::<Q, W>::poll_send_datagram, (any, cx, payload), result) && *any is Quinn ==> exists|
                inner: &mut Q, context: &mut Context<'_>, own: Poll<Result<(), Q::Error>>,
            |
                {
                    &&& *inner == any->Quinn_0
                    &&& *final(any) is Quinn && final(any)->Quinn_0 == *final(inner)
                    &&& *context == *cx
                    &&& #[trigger] call_ensures(Q::poll_send_datagram, (inner, context, payload), own)
                    &&& (result is Pending <==> own is Pending) && (result is Pending || match own {
                        Poll::Ready(Ok(value)) => result matches Poll::Ready(Ok(given)) && given == value,
                        Poll::Ready(Err(error)) => result matches Poll::Ready(Err(WebTransportErrorAny::Quinn(given))) && given
                            == error,
                        Poll::Pending => false,
                    })
                },
        forall|any: &mut WebTransportSessionAny<Q, W>, cx: &mut Context<'_>, payload: &[u8], result: Poll<Result<(), WebTransportErrorAny<Q::Error, W::Error>>>|
            #[trigger] call_ensures(WebTransportSessionAny::<Q, W>::poll_send_datagram, (any, cx, payload), result) && *any is WebSocket ==> exists|
                inner: &mut W, context: &mut Context<'_>, own: Poll<Result<(), W::Error>>,
            |
                {
                    &&& *inner == any->WebSocket_0
                    &&& *final(any) is WebSocket && final(any)->WebSocket_0 == *final(inner)
                    &&& *context == *cx
                    &&& #[trigger] call_ensures(W::poll_send_datagram, (inner, context, payload), own)
                    &&& (result is Pending <==> own is Pending) && (result is Pending || match own {
                        Poll::Ready(Ok(value)) => result matches Poll::Ready(Ok(given)) && given == value,
                        Poll::Ready(Err(error)) => result matches Poll::Ready(Err(WebTransportErrorAny::WebSocket(given))) && given
                            == error,
                        Poll::Pending => false,
                    })
                },
        forall|any: &mut WebTransportSessionAny<Q, W>, cx: &mut Context<'_>, result: Poll<Result<Bytes, WebTransportErrorAny<Q::Error, W::Error>>>|
            #[trigger] call_ensures(WebTransportSessionAny::<Q, W>::poll_recv_datagram, (any, cx), result) && *any is Quinn ==> exists|
                inner: &mut Q, context: &mut Context<'_>, own: Poll<Result<Bytes, Q::Error>>,
            |
                {
                    &&& *inner == any->Quinn_0
                    &&& *final(any) is Quinn && final(any)->Quinn_0 == *final(inner)
                    &&& *context == *cx
                    &&& #[trigger] call_ensures(Q::poll_recv_datagram, (inner, context), own)
                    &&& (result is Pending <==> own is Pending) && (result is Pending || match own {
                        Poll::Ready(Ok(value)) => result matches Poll::Ready(Ok(given)) && given == value,
                        Poll::Ready(Err(error)) => result matches Poll::Ready(Err(WebTransportErrorAny::Quinn(given))) && given
                            == error,
                        Poll::Pending => false,
                    })
                },
        forall|any: &mut WebTransportSessionAny<Q, W>, cx: &mut Context<'_>, result: Poll<Result<Bytes, WebTransportErrorAny<Q::Error, W::Error>>>|
            #[trigger] call_ensures(WebTransportSessionAny::<Q, W>::poll_recv_datagram, (any, cx), result) && *any is WebSocket ==> exists|
                inner: &mut W, context: &mut Context<'_>, own: Poll<Result<Bytes, W::Error>>,
            |
                {
                    &&& *inner == any->WebSocket_0
                    &&& *final(any) is WebSocket && final(any)->WebSocket_0 == *final(inner)
                    &&& *context == *cx
                    &&& #[trigger] call_ensures(W::poll_recv_datagram, (inner, context), own)
                    &&& (result is Pending <==> own is Pending) && (result is Pending || match own {
                        Poll::Ready(Ok(value)) => result matches Poll::Ready(Ok(given)) && given == value,
                        Poll::Ready(Err(error)) => result matches Poll::Ready(Err(WebTransportErrorAny::WebSocket(given))) && given
                            == error,
                        Poll::Pending => false,
                    })
                },
        forall|any: &mut WebTransportSessionAny<Q, W>, cx: &mut Context<'_>, result: Poll<WebTransportErrorAny<Q::Error, W::Error>>|
            #[trigger] call_ensures(WebTransportSessionAny::<Q, W>::poll_closed, (any, cx), result) && *any is Quinn ==> exists|
                inner: &mut Q, context: &mut Context<'_>, own: Poll<Q::Error>,
            |
                {
                    &&& *inner == any->Quinn_0
                    &&& *final(any) is Quinn && final(any)->Quinn_0 == *final(inner)
                    &&& *context == *cx
                    &&& #[trigger] call_ensures(Q::poll_closed, (inner, context), own)
                    &&& match own {
                        Poll::Ready(error) => result matches Poll::Ready(WebTransportErrorAny::Quinn(given)) && given == error,
                        Poll::Pending => result is Pending,
                    }
                },
        forall|any: &mut WebTransportSessionAny<Q, W>, cx: &mut Context<'_>, result: Poll<WebTransportErrorAny<Q::Error, W::Error>>|
            #[trigger] call_ensures(WebTransportSessionAny::<Q, W>::poll_closed, (any, cx), result) && *any is WebSocket ==> exists|
                inner: &mut W, context: &mut Context<'_>, own: Poll<W::Error>,
            |
                {
                    &&& *inner == any->WebSocket_0
                    &&& *final(any) is WebSocket && final(any)->WebSocket_0 == *final(inner)
                    &&& *context == *cx
                    &&& #[trigger] call_ensures(W::poll_closed, (inner, context), own)
                    &&& match own {
                        Poll::Ready(error) => result matches Poll::Ready(WebTransportErrorAny::WebSocket(given)) && given == error,
                        Poll::Pending => result is Pending,
                    }
                },
{
}

/// What an outgoing stream is told reaches the stream of the transport in use, as it was told.
pub proof fn law_a_command_reaches_an_outgoing_stream<Q: SendStream, W: SendStream>()
    ensures
        forall|any: &mut WebTransportSendStreamAny<Q, W>, order: i32|
            #[trigger] call_ensures(WebTransportSendStreamAny::<Q, W>::set_priority, (any, order), ()) && *any is Quinn
                ==> exists|inner: &mut Q|
                {
                    &&& *inner == any->Quinn_0
                    &&& *final(any) is Quinn && final(any)->Quinn_0 == *final(inner)
                    &&& #[trigger] call_ensures(Q::set_priority, (inner, order), ())
                },
        forall|any: &mut WebTransportSendStreamAny<Q, W>, order: i32|
            #[trigger] call_ensures(WebTransportSendStreamAny::<Q, W>::set_priority, (any, order), ()) && *any is WebSocket
                ==> exists|inner: &mut W|
                {
                    &&& *inner == any->WebSocket_0
                    &&& *final(any) is WebSocket && final(any)->WebSocket_0 == *final(inner)
                    &&& #[trigger] call_ensures(W::set_priority, (inner, order), ())
                },
        forall|any: &mut WebTransportSendStreamAny<Q, W>, code: u32|
            #[trigger] call_ensures(WebTransportSendStreamAny::<Q, W>::reset, (any, code), ()) && *any is Quinn
                ==> exists|inner: &mut Q|
                {
                    &&& *inner == any->Quinn_0
                    &&& *final(any) is Quinn && final(any)->Quinn_0 == *final(inner)
                    &&& #[trigger] call_ensures(Q::reset, (inner, code), ())
                },
        forall|any: &mut WebTransportSendStreamAny<Q, W>, code: u32|
            #[trigger] call_ensures(WebTransportSendStreamAny::<Q, W>::reset, (any, code), ()) && *any is WebSocket
                ==> exists|inner: &mut W|
                {
                    &&& *inner == any->WebSocket_0
                    &&& *final(any) is WebSocket && final(any)->WebSocket_0 == *final(inner)
                    &&& #[trigger] call_ensures(W::reset, (inner, code), ())
                },
{
}

/// What an incoming stream is told reaches the stream of the transport in use, as it was told.
pub proof fn law_a_command_reaches_an_incoming_stream<Q: RecvStream, W: RecvStream>()
    ensures
        forall|any: &mut WebTransportRecvStreamAny<Q, W>, code: u32|
            #[trigger] call_ensures(WebTransportRecvStreamAny::<Q, W>::stop, (any, code), ()) && *any is Quinn
                ==> exists|inner: &mut Q|
                {
                    &&& *inner == any->Quinn_0
                    &&& *final(any) is Quinn && final(any)->Quinn_0 == *final(inner)
                    &&& #[trigger] call_ensures(Q::stop, (inner, code), ())
                },
        forall|any: &mut WebTransportRecvStreamAny<Q, W>, code: u32|
            #[trigger] call_ensures(WebTransportRecvStreamAny::<Q, W>::stop, (any, code), ()) && *any is WebSocket
                ==> exists|inner: &mut W|
                {
                    &&& *inner == any->WebSocket_0
                    &&& *final(any) is WebSocket && final(any)->WebSocket_0 == *final(inner)
                    &&& #[trigger] call_ensures(W::stop, (inner, code), ())
                },
{
}

/// What a session is told reaches the session of the transport in use, as it was told.
pub proof fn law_a_command_reaches_a_session<Q: Session, W: Session>()
    ensures
        forall|any: &mut WebTransportSessionAny<Q, W>, code: u32, reason: &str|
            #[trigger] call_ensures(WebTransportSessionAny::<Q, W>::close, (any, code, reason), ()) && *any is Quinn
                ==> exists|inner: &mut Q|
                {
                    &&& *inner == any->Quinn_0
                    &&& *final(any) is Quinn && final(any)->Quinn_0 == *final(inner)
                    &&& #[trigger] call_ensures(Q::close, (inner, code, reason), ())
                },
        forall|any: &mut WebTransportSessionAny<Q, W>, code: u32, reason: &str|
            #[trigger] call_ensures(WebTransportSessionAny::<Q, W>::close, (any, code, reason), ()) && *any is WebSocket
                ==> exists|inner: &mut W|
                {
                    &&& *inner == any->WebSocket_0
                    &&& *final(any) is WebSocket && final(any)->WebSocket_0 == *final(inner)
                    &&& #[trigger] call_ensures(W::close, (inner, code, reason), ())
                },
{
}

/// Finishing a stream over either transport finishes that of the transport in use, and
/// succeeds exactly if that does.
pub proof fn law_finishing_reaches_the_stream<Q: SendStream, W: SendStream>()
    ensures
        forall|any: &mut WebTransportSendStreamAny<Q, W>, result: Result<(), WebTransportErrorAny<Q::Error, W::Error>>|
            #[trigger] call_ensures(WebTransportSendStreamAny::<Q, W>::finish, (any,), result) && *any is Quinn
                ==> exists|inner: &mut Q, own: Result<(), Q::Error>|
                {
                    &&& *inner == any->Quinn_0
                    &&& *final(any) is Quinn && final(any)->Quinn_0 == *final(inner)
                    &&& #[trigger] call_ensures(Q::finish, (inner,), own)
                    &&& result is Ok <==> own is Ok
                    &&& own matches Err(error) ==> result == Err::<(), WebTransportErrorAny<Q::Error, W::Error>>(WebTransportErrorAny::Quinn(error))
                },
        forall|any: &mut WebTransportSendStreamAny<Q, W>, result: Result<(), WebTransportErrorAny<Q::Error, W::Error>>|
            #[trigger] call_ensures(WebTransportSendStreamAny::<Q, W>::finish, (any,), result) && *any is WebSocket
                ==> exists|inner: &mut W, own: Result<(), W::Error>|
                {
                    &&& *inner == any->WebSocket_0
                    &&& *final(any) is WebSocket && final(any)->WebSocket_0 == *final(inner)
                    &&& #[trigger] call_ensures(W::finish, (inner,), own)
                    &&& result is Ok <==> own is Ok
                    &&& own matches Err(error) ==> result == Err::<(), WebTransportErrorAny<Q::Error, W::Error>>(WebTransportErrorAny::WebSocket(error))
                },
{
}

/// An error over either transport tells what the error of the transport in use tells.
pub proof fn law_an_error_tells_what_its_transport_tells<Q: Error, W: Error>()
    ensures
        forall|inner: Q, value: Option<(u32, String)>|
            #[trigger] call_ensures(
                WebTransportErrorAny::<Q, W>::session_error,
                (&WebTransportErrorAny::<Q, W>::Quinn(inner),),
                value,
            ) ==> call_ensures(Q::session_error, (&inner,), value),
        forall|inner: W, value: Option<(u32, String)>|
            #[trigger] call_ensures(
                WebTransportErrorAny::<Q, W>::session_error,
                (&WebTransportErrorAny::<Q, W>::WebSocket(inner),),
                value,
            ) ==> call_ensures(W::session_error, (&inner,), value),
        forall|inner: Q, value: Option<u32>|
            #[trigger] call_ensures(
                WebTransportErrorAny::<Q, W>::stream_error,
                (&WebTransportErrorAny::<Q, W>::Quinn(inner),),
                value,
            ) ==> call_ensures(Q::stream_error, (&inner,), value),
        forall|inner: W, value: Option<u32>|
            #[trigger] call_ensures(
                WebTransportErrorAny::<Q, W>::stream_error,
                (&WebTransportErrorAny::<Q, W>::WebSocket(inner),),
                value,
            ) ==> call_ensures(W::stream_error, (&inner,), value),
{
}

/// Statistics over either transport are those of the transport in use.
pub proof fn law_statistics_are_those_of_the_transport<Q: Stats, W: Stats>()
    ensures
        forall|inner: Q, value: Option<u64>|
            #[trigger] call_ensures(
                WebTransportStatsAny::<Q, W>::bytes_sent,
                (&WebTransportStatsAny::<Q, W>::Quinn(inner),),
                value,
            ) ==> call_ensures(Q::bytes_sent, (&inner,), value),
        forall|inner: W, value: Option<u64>|
            #[trigger] call_ensures(
                WebTransportStatsAny::<Q, W>::bytes_sent,
                (&WebTransportStatsAny::<Q, W>::WebSocket(inner),),
                value,
            ) ==> call_ensures(W::bytes_sent, (&inner,), value),
        forall|inner: Q, value: Option<u64>|
            #[trigger] call_ensures(
                WebTransportStatsAny::<Q, W>::bytes_received,
                (&WebTransportStatsAny::<Q, W>::Quinn(inner),),
                value,
            ) ==> call_ensures(Q::bytes_received, (&inner,), value),
        forall|inner: W, value: Option<u64>|
            #[trigger] call_ensures(
                WebTransportStatsAny::<Q, W>::bytes_received,
                (&WebTransportStatsAny::<Q, W>::WebSocket(inner),),
                value,
            ) ==> call_ensures(W::bytes_received, (&inner,), value),
        forall|inner: Q, value: Option<u64>|
            #[trigger] call_ensures(
                WebTransportStatsAny::<Q, W>::bytes_lost,
                (&WebTransportStatsAny::<Q, W>::Quinn(inner),),
                value,
            ) ==> call_ensures(Q::bytes_lost, (&inner,), value),
        forall|inner: W, value: Option<u64>|
            #[trigger] call_ensures(
                WebTransportStatsAny::<Q, W>::bytes_lost,
                (&WebTransportStatsAny::<Q, W>::WebSocket(inner),),
                value,
            ) ==> call_ensures(W::bytes_lost, (&inner,), value),
        forall|inner: Q, value: Option<u64>|
            #[trigger] call_ensures(
                WebTransportStatsAny::<Q, W>::packets_sent,
                (&WebTransportStatsAny::<Q, W>::Quinn(inner),),
                value,
            ) ==> call_ensures(Q::packets_sent, (&inner,), value),
        forall|inner: W, value: Option<u64>|
            #[trigger] call_ensures(
                WebTransportStatsAny::<Q, W>::packets_sent,
                (&WebTransportStatsAny::<Q, W>::WebSocket(inner),),
                value,
            ) ==> call_ensures(W::packets_sent, (&inner,), value),
        forall|inner: Q, value: Option<u64>|
            #[trigger] call_ensures(
                WebTransportStatsAny::<Q, W>::packets_received,
                (&WebTransportStatsAny::<Q, W>::Quinn(inner),),
                value,
            ) ==> call_ensures(Q::packets_received, (&inner,), value),
        forall|inner: W, value: Option<u64>|
            #[trigger] call_ensures(
                WebTransportStatsAny::<Q, W>::packets_received,
                (&WebTransportStatsAny::<Q, W>::WebSocket(inner),),
                value,
            ) ==> call_ensures(W::packets_received, (&inner,), value),
        forall|inner: Q, value: Option<u64>|
            #[trigger] call_ensures(
                WebTransportStatsAny::<Q, W>::packets_lost,
                (&WebTransportStatsAny::<Q, W>::Quinn(inner),),
                value,
            ) ==> call_ensures(Q::packets_lost, (&inner,), value),
        forall|inner: W, value: Option<u64>|
            #[trigger] call_ensures(
                WebTransportStatsAny::<Q, W>::packets_lost,
                (&WebTransportStatsAny::<Q, W>::WebSocket(inner),),
                value,
            ) ==> call_ensures(W::packets_lost, (&inner,), value),
        forall|inner: Q, value: Option<u64>|
            #[trigger] call_ensures(
                WebTransportStatsAny::<Q, W>::estimated_send_rate,
                (&WebTransportStatsAny::<Q, W>::Quinn(inner),),
                value,
            ) ==> call_ensures(Q::estimated_send_rate, (&inner,), value),
        forall|inner: W, value: Option<u64>|
            #[trigger] call_ensures(
                WebTransportStatsAny::<Q, W>::estimated_send_rate,
                (&WebTransportStatsAny::<Q, W>::WebSocket(inner),),
                value,
            ) ==> call_ensures(W::estimated_send_rate, (&inner,), value),
        forall|inner: Q, value: Option<Duration>|
            #[trigger] call_ensures(
                WebTransportStatsAny::<Q, W>::rtt,
                (&WebTransportStatsAny::<Q, W>::Quinn(inner),),
                value,
            ) ==> call_ensures(Q::rtt, (&inner,), value),
        forall|inner: W, value: Option<Duration>|
            #[trigger] call_ensures(
                WebTransportStatsAny::<Q, W>::rtt,
                (&WebTransportStatsAny::<Q, W>::WebSocket(inner),),
                value,
            ) ==> call_ensures(W::rtt, (&inner,), value),
{
}

/// What a session over either transport tells of itself is what the session of the transport
/// in use tells.
pub proof fn law_a_session_tells_what_its_transport_tells<Q: Session, W: Session>()
    ensures
        forall|inner: Q, size: usize|
            #[trigger] call_ensures(
                WebTransportSessionAny::<Q, W>::max_datagram_size,
                (&WebTransportSessionAny::<Q, W>::Quinn(inner),),
                size,
            ) ==> call_ensures(Q::max_datagram_size, (&inner,), size),
        forall|inner: Q, name: Option<&str>|
            #[trigger] call_ensures(
                WebTransportSessionAny::<Q, W>::protocol,
                (&WebTransportSessionAny::<Q, W>::Quinn(inner),),
                name,
            ) ==> call_ensures(Q::protocol, (&inner,), name),
        forall|inner: Q, stats: WebTransportStatsAny<Q::Stats, W::Stats>|
            #[trigger] call_ensures(
                WebTransportSessionAny::<Q, W>::stats,
                (&WebTransportSessionAny::<Q, W>::Quinn(inner),),
                stats,
            ) ==> stats is Quinn && call_ensures(Q::stats, (&inner,), stats->Quinn_0),
        forall|inner: W, size: usize|
            #[trigger] call_ensures(
                WebTransportSessionAny::<Q, W>::max_datagram_size,
                (&WebTransportSessionAny::<Q, W>::WebSocket(inner),),
                size,
            ) ==> call_ensures(W::max_datagram_size, (&inner,), size),
        forall|inner: W, name: Option<&str>|
            #[trigger] call_ensures(
                WebTransportSessionAny::<Q, W>::protocol,
                (&WebTransportSessionAny::<Q, W>::WebSocket(inner),),
                name,
            ) ==> call_ensures(W::protocol, (&inner,), name),
        forall|inner: W, stats: WebTransportStatsAny<Q::Stats, W::Stats>|
            #[trigger] call_ensures(
                WebTransportSessionAny::<Q, W>::stats,
                (&WebTransportSessionAny::<Q, W>::WebSocket(inner),),
                stats,
            ) ==> stats is WebSocket && call_ensures(W::stats, (&inner,), stats->WebSocket_0),
{
}

/// A session over QUIC is taken out as it was put in.
pub proof fn law_a_session_over_quic_is_taken_out_as_it_is<Q, W>(inner: Q, session: Q)
    requires
        call_ensures(
            WebTransportSessionAny::<Q, W>::into_quic,
            (WebTransportSessionAny::<Q, W>::Quinn(inner),),
            session,
        ),
    ensures
        session == inner,
{
}

} // verus!
