//! The `poll`-based surface of a WebTransport session and its streams.
//!
//! These traits describe a transport as a state machine that a caller steps from its own
//! loop, rather than a set of futures that a runtime drives. Two properties are
//! deliberate:
//!
//! - There is no `Send` or `Sync` bound, so that a transport pinned to one thread can
//!   implement them.
//! - Everything takes `&mut self`, and nothing requires `Clone`. Each handle has exactly
//!   one owner by construction, which is what makes retained in-progress state safe.
//!
//! A `poll_*` method may keep its own progress across calls, but nothing that belongs to
//! the caller: every call gets a fresh buffer, and a caller is free to retry a pending
//! write with a shorter one.

use bytes::Bytes;
use std::task::{Context, Poll};
use vstd::prelude::*;

use crate::payload::{as_slice, from_vec, payload};
use crate::traits::error::Error;
use crate::traits::stats::Stats;

verus! {

/// The most that is read at once where the caller sets no lower limit.
pub const MAX_READ: usize = 8192;

/// A buffer to read into, with a limit to how much it takes.
#[derive(Debug)]
pub struct ReadBuf {
    data: Vec<u8>,
    limit: usize,
    // The most that is offered to one read.
    step: usize,
}

impl View for ReadBuf {
    type V = Seq<u8>;

    closed spec fn view(&self) -> Seq<u8> {
        self.data@
    }
}

impl ReadBuf {
    /// How much the buffer takes in all.
    pub closed spec fn capacity(&self) -> nat {
        self.limit as nat
    }

    /// The most that the buffer offers to one read.
    pub closed spec fn step(&self) -> nat {
        self.step as nat
    }

    /// How much the buffer offers to the next read: its room, as far as it offers that
    /// much at once.
    pub open spec fn offered(&self) -> nat {
        if self.capacity() - self@.len() < self.step() {
            (self.capacity() - self@.len()) as nat
        } else {
            self.step()
        }
    }

    /// The buffer holds no more than it takes, and offers something while it has room.
    pub open spec fn wf(&self) -> bool {
        &&& self@.len() <= self.capacity()
        &&& self.capacity() > 0 ==> self.step() > 0
    }

    /// An empty buffer that takes up to `limit` bytes, and offers all of its room to
    /// every read.
    pub fn limited(limit: usize) -> (buf: Self)
        ensures
            buf.wf(),
            buf@ == Seq::<u8>::empty(),
            buf.capacity() == limit,
            buf.step() == limit,
    {
        ReadBuf { data: Vec::new(), limit, step: limit }
    }

    /// An empty buffer that takes whatever there is to read, some at a time.
    pub fn unlimited() -> (buf: Self)
        ensures
            buf.wf(),
            buf@ == Seq::<u8>::empty(),
            buf.capacity() == usize::MAX,
            buf.step() == MAX_READ,
    {
        ReadBuf { data: Vec::new(), limit: usize::MAX, step: MAX_READ }
    }

    /// How much more the buffer takes.
    pub fn room(&self) -> (room: usize)
        requires
            self.wf(),
        ensures
            room == self.capacity() - self@.len(),
    {
        self.limit - self.data.len()
    }

    /// How much the buffer offers to the next read.
    pub fn offer(&self) -> (len: usize)
        requires
            self.wf(),
        ensures
            len == self.offered(),
    {
        let room: usize = self.room();
        if room < self.step {
            room
        } else {
            self.step
        }
    }

    /// The bytes read so far.
    pub fn filled(&self) -> (data: &[u8])
        ensures
            data@ == self@,
    {
        self.data.as_slice()
    }

    /// Take over the bytes that a read left at the start of its destination.
    pub fn put(&mut self, dst: Vec<u8>, size: usize)
        requires
            old(self).wf(),
            size <= dst@.len(),
            old(self)@.len() + size <= old(self).capacity(),
        ensures
            final(self).wf(),
            final(self).capacity() == old(self).capacity(),
            final(self).step() == old(self).step(),
            final(self)@ == old(self)@ + dst@.take(size as int),
    {
        let mut dst = dst;
        dst.truncate(size);
        self.data.append(&mut dst);
    }

    /// Go on with what came of reading into `dst`.
    pub fn read<E>(&mut self, dst: Vec<u8>, result: Poll<Result<Option<usize>, E>>) -> (same: Poll<
        Result<Option<usize>, E>,
    >)
        requires
            old(self).wf(),
            old(self)@.len() + dst@.len() <= old(self).capacity(),
            result matches Poll::Ready(Ok(Some(size))) ==> size <= dst@.len(),
        ensures
            same == result,
            final(self).wf(),
            final(self).capacity() == old(self).capacity(),
            final(self).step() == old(self).step(),
            final(self)@ == match result {
                Poll::Ready(Ok(Some(size))) => old(self)@ + dst@.take(size as int),
                _ => old(self)@,
            },
    {
        if let Poll::Ready(Ok(Some(size))) = &result {
            self.put(dst, *size);
        }
        result
    }

    /// The bytes read, as a buffer of their own.
    pub fn freeze(self) -> (data: Bytes)
        ensures
            payload(data) == self@,
    {
        from_vec(self.data)
    }
}

fn zeroed(len: usize) -> (buf: Vec<u8>)
    ensures
        buf@.len() == len,
{
    let mut buf: Vec<u8> = Vec::new();
    buf.resize(len, 0);
    buf
}

/// Go on with what came of writing a buffer: what was written is taken off it.
pub fn wrote_buf<E>(buf: &mut Bytes, result: Poll<Result<usize, E>>) -> (same: Poll<Result<usize, E>>)
    requires
        result matches Poll::Ready(Ok(size)) ==> size <= payload(*old(buf)).len(),
    ensures
        same == result,
        payload(*final(buf)) == match result {
            Poll::Ready(Ok(size)) => payload(*old(buf)).skip(size as int),
            _ => payload(*old(buf)),
        },
{
    if let Poll::Ready(Ok(size)) = &result {
        let _ = buf.split_to(*size);
    }
    result
}

/// Go on with what came of writing the rest of `len` bytes from a position on: the
/// position moves by what was written. Returns whether that was all.
pub fn wrote<E>(len: usize, pos: &mut usize, result: Poll<Result<usize, E>>) -> (done: Poll<
    Result<bool, E>,
>)
    requires
        *old(pos) <= len,
        result matches Poll::Ready(Ok(size)) ==> size <= len - *old(pos),
    ensures
        match result {
            Poll::Ready(Ok(size)) => *final(pos) == *old(pos) + size && done == Poll::<
                Result<bool, E>,
            >::Ready(Ok(*old(pos) + size == len)),
            Poll::Ready(Err(error)) => *final(pos) == *old(pos) && done == Poll::<
                Result<bool, E>,
            >::Ready(Err(error)),
            Poll::Pending => *final(pos) == *old(pos) && done is Pending,
        },
{
    match result {
        Poll::Ready(Ok(size)) => {
            *pos = *pos + size;
            Poll::Ready(Ok(*pos == len))
        },
        Poll::Ready(Err(error)) => Poll::Ready(Err(error)),
        Poll::Pending => Poll::Pending,
    }
}

/// Go on with what came of reading into a buffer for a chunk: the chunk is what it holds.
pub fn read_chunk<E>(buf: ReadBuf, result: Poll<Result<Option<usize>, E>>) -> (chunk: Poll<
    Result<Option<Bytes>, E>,
>)
    ensures
        match result {
            Poll::Ready(Ok(Some(_))) => chunk matches Poll::Ready(Ok(Some(data))) && payload(data)
                == buf@,
            Poll::Ready(Ok(None)) => chunk == Poll::<Result<Option<Bytes>, E>>::Ready(Ok(None)),
            Poll::Ready(Err(error)) => chunk == Poll::<Result<Option<Bytes>, E>>::Ready(Err(error)),
            Poll::Pending => chunk is Pending,
        },
{
    match result {
        Poll::Ready(Ok(Some(_))) => Poll::Ready(Ok(Some(buf.freeze()))),
        Poll::Ready(Ok(None)) => Poll::Ready(Ok(None)),
        Poll::Ready(Err(error)) => Poll::Ready(Err(error)),
        Poll::Pending => Poll::Pending,
    }
}

/// Go on with what came of reading more into a buffer, given what room that left. Returns
/// whether that is over: the buffer is full, or the stream has no more.
pub fn read_more<E>(room: usize, result: Poll<Result<Option<usize>, E>>) -> (done: Poll<
    Result<bool, E>,
>)
    ensures
        done == match result {
            Poll::Ready(Ok(Some(size))) => Poll::<Result<bool, E>>::Ready(Ok(size == 0 || room == 0)),
            Poll::Ready(Ok(None)) => Poll::Ready(Ok(true)),
            Poll::Ready(Err(error)) => Poll::Ready(Err(error)),
            Poll::Pending => Poll::Pending,
        },
{
    match result {
        Poll::Ready(Ok(Some(size))) => Poll::Ready(Ok(size == 0 || room == 0)),
        Poll::Ready(Ok(None)) => Poll::Ready(Ok(true)),
        Poll::Ready(Err(error)) => Poll::Ready(Err(error)),
        Poll::Pending => Poll::Pending,
    }
}

/// The `poll`-based surface of an outgoing stream.
pub trait SendStream: Sized {
    /// The error type for every operation on this stream.
    type Error: Error;

    /// Poll to write some of the buffer to the stream, returning how many bytes were
    /// written.
    ///
    /// Those bytes, and no others, have been accepted for sending. Whether they reach the
    /// peer is a separate matter.
    fn poll_write(&mut self, cx: &mut Context<'_>, buf: &[u8]) -> (result: Poll<Result<usize, Self::Error>>)
        ensures
            result matches Poll::Ready(Ok(size)) ==> size <= buf@.len(),
    ;

    /// Poll to write some of the given buffer to the stream, taking what was written off
    /// it. This may be less than the whole buffer, so callers loop.
    ///
    /// A result other than success leaves the buffer as it was: callers race writes
    /// against other work, and a byte taken from it but never accepted would become a
    /// silent hole in the stream.
    ///
    /// As provided, this is one [`poll_write`](Self::poll_write) of the buffer's bytes.
    fn poll_write_buf(&mut self, cx: &mut Context<'_>, buf: &mut Bytes) -> (result: Poll<
        Result<usize, Self::Error>,
    >)
        ensures
            match result {
                Poll::Ready(Ok(size)) => size <= payload(*old(buf)).len() && payload(*final(buf))
                    == payload(*old(buf)).skip(size as int),
                _ => payload(*final(buf)) == payload(*old(buf)),
            },
        default_ensures
            exists|stream: &mut Self, context: &mut Context<'_>, data: &[u8]|
                {
                    &&& *stream == *old(self) && *final(stream) == *final(self)
                    &&& *context == *old(cx) && *final(context) == *final(cx)
                    &&& data@ == payload(*old(buf))
                    &&& #[trigger] call_ensures(Self::poll_write, (stream, context, data), result)
                },
    {
        let result = self.poll_write(cx, as_slice(buf));
        wrote_buf(buf, result)
    }

    /// Poll to write more of a slice that has been written up to a position, which moves
    /// by what was written. Returns whether all of it is written now.
    ///
    /// As provided, this is one [`poll_write`](Self::poll_write) of what is left, unless
    /// nothing is.
    fn poll_write_all(&mut self, cx: &mut Context<'_>, buf: &[u8], pos: &mut usize) -> (result: Poll<
        Result<bool, Self::Error>,
    >)
        requires
            *old(pos) <= buf@.len(),
        ensures
            *old(pos) <= *final(pos) <= buf@.len(),
            result matches Poll::Ready(Ok(done)) ==> done == (*final(pos) == buf@.len()),
            !(result matches Poll::Ready(Ok(_))) ==> *final(pos) == *old(pos),
            *old(pos) == buf@.len() ==> result matches Poll::Ready(Ok(_)),
        default_ensures
            *old(pos) == buf@.len() ==> *final(self) == *old(self),
            *old(pos) < buf@.len() ==> exists|
                stream: &mut Self,
                context: &mut Context<'_>,
                data: &[u8],
                own: Poll<Result<usize, Self::Error>>,
            |
                {
                    &&& *stream == *old(self) && *final(stream) == *final(self)
                    &&& *context == *old(cx) && *final(context) == *final(cx)
                    &&& data@ == buf@.skip(*old(pos) as int)
                    &&& #[trigger] call_ensures(Self::poll_write, (stream, context, data), own)
                    &&& match own {
                        Poll::Ready(Ok(size)) => *final(pos) == *old(pos) + size && result == Poll::<
                            Result<bool, Self::Error>,
                        >::Ready(Ok(*final(pos) == buf@.len())),
                        Poll::Ready(Err(error)) => result == Poll::<Result<bool, Self::Error>>::Ready(
                            Err(error),
                        ),
                        Poll::Pending => result is Pending,
                    }
                },
    {
        if *pos >= buf.len() {
            return Poll::Ready(Ok(true));
        }
        let rest = vstd::slice::slice_subrange(buf, *pos, buf.len());
        let result = self.poll_write(cx, rest);
        wrote(buf.len(), pos, result)
    }

    /// Poll to write more of a buffer, taking what was written off it. Returns whether
    /// all of it is written now.
    ///
    /// As provided, this is one [`poll_write_buf`](Self::poll_write_buf), unless the
    /// buffer is empty.
    fn poll_write_all_buf(&mut self, cx: &mut Context<'_>, buf: &mut Bytes) -> (result: Poll<
        Result<bool, Self::Error>,
    >)
        ensures
            result matches Poll::Ready(Ok(done)) ==> done == (payload(*final(buf)).len() == 0)
                && payload(*final(buf)).is_suffix_of(payload(*old(buf))),
            !(result matches Poll::Ready(Ok(_))) ==> payload(*final(buf)) == payload(*old(buf)),
            payload(*old(buf)).len() == 0 ==> result matches Poll::Ready(Ok(_)),
        default_ensures
            payload(*old(buf)).len() == 0 ==> *final(self) == *old(self),
            payload(*old(buf)).len() > 0 ==> exists|
                stream: &mut Self,
                context: &mut Context<'_>,
                data: &mut Bytes,
                own: Poll<Result<usize, Self::Error>>,
            |
                {
                    &&& *stream == *old(self) && *final(stream) == *final(self)
                    &&& *context == *old(cx) && *final(context) == *final(cx)
                    &&& *data == *old(buf) && *final(data) == *final(buf)
                    &&& #[trigger] call_ensures(Self::poll_write_buf, (stream, context, data), own)
                    &&& match own {
                        Poll::Ready(Ok(_)) => result == Poll::<Result<bool, Self::Error>>::Ready(
                            Ok(payload(*final(buf)).len() == 0),
                        ),
                        Poll::Ready(Err(error)) => result == Poll::<Result<bool, Self::Error>>::Ready(
                            Err(error),
                        ),
                        Poll::Pending => result is Pending,
                    }
                },
    {
        if buf.len() == 0 {
            return Poll::Ready(Ok(true));
        }
        match self.poll_write_buf(cx, buf) {
            Poll::Ready(Ok(_)) => {
                Poll::Ready(Ok(buf.len() == 0))
            },
            Poll::Ready(Err(error)) => Poll::Ready(Err(error)),
            Poll::Pending => Poll::Pending,
        }
    }

    /// Set the stream's priority.
    ///
    /// Streams with higher values will be sent first, but are not guaranteed to arrive
    /// first.
    fn set_priority(&mut self, order: i32);

    /// Mark the stream as finished, erroring on any future writes.
    fn finish(&mut self) -> Result<(), Self::Error>;

    /// Immediately closes the stream and discards any remaining data.
    fn reset(&mut self, code: u32);

    /// Poll until the stream is closed by either side.
    fn poll_closed(&mut self, cx: &mut Context<'_>) -> Poll<Result<(), Self::Error>>;
}

/// The `poll`-based surface of an incoming stream.
pub trait RecvStream: Sized {
    /// The error type for every operation on this stream.
    type Error: Error;

    /// Poll to read some data into the provided slice.
    ///
    /// Returns the number of bytes read, or `None` once the peer has finished the stream.
    /// An empty `dst` reads nothing and returns `Some(0)`: asking for no bytes is not
    /// end of stream.
    fn poll_read(&mut self, cx: &mut Context<'_>, dst: &mut [u8]) -> (result: Poll<
        Result<Option<usize>, Self::Error>,
    >)
        ensures
            final(dst)@.len() == old(dst)@.len(),
            result matches Poll::Ready(Ok(Some(size))) ==> size <= old(dst)@.len(),
    ;

    /// Poll to read some data into the provided buffer, returning the number of bytes
    /// read, or `None` once the peer has finished the stream.
    ///
    /// A buffer with no room is not a closed stream. Collapsing the two would turn
    /// "buffer full" into "stream ended", which reads as truncation.
    ///
    /// As provided, this is one [`poll_read`](Self::poll_read) into what the buffer
    /// offers, unless the buffer is full.
    fn poll_read_buf(&mut self, cx: &mut Context<'_>, buf: &mut ReadBuf) -> (result: Poll<
        Result<Option<usize>, Self::Error>,
    >)
        requires
            old(buf).wf(),
        ensures
            final(buf).wf(),
            final(buf).capacity() == old(buf).capacity(),
            final(buf).step() == old(buf).step(),
            old(buf)@.is_prefix_of(final(buf)@),
            final(buf)@.len() == old(buf)@.len() + match result {
                Poll::Ready(Ok(Some(size))) => size as nat,
                _ => 0,
            },
            old(buf)@.len() == old(buf).capacity() ==> result == Poll::<
                Result<Option<usize>, Self::Error>,
            >::Ready(Ok(Some(0))),
        default_ensures
            old(buf)@.len() == old(buf).capacity() ==> *final(self) == *old(self),
            old(buf)@.len() < old(buf).capacity() ==> exists|
                stream: &mut Self,
                context: &mut Context<'_>,
                dst: &mut [u8],
            |
                {
                    &&& *stream == *old(self) && *final(stream) == *final(self)
                    &&& *context == *old(cx) && *final(context) == *final(cx)
                    &&& dst@.len() == old(buf).offered()
                    &&& #[trigger] call_ensures(Self::poll_read, (stream, context, dst), result)
                    &&& final(buf)@ == match result {
                        Poll::Ready(Ok(Some(size))) => old(buf)@ + final(dst)@.take(size as int),
                        _ => old(buf)@,
                    }
                },
    {
        let len: usize = buf.offer();
        if len == 0 {
            return Poll::Ready(Ok(Some(0)));
        }
        let mut dst: Vec<u8> = zeroed(len);
        let result = self.poll_read(cx, dst.as_mut_slice());
        buf.read(dst, result)
    }

    /// Poll for the next chunk of data, up to `max` bytes.
    ///
    /// As provided, this is one [`poll_read`](Self::poll_read) of up to [`MAX_READ`]
    /// bytes, unless `max` is zero.
    fn poll_read_chunk(&mut self, cx: &mut Context<'_>, max: usize) -> (result: Poll<
        Result<Option<Bytes>, Self::Error>,
    >)
        ensures
            result matches Poll::Ready(Ok(Some(chunk))) ==> payload(chunk).len() <= max,
            max == 0 ==> result matches Poll::Ready(Ok(Some(_))),
        default_ensures
            max == 0 ==> *final(self) == *old(self),
            max > 0 ==> exists|
                stream: &mut Self,
                context: &mut Context<'_>,
                dst: &mut [u8],
                own: Poll<Result<Option<usize>, Self::Error>>,
            |
                {
                    &&& *stream == *old(self) && *final(stream) == *final(self)
                    &&& *context == *old(cx) && *final(context) == *final(cx)
                    &&& dst@.len() == if max < MAX_READ {
                        max
                    } else {
                        MAX_READ
                    }
                    &&& #[trigger] call_ensures(Self::poll_read, (stream, context, dst), own)
                    &&& match own {
                        Poll::Ready(Ok(Some(size))) => result matches Poll::Ready(Ok(Some(chunk)))
                            && payload(chunk) == final(dst)@.take(size as int),
                        Poll::Ready(Ok(None)) => result == Poll::<
                            Result<Option<Bytes>, Self::Error>,
                        >::Ready(Ok(None)),
                        Poll::Ready(Err(error)) => result == Poll::<
                            Result<Option<Bytes>, Self::Error>,
                        >::Ready(Err(error)),
                        Poll::Pending => result is Pending,
                    }
                },
    {
        // Asking for nothing is not end of stream.
        if max == 0 {
            return Poll::Ready(Ok(Some(Bytes::new())));
        }
        let len: usize = if max < MAX_READ {
            max
        } else {
            MAX_READ
        };
        let mut buf = ReadBuf::limited(len);
        let mut dst: Vec<u8> = zeroed(len);
        let result = self.poll_read(cx, dst.as_mut_slice());
        let result = buf.read(dst, result);
        read_chunk(buf, result)
    }

    /// Poll to read more into a buffer, returning whether that is over: the buffer is
    /// full, or the stream has no more.
    ///
    /// As provided, this is one [`poll_read_buf`](Self::poll_read_buf), unless the buffer
    /// is full.
    fn poll_read_all_buf(&mut self, cx: &mut Context<'_>, buf: &mut ReadBuf) -> (result: Poll<
        Result<bool, Self::Error>,
    >)
        requires
            old(buf).wf(),
        ensures
            final(buf).wf(),
            final(buf).capacity() == old(buf).capacity(),
            final(buf).step() == old(buf).step(),
            old(buf)@.is_prefix_of(final(buf)@),
            !(result matches Poll::Ready(Ok(_))) ==> final(buf)@ == old(buf)@,
            result matches Poll::Ready(Ok(done)) ==> (!done ==> final(buf)@.len() > old(buf)@.len()
                && final(buf)@.len() < final(buf).capacity()),
            final(buf)@.len() == final(buf).capacity() ==> result == Poll::<Result<bool, Self::Error>>::Ready(
                Ok(true),
            ) || final(buf)@ == old(buf)@,
        default_ensures
            old(buf)@.len() == old(buf).capacity() ==> *final(self) == *old(self) && result == Poll::<
                Result<bool, Self::Error>,
            >::Ready(Ok(true)),
            old(buf)@.len() < old(buf).capacity() ==> exists|
                stream: &mut Self,
                context: &mut Context<'_>,
                dst: &mut ReadBuf,
                own: Poll<Result<Option<usize>, Self::Error>>,
            |
                {
                    &&& *stream == *old(self) && *final(stream) == *final(self)
                    &&& *context == *old(cx) && *final(context) == *final(cx)
                    &&& *dst == *old(buf) && *final(dst) == *final(buf)
                    &&& #[trigger] call_ensures(Self::poll_read_buf, (stream, context, dst), own)
                    &&& result == match own {
                        Poll::Ready(Ok(Some(size))) => Poll::<Result<bool, Self::Error>>::Ready(
                            Ok(size == 0 || final(buf)@.len() == final(buf).capacity()),
                        ),
                        Poll::Ready(Ok(None)) => Poll::Ready(Ok(true)),
                        Poll::Ready(Err(error)) => Poll::Ready(Err(error)),
                        Poll::Pending => Poll::Pending,
                    }
                },
    {
        if buf.room() == 0 {
            return Poll::Ready(Ok(true));
        }
        let result = self.poll_read_buf(cx, buf);
        read_more(buf.room(), result)
    }

    /// Inform the peer that no more data will be read.
    fn stop(&mut self, code: u32);

    /// Poll until the stream has been closed by either side.
    fn poll_closed(&mut self, cx: &mut Context<'_>) -> Poll<Result<(), Self::Error>>;
}

/// The bytes of a write that the stream has accepted.
pub open spec fn written_part<E>(bytes: Seq<u8>, result: Poll<Result<usize, E>>) -> Seq<u8> {
    match result {
        Poll::Ready(Ok(size)) => bytes.take(size as int),
        _ => Seq::empty(),
    }
}

/// The bytes of a write that are left to be written.
pub open spec fn unwritten_part<E>(bytes: Seq<u8>, result: Poll<Result<usize, E>>) -> Seq<u8> {
    match result {
        Poll::Ready(Ok(size)) => bytes.skip(size as int),
        _ => bytes,
    }
}

/// The bytes that a read has put at the start of its destination.
pub open spec fn read_part<E>(dst: Seq<u8>, result: Poll<Result<Option<usize>, E>>) -> Seq<u8> {
    match result {
        Poll::Ready(Ok(Some(size))) => dst.take(size as int),
        _ => Seq::empty(),
    }
}

/// However little a stream accepts at a time, handing it a buffer again and again, each
/// time what is left of it, carries the buffer to the stream: what left the buffer is
/// what the stream accepted, in order, each byte once. So once the buffer is empty, the
/// stream has accepted all of it.
///
/// `accepted` is any account of the bytes that a stream has accepted which every
/// [`poll_write`](SendStream::poll_write) extends by what it reports.
pub proof fn law_a_buffer_reaches_the_stream<S: SendStream>(
    accepted: spec_fn(S) -> Seq<u8>,
    streams: Seq<S>,
    buffers: Seq<Seq<u8>>,
    results: Seq<Poll<Result<usize, S::Error>>>,
)
    requires
        forall|
            stream: &mut S,
            context: &mut Context<'_>,
            data: &[u8],
            result: Poll<Result<usize, S::Error>>,
        |
            #[trigger] call_ensures(S::poll_write, (stream, context, data), result) ==> accepted(
                *final(stream),
            ) == accepted(*stream) + written_part(data@, result),
        streams.len() == buffers.len() == results.len() + 1,
        forall|i: int|
            0 <= i < results.len() ==> {
                &&& buffers[i + 1] == unwritten_part(buffers[i], #[trigger] results[i])
                &&& exists|stream: &mut S, context: &mut Context<'_>, data: &[u8]|
                    {
                        &&& *stream == streams[i] && *final(stream) == streams[i + 1]
                        &&& data@ == buffers[i]
                        &&& #[trigger] call_ensures(S::poll_write, (stream, context, data), results[i])
                    }
            },
    ensures
        accepted(streams.last()) + buffers.last() == accepted(streams[0]) + buffers[0],
    decreases results.len(),
{
    if results.len() > 0 {
        let i = results.len() - 1;
        law_a_buffer_reaches_the_stream(accepted, streams.drop_last(), buffers.drop_last(), results.drop_last());
        let (left, more, rest) = (accepted(streams[i]), written_part(buffers[i], results[i]), buffers[i + 1]);
        assert(more + rest =~= buffers[i]);
        assert((left + more) + rest =~= left + (more + rest));
    }
}

/// Reading into a buffer again and again fills it with what the stream gave, in order,
/// each byte once.
///
/// `given` is any account of the bytes that a stream has given which every
/// [`poll_read`](RecvStream::poll_read) extends by what it reports.
pub proof fn law_a_buffer_gets_what_the_stream_gave<S: RecvStream>(
    given: spec_fn(S) -> Seq<u8>,
    streams: Seq<S>,
    buffers: Seq<Seq<u8>>,
    reads: Seq<(Seq<u8>, Poll<Result<Option<usize>, S::Error>>)>,
)
    requires
        forall|
            stream: &mut S,
            context: &mut Context<'_>,
            dst: &mut [u8],
            result: Poll<Result<Option<usize>, S::Error>>,
        |
            #[trigger] call_ensures(S::poll_read, (stream, context, dst), result) ==> given(*final(stream))
                == given(*stream) + read_part(final(dst)@, result),
        streams.len() == buffers.len() == reads.len() + 1,
        forall|i: int|
            0 <= i < reads.len() ==> {
                &&& buffers[i + 1] == buffers[i] + read_part((#[trigger] reads[i]).0, reads[i].1)
                &&& exists|stream: &mut S, context: &mut Context<'_>, dst: &mut [u8]|
                    {
                        &&& *stream == streams[i] && *final(stream) == streams[i + 1]
                        &&& final(dst)@ == reads[i].0
                        &&& #[trigger] call_ensures(S::poll_read, (stream, context, dst), reads[i].1)
                    }
            },
    ensures
        exists|more: Seq<u8>|
            given(streams.last()) == #[trigger] (given(streams[0]) + more) && buffers.last() == buffers[0] + more,
    decreases reads.len(),
{
    if reads.len() == 0 {
        let none = Seq::<u8>::empty();
        assert(given(streams.last()) =~= given(streams[0]) + none && buffers.last() =~= buffers[0] + none);
    } else {
        let i = reads.len() - 1;
        law_a_buffer_gets_what_the_stream_gave(given, streams.drop_last(), buffers.drop_last(), reads.drop_last());
        let earlier = choose|more: Seq<u8>|
            given(streams[i]) == #[trigger] (given(streams[0]) + more) && buffers[i] == buffers[0] + more;
        let last = read_part(reads[i].0, reads[i].1);
        assert(given(streams.last()) =~= given(streams[0]) + (earlier + last));
        assert(buffers.last() =~= buffers[0] + (earlier + last));
    }
}

/// The `poll`-based surface of a WebTransport session.
pub trait Session {
    /// The outgoing stream type.
    type SendStream: SendStream;

    /// The incoming stream type.
    type RecvStream: RecvStream;

    /// The error type for every operation on this session.
    type Error: Error;

    /// The statistics that the session keeps.
    type Stats: Stats;

    /// Poll for a unidirectional stream created by the peer.
    fn poll_accept_uni(&mut self, cx: &mut Context<'_>) -> Poll<Result<Self::RecvStream, Self::Error>>;

    /// Poll for a bidirectional stream created by the peer.
    fn poll_accept_bi(&mut self, cx: &mut Context<'_>) -> Poll<
        Result<(Self::SendStream, Self::RecvStream), Self::Error>,
    >;

    /// Poll to open a unidirectional stream, which blocks while there are too many
    /// concurrent streams.
    fn poll_open_uni(&mut self, cx: &mut Context<'_>) -> Poll<Result<Self::SendStream, Self::Error>>;

    /// Poll to open a bidirectional stream, which blocks while there are too many
    /// concurrent streams.
    fn poll_open_bi(&mut self, cx: &mut Context<'_>) -> Poll<
        Result<(Self::SendStream, Self::RecvStream), Self::Error>,
    >;

    /// Poll to send a datagram over the network, waiting while the transport has no room
    /// for it. Accepting a datagram is not delivery.
    fn poll_send_datagram(&mut self, cx: &mut Context<'_>, payload: &[u8]) -> Poll<Result<(), Self::Error>>;

    /// Poll for a datagram from the network.
    fn poll_recv_datagram(&mut self, cx: &mut Context<'_>) -> Poll<Result<Bytes, Self::Error>>;

    /// The maximum size of a datagram that can be sent.
    fn max_datagram_size(&self) -> usize;

    /// Return the application protocol negotiated for this session, if any.
    fn protocol(&self) -> Option<&str>;

    /// Close the connection immediately with a code and reason. Closing one that is
    /// closed already does nothing.
    fn close(&mut self, code: u32, reason: &str);

    /// Poll until the connection is closed by either side.
    fn poll_closed(&mut self, cx: &mut Context<'_>) -> Poll<Self::Error>;

    /// Return connection-level statistics.
    fn stats(&self) -> Self::Stats;
}

/// How much a write took, if it is over and went well.
pub open spec fn taken<E>(result: Poll<Result<usize, E>>) -> int {
    match result {
        Poll::Ready(Ok(size)) => size as int,
        _ => 0,
    }
}

/// How much a read gave, if it is over and gave anything.
pub open spec fn given<E>(result: Poll<Result<Option<usize>, E>>) -> int {
    match result {
        Poll::Ready(Ok(Some(size))) => size as int,
        _ => 0,
    }
}

/// Exactly what was written leaves a buffer, from the front, and the rest stays in order; a write
/// that fails or waits takes nothing. What came of it is passed on as it is.
pub proof fn law_only_what_was_written_leaves_a_buffer<E>()
    ensures
        forall|buf: &mut Bytes, result: Poll<Result<usize, E>>, same: Poll<Result<usize, E>>|
            #[trigger] call_ensures(wrote_buf::<E>, (buf, result), same) && taken(result) <= payload(*buf).len()
                ==> {
                let (before, after) = (payload(*buf), payload(*final(buf)));
                &&& same == result
                &&& after.len() + taken(result) == before.len()
                &&& forall|i: int| 0 <= i < after.len() ==> after[i] == before[taken(result) + i]
            },
        forall|len: usize, pos: &mut usize, result: Poll<Result<usize, E>>, done: Poll<Result<bool, E>>|
            #[trigger] call_ensures(wrote::<E>, (len, pos, result), done) ==> {
                &&& *final(pos) == *pos + taken(result)
                &&& done is Pending <==> result is Pending
                &&& done matches Poll::Ready(Ok(all)) ==> (all <==> *final(pos) == len)
                &&& result matches Poll::Ready(Err(error)) ==> done == Poll::<Result<bool, E>>::Ready(Err(error))
                &&& done matches Poll::Ready(Err(error)) ==> result == Poll::<Result<usize, E>>::Ready(Err(error))
            },
{
}

/// What a read gave is put behind what was read before, and nothing else is: a read that ends,
/// fails or waits leaves the buffer as it is. Its limits stay. What came of it is passed on as it
/// is.
pub proof fn law_what_was_read_is_put_behind_the_rest<E>()
    ensures
        forall|
            buf: &mut ReadBuf,
            dst: Vec<u8>,
            result: Poll<Result<Option<usize>, E>>,
            same: Poll<Result<Option<usize>, E>>,
        |
            #[trigger] call_ensures(ReadBuf::read::<E>, (buf, dst, result), same) && given(result) <= dst@.len()
                ==> same == result && puts(&*buf, &*final(buf), dst@, given(result)),
        forall|buf: &mut ReadBuf, dst: Vec<u8>, size: usize|
            #[trigger] call_ensures(ReadBuf::put, (buf, dst, size), ()) && size <= dst@.len() ==> puts(
                &*buf,
                &*final(buf),
                dst@,
                size as int,
            ),
{
}

/// A buffer with more in it than before, as many bytes from the front of another.
pub open spec fn puts(before: &ReadBuf, after: &ReadBuf, dst: Seq<u8>, size: int) -> bool {
    &&& after@.len() == before@.len() + size
    &&& forall|i: int| 0 <= i < before@.len() ==> after@[i] == before@[i]
    &&& forall|i: int| 0 <= i < size ==> after@[before@.len() + i] == dst[i]
    &&& after.capacity() == before.capacity() && after.step() == before.step()
}

/// A buffer has room for what it takes less what it holds. It offers something while it has room,
/// never more than that, and never more than it offers at once.
pub proof fn law_a_buffer_offers_no_more_than_its_room(buf: &ReadBuf, room: usize, offer: usize)
    requires
        buf.wf(),
        call_ensures(ReadBuf::room, (buf,), room),
        call_ensures(ReadBuf::offer, (buf,), offer),
    ensures
        room + buf@.len() == buf.capacity(),
        offer <= room && offer <= buf.step(),
        offer == room || offer == buf.step(),
        offer == 0 <==> room == 0,
{
}

/// A buffer is empty at first. One with a limit offers all of its room; one without takes as much
/// as there can be, eight kilobytes at a time. What it holds is what it is turned into.
pub proof fn law_a_buffer_is_turned_into_what_it_holds(limit: usize, buf: ReadBuf, offer: usize)
    ensures
        call_ensures(ReadBuf::limited, (limit,), buf) && call_ensures(ReadBuf::offer, (&buf,), offer)
            ==> buf@.len() == 0 && offer == limit,
        call_ensures(ReadBuf::unlimited, (), buf) && call_ensures(ReadBuf::offer, (&buf,), offer)
            ==> buf@.len() == 0 && offer == 8 * 1024 && buf.capacity() == usize::MAX,
        forall|data: &[u8]| #[trigger] call_ensures(ReadBuf::filled, (&buf,), data) ==> data@ == buf@,
        forall|data: Bytes| #[trigger] call_ensures(ReadBuf::freeze, (buf,), data) ==> payload(data) == buf@,
{
}

/// A chunk is what its buffer holds, where the read gave something; where the stream ended, the
/// read failed or waits, there is none, and for the same reason.
pub proof fn law_a_chunk_is_what_was_read<E>(
    buf: ReadBuf,
    result: Poll<Result<Option<usize>, E>>,
    chunk: Poll<Result<Option<Bytes>, E>>,
)
    requires
        call_ensures(read_chunk::<E>, (buf, result), chunk),
    ensures
        chunk is Pending <==> result is Pending,
        result matches Poll::Ready(Err(error)) ==> chunk == Poll::<Result<Option<Bytes>, E>>::Ready(Err(error)),
        chunk matches Poll::Ready(Err(error)) ==> result == Poll::<Result<Option<usize>, E>>::Ready(Err(error)),
        chunk == Poll::<Result<Option<Bytes>, E>>::Ready(Ok(None)) <==> result == Poll::<
            Result<Option<usize>, E>,
        >::Ready(Ok(None)),
        chunk matches Poll::Ready(Ok(Some(data))) ==> payload(data) == buf@,
{
}

/// Reading all of a stream is over when it has ended, when there is no more room, or when a read
/// gave nothing; it fails and waits exactly when the read does.
pub proof fn law_reading_goes_on_until_the_end<E>(
    room: usize,
    result: Poll<Result<Option<usize>, E>>,
    done: Poll<Result<bool, E>>,
)
    requires
        call_ensures(read_more::<E>, (room, result), done),
    ensures
        done is Pending <==> result is Pending,
        result matches Poll::Ready(Err(error)) ==> done == Poll::<Result<bool, E>>::Ready(Err(error)),
        done matches Poll::Ready(Err(error)) ==> result == Poll::<Result<Option<usize>, E>>::Ready(Err(error)),
        done matches Poll::Ready(Ok(over)) ==> (!over <==> room > 0 && given(result) > 0),
{
}

/// Whatever the stream, a write takes from a buffer no byte that it does not report, and says that
/// all is written exactly when nothing is left; one that fails or waits leaves everything.
pub proof fn law_a_write_reports_what_it_takes<S: SendStream>()
    ensures
        forall|stream: &mut S, cx: &mut Context<'_>, buf: &mut Bytes, result: Poll<Result<usize, S::Error>>|
            #[trigger] call_ensures(S::poll_write_buf, (stream, cx, buf), result) ==> {
                let (before, after) = (payload(*buf), payload(*final(buf)));
                &&& after.len() + taken(result) == before.len()
                &&& forall|i: int| 0 <= i < after.len() ==> after[i] == before[taken(result) + i]
            },
        forall|
            stream: &mut S,
            cx: &mut Context<'_>,
            buf: &[u8],
            pos: &mut usize,
            result: Poll<Result<bool, S::Error>>,
        |
            #[trigger] call_ensures(S::poll_write_all, (stream, cx, buf, pos), result) ==> {
                &&& *pos <= *final(pos) <= buf@.len()
                &&& *final(pos) > *pos ==> (result matches Poll::Ready(Ok(_)))
                &&& result matches Poll::Ready(Ok(all)) ==> (all <==> *final(pos) == buf@.len())
            },
        forall|stream: &mut S, cx: &mut Context<'_>, buf: &mut Bytes, result: Poll<Result<bool, S::Error>>|
            #[trigger] call_ensures(S::poll_write_all_buf, (stream, cx, buf), result) ==> {
                let (before, after) = (payload(*buf), payload(*final(buf)));
                &&& after.len() <= before.len()
                &&& after.len() < before.len() ==> (result matches Poll::Ready(Ok(_)))
                &&& forall|i: int| 0 <= i < after.len() ==> after[i] == before[before.len() - after.len() + i]
                &&& result matches Poll::Ready(Ok(all)) ==> (all <==> after.len() == 0)
            },
{
}

/// Whatever the stream, a read keeps what its buffer held, puts no more behind it than it reports,
/// and does not take a full buffer for the end of the stream.
pub proof fn law_a_read_reports_what_it_gives<S: RecvStream>()
    ensures
        forall|stream: &mut S, cx: &mut Context<'_>, buf: &mut ReadBuf, result: Poll<
            Result<Option<usize>, S::Error>,
        >|
            #[trigger] call_ensures(S::poll_read_buf, (stream, cx, buf), result) ==> {
                &&& final(buf)@.len() == buf@.len() + given(result)
                &&& final(buf)@.len() <= buf.capacity() == final(buf).capacity()
                &&& forall|i: int| 0 <= i < buf@.len() ==> final(buf)@[i] == buf@[i]
                &&& buf@.len() == buf.capacity() ==> (result matches Poll::Ready(Ok(Some(_))))
            },
        forall|stream: &mut S, cx: &mut Context<'_>, max: usize, result: Poll<Result<Option<Bytes>, S::Error>>|
            #[trigger] call_ensures(S::poll_read_chunk, (stream, cx, max), result) ==> {
                &&& result matches Poll::Ready(Ok(Some(chunk))) ==> payload(chunk).len() <= max
                &&& max == 0 ==> (result matches Poll::Ready(Ok(Some(_))))
            },
        forall|stream: &mut S, cx: &mut Context<'_>, buf: &mut ReadBuf, result: Poll<Result<bool, S::Error>>|
            #[trigger] call_ensures(S::poll_read_all_buf, (stream, cx, buf), result) ==> {
                &&& buf@.len() <= final(buf)@.len() <= buf.capacity() == final(buf).capacity()
                &&& forall|i: int| 0 <= i < buf@.len() ==> final(buf)@[i] == buf@[i]
                &&& final(buf)@.len() > buf@.len() ==> (result matches Poll::Ready(Ok(_)))
                &&& result matches Poll::Ready(Ok(over)) ==> (!over ==> buf@.len() < final(buf)@.len()
                    < buf.capacity())
            },
{
}

} // verus!
