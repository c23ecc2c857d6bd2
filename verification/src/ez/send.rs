//! The sending half of a stream.

use bytes::Bytes;
use std::collections::VecDeque;
use std::task::Poll;
use vstd::prelude::*;

use crate::ez::connection::{TransportError, TransportErrorKind};
use crate::ez::stream::{StreamError, StreamId};
use crate::payload::{as_slice, payload};

verus! {

/// The code of a stream that is dropped without being finished: "send" in ascii.
pub const DROP_CODE: u64 = 0x73656E64;

/// The sending half of a stream. `W` is what wakes a parked writer.
pub struct SendState<W> {
    id: StreamId,
    // The amount of data that is allowed to be written.
    capacity: usize,
    // Data ready to send; it has been taken off the capacity.
    queued: VecDeque<Bytes>,
    // The writer to wake when the stream is writable again.
    blocked: Option<W>,
    // The stream is to be finished.
    fin: bool,
    // The stream is to be reset.
    reset: Option<u64>,
    // The peer asked for the stream to stop.
    stop: Option<u64>,
    // The transport discarded the stream before it was asked anything, so the peer
    // stopped it but the code is gone. Terminal exactly like `stop`.
    gone: bool,
    // No more progress can be made on the stream.
    closed: bool,
}

/// What a [`SendState`] holds.
pub struct SendModel<W> {
    pub id: StreamId,
    pub capacity: usize,
    pub queued: Seq<Seq<u8>>,
    pub blocked: Option<W>,
    pub fin: bool,
    pub reset: Option<u64>,
    pub stop: Option<u64>,
    pub gone: bool,
    pub closed: bool,
}

/// What the transport is asked next for a stream that is being flushed.
pub enum FlushStep<W> {
    /// Reset the stream with a code.
    ShutDown(u64),
    /// Send the chunk at the front of the queue.
    Send,
    /// Report when at least one byte can be sent again.
    Writable,
    /// Finish the stream.
    Finish,
    /// Tell how much can be sent.
    Capacity,
    /// Nothing: the flush is over, and the writer given here is to be woken.
    Done(Option<W>),
    /// Nothing: the connection failed.
    Failed(TransportError),
}

/// What the transport answered.
pub enum FlushEvent {
    /// Nothing was asked yet.
    Start,
    /// To [`FlushStep::ShutDown`].
    ShutDown(Result<(), TransportError>),
    /// To [`FlushStep::Send`], with how much was sent.
    Sent(Result<usize, TransportError>),
    /// To [`FlushStep::Writable`].
    Writable(Result<(), TransportError>),
    /// To [`FlushStep::Finish`].
    Finished(Result<(), TransportError>),
    /// To [`FlushStep::Capacity`], with how much can be sent.
    Capacity(Result<usize, TransportError>),
}

impl<W> SendModel<W> {
    /// The error that ended the stream, unless it ended well or has not ended.
    pub open spec fn failure(self) -> Option<StreamError> {
        if let Some(code) = self.reset {
            Some(StreamError::Reset(code))
        } else if let Some(code) = self.stop {
            Some(StreamError::Stop(code))
        } else if self.gone {
            Some(StreamError::Closed)
        } else {
            None
        }
    }

    /// The error that a write gets.
    pub open spec fn refusal(self) -> Option<StreamError> {
        if self.failure() is None && self.fin {
            Some(StreamError::Closed)
        } else {
            self.failure()
        }
    }

    /// How much of `len` bytes a write takes.
    pub open spec fn accepts(self, len: nat) -> nat {
        if self.capacity < len {
            self.capacity as nat
        } else {
            len
        }
    }

    /// A write of `data`: its outcome and what it leaves.
    pub open spec fn write(self, waker: W, data: Seq<u8>) -> (SendModel<W>, Poll<
        Result<usize, StreamError>,
    >) {
        if let Some(error) = self.refusal() {
            (self, Poll::Ready(Err(error)))
        } else if self.capacity == 0 {
            (self.park(waker), Poll::Pending)
        } else {
            let n = self.accepts(data.len());
            (
                SendModel {
                    capacity: (self.capacity - n) as usize,
                    queued: self.queued.push(data.take(n as int)),
                    ..self
                },
                Poll::Ready(Ok(n as usize)),
            )
        }
    }

    /// A writer parked, in place of the one that was.
    pub open spec fn park(self, waker: W) -> SendModel<W> {
        SendModel { blocked: Some(waker), ..self }
    }

    /// The end of a flush that wakes the writer.
    pub open spec fn woken(self) -> (SendModel<W>, FlushStep<W>) {
        (SendModel { blocked: None, ..self }, FlushStep::Done(self.blocked))
    }

    /// The end of a flush that has closed the stream.
    pub open spec fn shut(self) -> (SendModel<W>, FlushStep<W>) {
        SendModel { closed: true, ..self }.woken()
    }

    /// The stream discarded, along with everything that was to be sent.
    pub open spec fn discarded(self) -> (SendModel<W>, FlushStep<W>) {
        SendModel { queued: Seq::empty(), capacity: 0, ..self }.shut()
    }

    /// What an error of the transport means for the stream.
    pub open spec fn ended_by(self, error: TransportError) -> (SendModel<W>, FlushStep<W>) {
        match error.kind {
            TransportErrorKind::StreamStopped(code) => SendModel {
                stop: Some(code),
                ..self
            }.discarded(),
            TransportErrorKind::Done | TransportErrorKind::InvalidStreamState(_) => SendModel {
                gone: true,
                ..self
            }.discarded(),
            TransportErrorKind::Other => (self, FlushStep::Failed(error)),
        }
    }

    /// What is asked once nothing more can be sent.
    pub open spec fn settled(self) -> (SendModel<W>, FlushStep<W>) {
        if self.queued.len() == 0 && self.fin {
            (self, FlushStep::Finish)
        } else {
            (self, FlushStep::Capacity)
        }
    }

    /// What is asked while there may be more to send.
    pub open spec fn draining(self) -> (SendModel<W>, FlushStep<W>) {
        if self.queued.len() > 0 {
            (self, FlushStep::Send)
        } else {
            self.settled()
        }
    }

    /// The transport took `n` bytes of the front chunk.
    pub open spec fn sent(self, n: nat) -> (SendModel<W>, FlushStep<W>) {
        let chunk = self.queued.first();
        let rest = self.queued.drop_first();
        if n < chunk.len() {
            (SendModel { queued: seq![chunk.skip(n as int)] + rest, ..self }, FlushStep::Writable)
        } else {
            SendModel { queued: rest, ..self }.draining()
        }
    }

    /// One step of a flush: what is left, and what to ask the transport next.
    pub open spec fn flush(self, event: FlushEvent) -> (SendModel<W>, FlushStep<W>) {
        match event {
            FlushEvent::Start => if let Some(code) = self.reset {
                (self, FlushStep::ShutDown(code))
            } else if self.stop is Some {
                self.woken()
            } else {
                self.draining()
            },
            FlushEvent::ShutDown(Ok(_)) => self.shut(),
            FlushEvent::ShutDown(Err(error)) => self.ended_by(error),
            FlushEvent::Sent(Ok(n)) => self.sent(n as nat),
            FlushEvent::Sent(Err(error)) => if error.kind is Done {
                self.sent(0)
            } else {
                SendModel { queued: self.queued.drop_first(), ..self }.ended_by(error)
            },
            FlushEvent::Writable(Ok(_)) => self.settled(),
            FlushEvent::Writable(Err(error)) => self.ended_by(error),
            FlushEvent::Finished(Ok(_)) => self.shut(),
            FlushEvent::Finished(Err(error)) => self.ended_by(error),
            FlushEvent::Capacity(Ok(n)) => {
                let known = SendModel { capacity: n, ..self };
                if self.queued.len() == 0 || n > 0 {
                    known.woken()
                } else {
                    (known, FlushStep::Done(None))
                }
            },
            FlushEvent::Capacity(Err(error)) => self.ended_by(error),
        }
    }
}

impl<W> View for SendState<W> {
    type V = SendModel<W>;

    closed spec fn view(&self) -> SendModel<W> {
        SendModel {
            id: self.id,
            capacity: self.capacity,
            queued: self.queued@.map_values(|chunk: Bytes| payload(chunk)),
            blocked: self.blocked,
            fin: self.fin,
            reset: self.reset,
            stop: self.stop,
            gone: self.gone,
            closed: self.closed,
        }
    }
}

impl<W> SendState<W> {
    /// A stream on which nothing was written and nothing may be yet.
    pub fn new(id: StreamId) -> (state: Self)
        ensures
            state@ == (SendModel::<W> {
                id,
                capacity: 0,
                queued: Seq::empty(),
                blocked: None,
                fin: false,
                reset: None,
                stop: None,
                gone: false,
                closed: false,
            }),
    {
        let state = SendState {
            id,
            capacity: 0,
            queued: VecDeque::new(),
            blocked: None,
            fin: false,
            reset: None,
            stop: None,
            gone: false,
            closed: false,
        };
        assert(state@.queued =~= Seq::<Seq<u8>>::empty());
        state
    }

    /// The error that ended the stream, unless it ended well or has not ended.
    fn failed(&self) -> (error: Option<StreamError>)
        ensures
            error == self@.failure(),
    {
        if let Some(code) = self.reset {
            Some(StreamError::Reset(code))
        } else if let Some(code) = self.stop {
            Some(StreamError::Stop(code))
        } else if self.gone {
            Some(StreamError::Closed)
        } else {
            None
        }
    }

    /// Write some of the buffer to the stream, taking what was written off it.
    ///
    /// Returns the number of bytes written for convenience.
    pub fn poll_write_buf(&mut self, waker: W, buf: &mut Bytes) -> (result: Poll<Result<usize, StreamError>>)
        ensures
            (final(self)@, result) == old(self)@.write(waker, payload(*old(buf))),
            payload(*final(buf)) == match result {
                Poll::Ready(Ok(n)) => payload(*old(buf)).skip(n as int),
                _ => payload(*old(buf)),
            },
    {
        if let Some(error) = self.failed() {
            return Poll::Ready(Err(error));
        }
        if self.fin {
            return Poll::Ready(Err(StreamError::Closed));
        }
        if self.capacity == 0 {
            // A stream has a single writer, so one slot is enough here.
            self.blocked = Some(waker);
            return Poll::Pending;
        }
        let n: usize = if self.capacity < buf.len() {
            self.capacity
        } else {
            buf.len()
        };
        let chunk = buf.split_to(n);
        self.capacity = self.capacity - n;
        self.queued.push_back(chunk);
        assert(self@.queued =~= old(self)@.queued.push(payload(chunk)));
        Poll::Ready(Ok(n))
    }

    /// Write some of a slice to the stream, returning the size written.
    pub fn poll_write(&mut self, waker: W, buf: &[u8]) -> (result: Poll<Result<usize, StreamError>>)
        ensures
            (final(self)@, result) == old(self)@.write(waker, buf@),
    {
        let mut buf = Bytes::copy_from_slice(buf);
        self.poll_write_buf(waker, &mut buf)
    }

    /// Poll until the stream is closed by either side.
    pub fn poll_closed(&mut self, waker: W) -> (result: Poll<Result<(), StreamError>>)
        ensures
            result == (match old(self)@.failure() {
                Some(error) => Poll::Ready(Err(error)),
                None => if old(self)@.closed {
                    Poll::Ready(Ok(()))
                } else {
                    Poll::Pending
                },
            }),
            final(self)@ == if result is Pending {
                old(self)@.park(waker)
            } else {
                old(self)@
            },
    {
        if let Some(error) = self.failed() {
            return Poll::Ready(Err(error));
        }
        if self.closed {
            // The stream has been finished already.
            return Poll::Ready(Ok(()));
        }
        self.blocked = Some(waker);
        Poll::Pending
    }

    /// Poll until everything written has been handed to the transport.
    ///
    /// A queue that was discarded rather than sent is no successful flush: that would
    /// tell the application that its bytes reached the peer.
    pub fn poll_flushed(&mut self, waker: W) -> (result: Poll<Result<(), StreamError>>)
        ensures
            result == (match old(self)@.failure() {
                Some(error) => Poll::Ready(Err(error)),
                None => if old(self)@.queued.len() == 0 {
                    Poll::Ready(Ok(()))
                } else {
                    Poll::Pending
                },
            }),
            final(self)@ == if result is Pending {
                old(self)@.park(waker)
            } else {
                old(self)@
            },
    {
        if let Some(error) = self.failed() {
            return Poll::Ready(Err(error));
        }
        if self.queued.len() == 0 {
            return Poll::Ready(Ok(()));
        }
        self.blocked = Some(waker);
        Poll::Pending
    }

    /// Close this stream in response to an error of the transport, or propagate a
    /// genuine connection error.
    ///
    /// The transport reports the end of an individual stream through errors on
    /// otherwise ordinary calls. Those mean that this stream is over; none of them mean
    /// that the connection is, and promoting one would tear down every other stream.
    fn closed_by(&mut self, error: TransportError) -> (step: FlushStep<W>)
        ensures
            (final(self)@, step) == old(self)@.ended_by(error),
    {
        match error.kind {
            TransportErrorKind::StreamStopped(code) => {
                self.stop = Some(code);
            },
            TransportErrorKind::Done | TransportErrorKind::InvalidStreamState(_) => {
                // Only a peer stopping it gets a live stream collected, so this is a
                // stop whose code is gone. The application's bytes never left.
                self.gone = true;
            },
            TransportErrorKind::Other => {
                return FlushStep::Failed(error);
            },
        }
        // Nothing here will ever be flushed again: leaving bytes queued would park a
        // flush forever, and leaving capacity behind would let writes accumulate.
        self.queued.clear();
        self.capacity = 0;
        self.closed = true;
        assert(self@.queued =~= Seq::<Seq<u8>>::empty());
        FlushStep::Done(self.blocked.take())
    }

    /// The chunk to send next.
    pub fn next_chunk(&self) -> (chunk: Option<&[u8]>)
        ensures
            chunk is Some <==> self@.queued.len() > 0,
            chunk matches Some(data) ==> data@ == self@.queued.first(),
    {
        if self.queued.len() == 0 {
            None
        } else {
            Some(as_slice(&self.queued[0]))
        }
    }

    fn settle(&self) -> (step: FlushStep<W>)
        ensures
            (self@, step) == self@.settled(),
    {
        if self.queued.len() == 0 && self.fin {
            FlushStep::Finish
        } else {
            FlushStep::Capacity
        }
    }

    fn drain(&self) -> (step: FlushStep<W>)
        ensures
            (self@, step) == self@.draining(),
    {
        if self.queued.len() > 0 {
            FlushStep::Send
        } else {
            self.settle()
        }
    }

    fn sent(&mut self, n: usize) -> (step: FlushStep<W>)
        requires
            old(self)@.queued.len() > 0,
        ensures
            (final(self)@, step) == old(self)@.sent(n as nat),
    {
        if let Some(mut chunk) = self.queued.pop_front() {
            assert(self@.queued =~= old(self)@.queued.drop_first());
            if n < chunk.len() {
                let remaining = chunk.split_off(n);
                self.queued.push_front(remaining);
                assert(self@.queued =~= seq![payload(remaining)] + old(self)@.queued.drop_first());
                return FlushStep::Writable;
            }
        }
        self.drain()
    }

    /// Take one step of flushing the stream to the transport: `event` is what came of
    /// the last step, and the result is what to do next.
    ///
    /// Data goes first, in the order in which it was written. Once none is left, the
    /// stream is finished if it was asked to be.
    pub fn flush(&mut self, event: FlushEvent) -> (step: FlushStep<W>)
        requires
            event is Sent ==> old(self)@.queued.len() > 0,
        ensures
            (final(self)@, step) == old(self)@.flush(event),
    {
        match event {
            FlushEvent::Start => {
                if let Some(code) = self.reset {
                    return FlushStep::ShutDown(code);
                }
                // A stop is the end of the stream: it is still to be told of afterwards.
                if self.stop.is_some() {
                    return FlushStep::Done(self.blocked.take());
                }
                self.drain()
            },
            FlushEvent::ShutDown(Ok(_)) | FlushEvent::Finished(Ok(_)) => {
                self.closed = true;
                FlushStep::Done(self.blocked.take())
            },
            FlushEvent::Sent(Ok(n)) => self.sent(n),
            FlushEvent::Sent(Err(error)) => {
                if let TransportErrorKind::Done = error.kind {
                    // Out of connection-level capacity, so retry once writable again.
                    // The same error also covers a collected stream, which asking for
                    // the stream to be writable reports as gone.
                    self.sent(0)
                } else {
                    let _ = self.queued.pop_front();
                    assert(self@.queued =~= old(self)@.queued.drop_first());
                    self.closed_by(error)
                }
            },
            FlushEvent::Writable(Ok(_)) => self.settle(),
            FlushEvent::Capacity(Ok(n)) => {
                self.capacity = n;
                // A flush waiter can make progress as soon as the queue has drained,
                // even if there is no capacity available for another write.
                if self.queued.len() == 0 || n > 0 {
                    FlushStep::Done(self.blocked.take())
                } else {
                    FlushStep::Done(None)
                }
            },
            FlushEvent::ShutDown(Err(error))
            | FlushEvent::Writable(Err(error))
            | FlushEvent::Finished(Err(error))
            | FlushEvent::Capacity(Err(error)) => self.closed_by(error),
        }
    }

    /// Mark the stream as finished, such that no more data can be written.
    pub fn finish(&mut self) -> (result: Result<(), StreamError>)
        ensures
            old(self)@.refusal() matches Some(error) ==> result == Err::<(), StreamError>(error)
                && final(self)@ == old(self)@,
            old(self)@.refusal() is None ==> result is Ok && final(self)@ == (SendModel {
                fin: true,
                ..old(self)@
            }),
    {
        if let Some(error) = self.failed() {
            return Err(error);
        }
        if self.fin {
            return Err(StreamError::Closed);
        }
        self.fin = true;
        Ok(())
    }

    /// Whether the stream has been finished, or has been closed by the peer. A stream
    /// that was reset is neither.
    pub fn is_finished(&self) -> (result: Result<bool, StreamError>)
        ensures
            result == (match self@.reset {
                Some(code) => Err(StreamError::Reset(code)),
                None => Ok(self@.fin || self@.stop is Some || self@.gone),
            }),
    {
        match self.reset {
            Some(code) => Err(StreamError::Reset(code)),
            None => Ok(self.fin || self.stop.is_some() || self.gone),
        }
    }

    /// Finish the stream unless it has been already, reporting whether this did it.
    pub fn shut_down(&mut self) -> (result: Result<bool, StreamError>)
        ensures
            result == (match old(self)@.failure() {
                Some(error) => Err(error),
                None => Ok(!old(self)@.fin),
            }),
            final(self)@ == if result is Ok {
                SendModel { fin: true, ..old(self)@ }
            } else {
                old(self)@
            },
    {
        if let Some(error) = self.failed() {
            return Err(error);
        }
        if self.fin {
            return Ok(false);
        }
        self.fin = true;
        Ok(true)
    }

    /// Abruptly reset the stream with an error code.
    pub fn reset(&mut self, code: u64)
        ensures
            final(self)@ == (SendModel { reset: Some(code), ..old(self)@ }),
    {
        self.reset = Some(code);
    }

    /// Reset the stream if it is dropped without having been finished or having ended,
    /// reporting whether it was.
    pub fn abandon(&mut self) -> (reset: bool)
        ensures
            reset == (old(self)@.refusal() is None),
            final(self)@ == if reset {
                SendModel { reset: Some(DROP_CODE), ..old(self)@ }
            } else {
                old(self)@
            },
    {
        if !self.fin && !self.gone && self.reset.is_none() && self.stop.is_none() {
            self.reset = Some(DROP_CODE);
            true
        } else {
            false
        }
    }

    /// Whether no more progress can be made on the stream.
    pub fn is_closed(&self) -> (closed: bool)
        ensures
            closed == self@.closed,
    {
        self.closed
    }

    /// The stream's identifier.
    pub fn id(&self) -> (id: StreamId)
        ensures
            id == self@.id,
    {
        self.id
    }
}

/// What happens to a stream between being opened and being closed.
pub enum SendOp<W> {
    /// The application writes.
    Write(W, Seq<u8>),
    /// The application finishes the stream.
    Finish,
    /// The transport answers.
    Flush(FlushEvent),
}

impl<W> SendModel<W> {
    /// The bytes that are queued, in order.
    pub open spec fn bytes(self) -> Seq<u8> {
        self.queued.flatten()
    }

    /// The peer has neither stopped the stream nor has it been discarded.
    pub open spec fn live(self) -> bool {
        self.stop is None && !self.gone
    }

    /// The stream after an operation.
    pub open spec fn after(self, op: SendOp<W>) -> SendModel<W> {
        match op {
            SendOp::Write(waker, data) => self.write(waker, data).0,
            SendOp::Finish => if self.refusal() is None {
                SendModel { fin: true, ..self }
            } else {
                self
            },
            SendOp::Flush(event) => self.flush(event).0,
        }
    }

    /// The bytes that an operation accepts from the application.
    pub open spec fn accepted(self, op: SendOp<W>) -> Seq<u8> {
        match op {
            SendOp::Write(waker, data) => match self.write(waker, data).1 {
                Poll::Ready(Ok(n)) => data.take(n as int),
                _ => Seq::empty(),
            },
            _ => Seq::empty(),
        }
    }

    /// The bytes that an operation leaves with the transport.
    pub open spec fn delivered(self, op: SendOp<W>) -> Seq<u8> {
        match op {
            SendOp::Flush(FlushEvent::Sent(Ok(n))) => self.queued.first().take(n as int),
            _ => Seq::empty(),
        }
    }

    /// The transport sends no more than it was given, and the connection holds.
    pub open spec fn allows(self, op: SendOp<W>) -> bool {
        match op {
            SendOp::Flush(FlushEvent::Sent(Ok(n))) => self.queued.len() > 0 && n <= self.queued.first().len(),
            SendOp::Flush(FlushEvent::Sent(Err(_))) => self.queued.len() > 0 && !(self.flush(
                op->Flush_0,
            ).1 is Failed),
            _ => true,
        }
    }

    /// The stream after a series of operations.
    pub open spec fn run(self, ops: Seq<SendOp<W>>) -> SendModel<W>
        decreases ops.len(),
    {
        if ops.len() == 0 {
            self
        } else {
            self.after(ops.first()).run(ops.drop_first())
        }
    }

    /// The bytes that a series of operations accepts.
    pub open spec fn accepted_over(self, ops: Seq<SendOp<W>>) -> Seq<u8>
        decreases ops.len(),
    {
        if ops.len() == 0 {
            Seq::empty()
        } else {
            self.accepted(ops.first()) + self.after(ops.first()).accepted_over(ops.drop_first())
        }
    }

    /// The bytes that a series of operations leaves with the transport.
    pub open spec fn delivered_over(self, ops: Seq<SendOp<W>>) -> Seq<u8>
        decreases ops.len(),
    {
        if ops.len() == 0 {
            Seq::empty()
        } else {
            self.delivered(ops.first()) + self.after(ops.first()).delivered_over(ops.drop_first())
        }
    }

    /// A series of operations throughout which the stream is live.
    pub open spec fn live_over(self, ops: Seq<SendOp<W>>) -> bool
        decreases ops.len(),
    {
        &&& self.live()
        &&& ops.len() > 0 ==> self.allows(ops.first()) && self.after(ops.first()).live_over(ops.drop_first())
    }
}

/// One operation on a live stream loses no byte and invents none: what was queued, with
/// what the operation accepted, is what the transport got, with what is queued now.
pub proof fn law_an_operation_conserves_bytes<W>(model: SendModel<W>, op: SendOp<W>)
    requires
        model.live(),
        model.allows(op),
        model.after(op).live(),
    ensures
        model.bytes() + model.accepted(op) == model.delivered(op) + model.after(op).bytes(),
{
    match op {
        SendOp::Write(waker, data) => {
            let n = model.accepts(data.len());
            model.queued.lemma_flatten_push(data.take(n as int));
            assert(model.bytes() + model.accepted(op) =~= model.delivered(op) + model.after(op).bytes());
        },
        SendOp::Flush(FlushEvent::Sent(result)) => {
            let n: nat = if let Ok(n) = result { n as nat } else { 0 };
            let chunk = model.queued.first();
            let rest = model.queued.drop_first();
            if n < chunk.len() {
                let left = seq![chunk.skip(n as int)] + rest;
                assert(left.drop_first() =~= rest);
                assert(left.first() == chunk.skip(n as int));
                assert(chunk =~= chunk.take(n as int) + chunk.skip(n as int));
            } else {
                assert(chunk.take(n as int) =~= chunk);
            }
            assert(model.bytes() + model.accepted(op) =~= model.delivered(op) + model.after(op).bytes());
        },
        _ => {
            assert(model.bytes() + model.accepted(op) =~= model.delivered(op) + model.after(op).bytes());
        },
    }
}

/// However a live stream is written to and flushed, the transport gets the bytes that
/// were accepted, in order, each once; those it has not got yet are still queued.
pub proof fn law_bytes_reach_the_transport_in_order<W>(model: SendModel<W>, ops: Seq<SendOp<W>>)
    requires
        model.live_over(ops),
    ensures
        model.bytes() + model.accepted_over(ops) == model.delivered_over(ops) + model.run(ops).bytes(),
    decreases ops.len(),
{
    if ops.len() == 0 {
        assert(model.bytes() + model.accepted_over(ops) =~= model.delivered_over(ops) + model.run(ops).bytes());
    } else {
        let op = ops.first();
        let next = model.after(op);
        assert(next.live_over(ops.drop_first()));
        assert(next.live());
        law_an_operation_conserves_bytes(model, op);
        law_bytes_reach_the_transport_in_order(next, ops.drop_first());
        let more = next.accepted_over(ops.drop_first());
        let gone = next.delivered_over(ops.drop_first());
        let left = model.run(ops).bytes();
        assert(model.bytes() + model.accepted_over(ops) =~= (model.bytes() + model.accepted(op)) + more);
        assert(model.delivered(op) + next.bytes() + more =~= model.delivered(op) + (next.bytes() + more));
        assert(model.delivered(op) + (gone + left) =~= model.delivered_over(ops) + left);
    }
}

/// The stream is finished only once everything written has been handed over.
pub proof fn law_nothing_is_queued_when_the_stream_finishes<W>(model: SendModel<W>, event: FlushEvent)
    requires
        model.flush(event).1 is Finish,
    ensures
        model.flush(event).0.bytes() == Seq::<u8>::empty(),
        model.flush(event).0.fin,
{
}

/// An error of the transport that ends one stream ends no other: unless it is an error
/// of the whole connection, the flush is over, the stream is closed, and its writer, if
/// there is one, is woken to find out.
pub proof fn law_a_stream_error_ends_only_the_stream<W>(model: SendModel<W>, error: TransportError)
    ensures
        ({
            let (after, step) = model.ended_by(error);
            if error.kind is Other {
                step == FlushStep::<W>::Failed(error) && after == model
            } else {
                &&& step == FlushStep::Done(model.blocked)
                &&& after.closed && after.failure() is Some
                &&& after.bytes() == Seq::<u8>::empty() && after.capacity == 0
            }
        }),
{
}

/// Whether an event is the answer to a step.
pub open spec fn answers<W>(step: FlushStep<W>, event: FlushEvent) -> bool {
    match step {
        FlushStep::ShutDown(_) => event is ShutDown,
        FlushStep::Send => event is Sent,
        FlushStep::Writable => event is Writable,
        FlushStep::Finish => event is Finished,
        FlushStep::Capacity => event is Capacity,
        FlushStep::Done(_) => false,
        FlushStep::Failed(_) => false,
    }
}

/// How many more steps a flush takes at most.
pub open spec fn steps_left<W>(model: SendModel<W>, step: FlushStep<W>) -> nat {
    match step {
        FlushStep::ShutDown(_) => 1,
        FlushStep::Send => 2 + model.queued.len(),
        FlushStep::Writable => 2,
        FlushStep::Finish => 1,
        FlushStep::Capacity => 1,
        FlushStep::Done(_) => 0,
        FlushStep::Failed(_) => 0,
    }
}

/// A flush ends, whatever the transport answers: there are fewer steps left after each.
pub proof fn law_a_flush_ends<W>(model: SendModel<W>, step: FlushStep<W>, event: FlushEvent)
    requires
        answers(step, event),
        step is Send ==> model.queued.len() > 0,
    ensures
        ({
            let (after, next) = model.flush(event);
            &&& steps_left(after, next) < steps_left(model, step)
            &&& next is Send ==> after.queued.len() > 0
        }),
{
}

/// A stream that is closed without having failed was finished, with nothing left to send.
/// The step is the last one that a flush asked for, if one is under way.
pub open spec fn ended_well<W>(model: SendModel<W>, step: Option<FlushStep<W>>) -> bool {
    &&& model.closed && model.failure() is None ==> model.fin && model.queued.len() == 0
    &&& step matches Some(FlushStep::Send) ==> model.queued.len() > 0
    &&& step matches Some(FlushStep::ShutDown(_)) ==> model.reset is Some
    &&& step matches Some(FlushStep::Finish) ==> model.fin && model.queued.len() == 0
}

/// A stream reports that it was closed without an error only once it was finished and
/// everything written has been handed over: flushing, however it goes, keeps this so.
pub proof fn law_a_stream_closed_without_error_was_finished<W>(
    model: SendModel<W>,
    step: Option<FlushStep<W>>,
    event: FlushEvent,
)
    requires
        ended_well(model, step),
        match step {
            None => event is Start,
            Some(step) => answers(step, event),
        },
    ensures
        ({
            let (after, next) = model.flush(event);
            ended_well(after, Some(next))
        }),
{
}

/// A write takes something whenever there is something to take and it is not refused or
/// parked, and never more than the peer allows.
pub proof fn law_a_write_makes_progress<W>(model: SendModel<W>, waker: W, data: Seq<u8>)
    ensures
        model.write(waker, data).1 matches Poll::Ready(Ok(n)) ==> {
            &&& n <= model.capacity && n <= data.len()
            &&& data.len() > 0 ==> n > 0
            &&& model.write(waker, data).0.capacity == model.capacity - n
        },
        model.write(waker, data).1 is Pending ==> model.write(waker, data).0.blocked == Some(waker),
{
}

/// The error of a stream that was reset is its reset, whatever else happened to it; short
/// of that it is the peer's stop; short of that, that the transport discarded it.
pub open spec fn fails_with<W>(model: SendModel<W>, error: StreamError) -> bool {
    match error {
        StreamError::Reset(code) => model.reset == Some(code),
        StreamError::Stop(code) => model.reset is None && model.stop == Some(code),
        StreamError::Closed => model.reset is None && model.stop is None && model.gone,
        StreamError::Connection(_) => false,
    }
}

/// Two states of a stream that agree on everything but what is queued, what may be written,
/// who is parked and how it ended.
pub open spec fn same_but_queue<W>(a: SendModel<W>, b: SendModel<W>) -> bool {
    a.id == b.id && a.fin == b.fin && a.reset == b.reset
}

/// Two states of a stream that agree on how it ended, too.
pub open spec fn same_fate<W>(a: SendModel<W>, b: SendModel<W>) -> bool {
    same_but_queue(a, b) && a.stop == b.stop && a.gone == b.gone && a.closed == b.closed
}

/// A write takes as much as there is and as the peer allows, and queues exactly that behind
/// what is queued already. It waits only while the peer allows nothing, and then its waker
/// is kept. It fails exactly when the stream has failed or was finished, with the error of
/// that.
pub proof fn law_a_write_takes_all_that_is_allowed<W>()
    ensures
        forall|state: &mut SendState<W>, waker: W, buf: &[u8], result: Poll<Result<usize, StreamError>>|
            #[trigger] call_ensures(SendState::<W>::poll_write, (state, waker, buf), result)
                ==> a_write_is_sound(state@, waker, buf@, final(state)@, result),
        forall|
            state: &mut SendState<W>,
            waker: W,
            buf: &mut Bytes,
            result: Poll<Result<usize, StreamError>>,
        |
            #[trigger] call_ensures(SendState::<W>::poll_write_buf, (state, waker, buf), result) ==> {
                &&& a_write_is_sound(state@, waker, payload(*buf), final(state)@, result)
                &&& payload(*final(buf)).len() == payload(*buf).len() - (if let Poll::Ready(Ok(n)) = result {
                    n as int
                } else {
                    0
                })
                &&& forall|k: int|
                    0 <= k < payload(*final(buf)).len() ==> #[trigger] payload(*final(buf))[k] == payload(
                        *buf,
                    )[k + payload(*buf).len() - payload(*final(buf)).len()]
            },
{
    assert forall|state: &mut SendState<W>, waker: W, buf: &[u8], result: Poll<Result<usize, StreamError>>|
        #[trigger] call_ensures(SendState::<W>::poll_write, (state, waker, buf), result)
        implies a_write_is_sound(state@, waker, buf@, final(state)@, result) by {
        lemma_write(state@, waker, buf@);
    }
    assert forall|
        state: &mut SendState<W>,
        waker: W,
        buf: &mut Bytes,
        result: Poll<Result<usize, StreamError>>,
    |
        #[trigger] call_ensures(SendState::<W>::poll_write_buf, (state, waker, buf), result)
        implies a_write_is_sound(state@, waker, payload(*buf), final(state)@, result) by {
        lemma_write(state@, waker, payload(*buf));
    }
}

pub open spec fn a_write_is_sound<W>(
    before: SendModel<W>,
    waker: W,
    data: Seq<u8>,
    after: SendModel<W>,
    result: Poll<Result<usize, StreamError>>,
) -> bool {
    let healthy = before.reset is None && before.stop is None && !before.gone;
    match result {
        Poll::Ready(Ok(n)) => {
            &&& healthy && !before.fin && before.capacity > 0
            &&& n <= data.len() && n <= before.capacity
            &&& n == data.len() || n == before.capacity
            &&& after.capacity + n == before.capacity
            &&& after.queued.len() == before.queued.len() + 1
            &&& after.queued.drop_last() == before.queued
            &&& after.queued.last() == data.subrange(0, n as int)
            &&& after.blocked == before.blocked && same_fate(before, after)
        },
        Poll::Ready(Err(error)) => {
            &&& fails_with(before, error) || (healthy && before.fin && error is Closed)
            &&& after == before
        },
        Poll::Pending => {
            &&& healthy && !before.fin && before.capacity == 0
            &&& after.blocked == Some(waker)
            &&& after.capacity == 0 && after.queued == before.queued && same_fate(before, after)
        },
    }
}

proof fn lemma_write<W>(before: SendModel<W>, waker: W, data: Seq<u8>)
    ensures
        a_write_is_sound(before, waker, data, before.write(waker, data).0, before.write(waker, data).1),
{
    let after = before.write(waker, data).0;
    if let Poll::Ready(Ok(n)) = before.write(waker, data).1 {
        assert(after.queued.drop_last() =~= before.queued);
        assert(after.queued.last() =~= data.subrange(0, n as int));
    }
}

/// What the transport reports as a stream's capacity is what may be written from then on,
/// whatever it was before: reports replace each other, they do not add up. Nothing else
/// changes by it, and the writer is woken exactly when it can go on: when there is capacity,
/// or when nothing is queued any more.
pub proof fn law_a_report_of_capacity_replaces_the_last<W>()
    ensures
        forall|state: &mut SendState<W>, n: usize, step: FlushStep<W>|
            #[trigger] call_ensures(
                SendState::<W>::flush,
                (state, FlushEvent::Capacity(Ok(n))),
                step,
            ) ==> {
                &&& final(state)@.capacity == n
                &&& final(state)@.queued == state@.queued && same_fate(state@, final(state)@)
                &&& n > 0 || state@.queued.len() == 0 ==> step == FlushStep::Done(state@.blocked) && final(state)@.blocked is None
                &&& n == 0 && state@.queued.len() > 0 ==> step == FlushStep::<W>::Done(None) && final(state)@.blocked == state@.blocked
            },
{
}

/// However a stream is written to and flushed, what it accepts since the transport last
/// reported its capacity never exceeds that report.
pub proof fn law_what_is_accepted_stays_within_the_report<W>(model: SendModel<W>, n: usize, ops: Seq<SendOp<W>>)
    requires
        forall|i: int| 0 <= i < ops.len() ==> !((#[trigger] ops[i]) matches SendOp::Flush(FlushEvent::Capacity(Ok(_)))),
    ensures
        model.flush(FlushEvent::Capacity(Ok(n))).0.accepted_over(ops).len() <= n,
{
    lemma_credit(model.flush(FlushEvent::Capacity(Ok(n))).0, ops);
}

proof fn lemma_credit<W>(model: SendModel<W>, ops: Seq<SendOp<W>>)
    requires
        forall|i: int| 0 <= i < ops.len() ==> !((#[trigger] ops[i]) matches SendOp::Flush(FlushEvent::Capacity(Ok(_)))),
    ensures
        model.accepted_over(ops).len() + model.run(ops).capacity <= model.capacity,
    decreases ops.len(),
{
    if ops.len() > 0 {
        let rest = ops.drop_first();
        assert(!(ops[0] matches SendOp::Flush(FlushEvent::Capacity(Ok(_)))));
        assert forall|i: int| 0 <= i < rest.len() implies !((#[trigger] rest[i]) matches SendOp::Flush(
            FlushEvent::Capacity(Ok(_)),
        )) by {
            assert(rest[i] == ops[i + 1]);
        }
        lemma_credit(model.after(ops.first()), rest);
        assert(model.accepted(ops.first()).len() + model.after(ops.first()).capacity <= model.capacity);
    }
}

/// A flush begins with what is most pressing: a reset is told to the transport before
/// anything else; a stream that the peer stopped is left alone, and its writer woken; data
/// comes before the end of the stream; and only a stream with nothing else to do asks how
/// much it may send. Nothing is lost or changed by beginning.
pub proof fn law_a_flush_begins_with_what_is_most_pressing<W>()
    ensures
        forall|state: &mut SendState<W>, step: FlushStep<W>|
            #[trigger] call_ensures(SendState::<W>::flush, (state, FlushEvent::Start), step) ==> {
                &&& forall|code: u64| step == FlushStep::<W>::ShutDown(code) <==> state@.reset == Some(code)
                &&& step is Done <==> state@.reset is None && state@.stop is Some
                &&& step is Done ==> step == FlushStep::Done(state@.blocked)
                &&& step is Send <==> state@.reset is None && state@.stop is None && state@.queued.len() > 0
                &&& step is Finish <==> state@.reset is None && state@.stop is None && state@.queued.len()
                    == 0 && state@.fin
                &&& step is Capacity <==> state@.reset is None && state@.stop is None && state@.queued.len()
                    == 0 && !state@.fin
                &&& final(state)@.queued == state@.queued && final(state)@.capacity == state@.capacity
                &&& same_fate(state@, final(state)@)
                &&& final(state)@.blocked == if step is Done {
                    None
                } else {
                    state@.blocked
                }
            },
{
}

/// What the transport took of the first chunk leaves the queue, and nothing else does. If it
/// took less than the chunk, it is asked to report when there is room; otherwise the next
/// chunk follows, and after the last one the end of the stream, if it was asked for. Running
/// out of room is the same as taking nothing.
pub proof fn law_what_was_sent_leaves_the_queue<W>()
    ensures
        forall|state: &mut SendState<W>, n: usize, step: FlushStep<W>|
            #[trigger] call_ensures(SendState::<W>::flush, (state, FlushEvent::Sent(Ok(n))), step)
                && state@.queued.len() > 0 ==> a_send_is_sound(state@, n as nat, final(state)@, step),
        forall|state: &mut SendState<W>, error: TransportError, step: FlushStep<W>|
            #[trigger] call_ensures(SendState::<W>::flush, (state, FlushEvent::Sent(Err(error))), step)
                && state@.queued.len() > 0 && error.kind is Done ==> a_send_is_sound(
                state@,
                0,
                final(state)@,
                step,
            ),
{
    assert forall|state: &mut SendState<W>, n: usize, step: FlushStep<W>|
        #[trigger] call_ensures(SendState::<W>::flush, (state, FlushEvent::Sent(Ok(n))), step)
            && state@.queued.len() > 0 implies a_send_is_sound(state@, n as nat, final(state)@, step) by {
        lemma_sent(state@, n as nat);
    }
    assert forall|state: &mut SendState<W>, error: TransportError, step: FlushStep<W>|
        #[trigger] call_ensures(SendState::<W>::flush, (state, FlushEvent::Sent(Err(error))), step)
            && state@.queued.len() > 0 && error.kind is Done implies a_send_is_sound(
        state@,
        0,
        final(state)@,
        step,
    ) by {
        lemma_sent(state@, 0);
    }
}

pub open spec fn a_send_is_sound<W>(before: SendModel<W>, n: nat, after: SendModel<W>, step: FlushStep<W>) -> bool {
    let chunk = before.queued[0];
    &&& after.capacity == before.capacity && after.blocked == before.blocked && same_fate(before, after)
    &&& if n < chunk.len() {
        &&& step is Writable
        &&& after.queued.len() == before.queued.len()
        &&& after.queued[0] == chunk.subrange(n as int, chunk.len() as int)
        &&& forall|i: int| 1 <= i < after.queued.len() ==> after.queued[i] == before.queued[i]
    } else {
        &&& after.queued.len() == before.queued.len() - 1
        &&& forall|i: int| 0 <= i < after.queued.len() ==> after.queued[i] == before.queued[i + 1]
        &&& step is Send <==> after.queued.len() > 0
        &&& step is Finish <==> after.queued.len() == 0 && before.fin
        &&& step is Capacity <==> after.queued.len() == 0 && !before.fin
    }
}

proof fn lemma_sent<W>(before: SendModel<W>, n: nat)
    requires
        before.queued.len() > 0,
    ensures
        a_send_is_sound(before, n, before.sent(n).0, before.sent(n).1),
{
    let chunk = before.queued[0];
    if n < chunk.len() {
        assert(before.sent(n).0.queued[0] =~= chunk.subrange(n as int, chunk.len() as int));
    }
}

/// Once the transport is to report that there is room, the flush goes on to finish the
/// stream if everything was sent, and to ask for its capacity otherwise.
pub proof fn law_a_flush_goes_on_once_there_is_room<W>()
    ensures
        forall|state: &mut SendState<W>, step: FlushStep<W>|
            #[trigger] call_ensures(SendState::<W>::flush, (state, FlushEvent::Writable(Ok(()))), step) ==> {
                &&& final(state)@ == state@
                &&& step is Finish <==> state@.queued.len() == 0 && state@.fin
                &&& step is Capacity <==> !(state@.queued.len() == 0 && state@.fin)
            },
{
}

/// A stream that the transport has finished or reset is closed, and its writer is woken to
/// find out; nothing else changes.
pub proof fn law_an_ended_stream_is_closed<W>()
    ensures
        forall|state: &mut SendState<W>, event: FlushEvent, step: FlushStep<W>|
            #[trigger] call_ensures(SendState::<W>::flush, (state, event), step) && (event
                == FlushEvent::Finished(Ok(())) || event == FlushEvent::ShutDown(Ok(()))) ==> {
                &&& step == FlushStep::Done(state@.blocked)
                &&& final(state)@.closed && final(state)@.blocked is None
                &&& final(state)@.queued == state@.queued && final(state)@.capacity == state@.capacity
                &&& same_but_queue(state@, final(state)@)
                &&& final(state)@.stop == state@.stop && final(state)@.gone == state@.gone
            },
{
}

/// The error that an answer of the transport holds, if it holds one.
pub open spec fn error_of(event: FlushEvent) -> Option<TransportError> {
    match event {
        FlushEvent::ShutDown(Err(error)) => Some(error),
        FlushEvent::Sent(Err(error)) => Some(error),
        FlushEvent::Writable(Err(error)) => Some(error),
        FlushEvent::Finished(Err(error)) => Some(error),
        FlushEvent::Capacity(Err(error)) => Some(error),
        _ => None,
    }
}

/// An error of the transport ends the stream, with the peer's code if that is the error,
/// unless it is one of the whole connection: that one is handed on as it is. A stream that
/// ended so has nothing left to send or to accept, and its writer is woken to find out.
pub proof fn law_an_error_of_the_transport_ends_the_stream<W>()
    ensures
        forall|state: &mut SendState<W>, event: FlushEvent, step: FlushStep<W>|
            #[trigger] call_ensures(SendState::<W>::flush, (state, event), step) && error_of(event) is Some
                && !(event is Sent && (error_of(event)->0).kind is Done) ==> {
                let error = error_of(event)->0;
                &&& same_but_queue(state@, final(state)@)
                &&& if error.kind is Other {
                    &&& step == FlushStep::<W>::Failed(error)
                    &&& same_fate(state@, final(state)@) && final(state)@.blocked == state@.blocked
                    &&& final(state)@.capacity == state@.capacity
                    &&& !(event is Sent) ==> final(state)@.queued == state@.queued
                } else {
                    &&& step == FlushStep::Done(state@.blocked) && final(state)@.blocked is None
                    &&& final(state)@.closed
                    &&& final(state)@.queued.len() == 0 && final(state)@.capacity == 0
                    &&& if let TransportErrorKind::StreamStopped(code) = error.kind {
                        final(state)@.stop == Some(code) && final(state)@.gone == state@.gone
                    } else {
                        final(state)@.gone && final(state)@.stop == state@.stop
                    }
                }
            },
{
}

/// Waiting for the end of a stream, or for its data to be handed over, is over with an error
/// exactly when the stream has failed, and well exactly when it is closed, or has nothing
/// queued; until then the waiter is kept.
pub proof fn law_a_wait_ends_when_its_stream_does<W>()
    ensures
        forall|state: &mut SendState<W>, waker: W, result: Poll<Result<(), StreamError>>|
            #[trigger] call_ensures(SendState::<W>::poll_closed, (state, waker), result) ==> a_wait_is_sound(
                state@,
                waker,
                state@.closed,
                final(state)@,
                result,
            ),
        forall|state: &mut SendState<W>, waker: W, result: Poll<Result<(), StreamError>>|
            #[trigger] call_ensures(SendState::<W>::poll_flushed, (state, waker), result) ==> a_wait_is_sound(
                state@,
                waker,
                state@.queued.len() == 0,
                final(state)@,
                result,
            ),
{
}

pub open spec fn a_wait_is_sound<W>(
    before: SendModel<W>,
    waker: W,
    over: bool,
    after: SendModel<W>,
    result: Poll<Result<(), StreamError>>,
) -> bool {
    let healthy = before.reset is None && before.stop is None && !before.gone;
    &&& result matches Poll::Ready(Err(error)) ==> fails_with(before, error)
    &&& result matches Poll::Ready(Ok(_)) ==> healthy && over
    &&& result is Pending <==> healthy && !over
    &&& if result is Pending {
        &&& after.blocked == Some(waker)
        &&& after.capacity == before.capacity && after.queued == before.queued && same_fate(before, after)
    } else {
        after == before
    }
}

/// Finishing a stream succeeds once, on a stream that has not failed, and changes nothing but
/// that it is finished; shutting it down does the same, and is no error on one that is
/// finished already.
pub proof fn law_a_stream_is_finished_once<W>()
    ensures
        forall|state: &mut SendState<W>, result: Result<(), StreamError>|
            #[trigger] call_ensures(SendState::<W>::finish, (state,), result) ==> {
                let healthy = state@.reset is None && state@.stop is None && !state@.gone;
                &&& result is Ok <==> healthy && !state@.fin
                &&& result matches Err(error) ==> fails_with(state@, error) || (healthy && state@.fin
                    && error is Closed)
                &&& final(state)@.fin == (state@.fin || result is Ok)
                &&& only_finished(state@, final(state)@)
            },
        forall|state: &mut SendState<W>, result: Result<bool, StreamError>|
            #[trigger] call_ensures(SendState::<W>::shut_down, (state,), result) ==> {
                let healthy = state@.reset is None && state@.stop is None && !state@.gone;
                &&& result is Ok <==> healthy
                &&& result matches Ok(first) ==> first == !state@.fin
                &&& result matches Err(error) ==> fails_with(state@, error)
                &&& final(state)@.fin == (state@.fin || result is Ok)
                &&& only_finished(state@, final(state)@)
            },
        forall|state: &SendState<W>, result: Result<bool, StreamError>|
            #[trigger] call_ensures(SendState::<W>::is_finished, (state,), result) ==> {
                &&& forall|code: u64|
                    result == Err::<bool, StreamError>(StreamError::Reset(code)) <==> state@.reset == Some(code)
                &&& result is Err ==> state@.reset is Some
                &&& result matches Ok(finished) ==> (finished <==> state@.fin || state@.stop is Some
                    || state@.gone)
            },
{
}

pub open spec fn only_finished<W>(before: SendModel<W>, after: SendModel<W>) -> bool {
    &&& after.id == before.id && after.capacity == before.capacity && after.queued == before.queued
    &&& after.blocked == before.blocked && after.reset == before.reset && after.stop == before.stop
    &&& after.gone == before.gone && after.closed == before.closed
}

/// A reset has the code that it was asked for. A stream that is dropped is reset exactly if
/// it was neither finished nor has ended, so that the peer does not take it for whole.
pub proof fn law_a_dropped_stream_is_reset_unless_it_has_ended<W>()
    ensures
        forall|state: &mut SendState<W>, code: u64|
            #[trigger] call_ensures(SendState::<W>::reset, (state, code), ()) ==> {
                &&& final(state)@.reset == Some(code)
                &&& only_reset(state@, final(state)@)
            },
        forall|state: &mut SendState<W>, reset: bool|
            #[trigger] call_ensures(SendState::<W>::abandon, (state,), reset) ==> {
                &&& reset <==> !state@.fin && !state@.gone && state@.reset is None && state@.stop is None
                &&& reset ==> final(state)@.reset == Some(0x73656E64u64)
                &&& !reset ==> final(state)@.reset == state@.reset
                &&& only_reset(state@, final(state)@)
            },
{
}

pub open spec fn only_reset<W>(before: SendModel<W>, after: SendModel<W>) -> bool {
    &&& after.id == before.id && after.capacity == before.capacity && after.queued == before.queued
    &&& after.blocked == before.blocked && after.fin == before.fin && after.stop == before.stop
    &&& after.gone == before.gone && after.closed == before.closed
}

/// What is offered to the transport is the chunk that was queued first, and a new stream has
/// nothing to offer and may not be written to.
pub proof fn law_the_first_chunk_is_offered_first<W>()
    ensures
        forall|state: &SendState<W>, chunk: Option<&[u8]>|
            #[trigger] call_ensures(SendState::<W>::next_chunk, (state,), chunk) ==> {
                &&& chunk is None <==> state@.queued.len() == 0
                &&& chunk matches Some(data) ==> data@ == state@.queued[0]
            },
        forall|id: StreamId, state: SendState<W>|
            #[trigger] call_ensures(SendState::<W>::new, (id,), state) ==> {
                &&& state@.id == id && state@.capacity == 0 && state@.queued.len() == 0
                &&& state@.blocked is None && !state@.fin && !state@.gone && !state@.closed
                &&& state@.reset is None && state@.stop is None
            },
{
}

/// A stream tells its identifier, and whether it is closed.
pub proof fn law_a_stream_tells_whether_it_is_closed<W>(state: &SendState<W>)
    ensures
        forall|id: StreamId| #[trigger] call_ensures(SendState::<W>::id, (state,), id) ==> id == state@.id,
        forall|closed: bool| #[trigger] call_ensures(SendState::<W>::is_closed, (state,), closed) ==> (closed
            <==> state@.closed),
{
}

} // verus!
