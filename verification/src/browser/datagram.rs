//! Sending datagrams in the browser.

use std::task::Poll;
use vstd::prelude::*;

use crate::browser::error::Error;

verus! {

/// What to do next to send a datagram.
pub enum DatagramStep {
    /// Poll the datagram before this one, if there is one.
    Settle,
    /// Ask the writer whether it has room.
    Room,
    /// Poll until the writer is ready.
    Ready,
    /// Ask the writer again, which is ready, whether it has room.
    RoomWhenReady,
    /// Poll until the writer is closed.
    Closed,
    /// Hand the datagram over.
    Write,
    /// Nothing: this is the outcome.
    Done(Poll<Result<(), Error>>),
}

/// What came of it.
pub enum DatagramEvent {
    /// Nothing was done yet.
    Start,
    /// To [`DatagramStep::Settle`].
    Settled(Poll<Result<(), Error>>),
    /// To [`DatagramStep::Room`].
    Room(Result<bool, Error>),
    /// To [`DatagramStep::Ready`].
    Ready(Poll<Result<(), Error>>),
    /// To [`DatagramStep::RoomWhenReady`].
    RoomWhenReady(Result<bool, Error>),
    /// To [`DatagramStep::Closed`].
    Closed(Poll<Result<(), Error>>),
}

/// One step of sending a datagram.
pub open spec fn datagram_step(event: DatagramEvent) -> DatagramStep {
    match event {
        DatagramEvent::Start => DatagramStep::Settle,
        DatagramEvent::Settled(Poll::Pending) => DatagramStep::Done(Poll::Pending),
        DatagramEvent::Settled(Poll::Ready(Err(error))) => DatagramStep::Done(Poll::Ready(Err(error))),
        DatagramEvent::Settled(Poll::Ready(Ok(_))) => DatagramStep::Room,
        DatagramEvent::Room(Ok(true)) => DatagramStep::Write,
        DatagramEvent::Room(Ok(false)) => DatagramStep::Ready,
        DatagramEvent::Room(Err(error)) => DatagramStep::Done(Poll::Ready(Err(error))),
        DatagramEvent::Ready(Poll::Pending) => DatagramStep::Done(Poll::Pending),
        DatagramEvent::Ready(Poll::Ready(Err(error))) => DatagramStep::Done(Poll::Ready(Err(error))),
        DatagramEvent::Ready(Poll::Ready(Ok(_))) => DatagramStep::RoomWhenReady,
        DatagramEvent::RoomWhenReady(Ok(true)) => DatagramStep::Room,
        DatagramEvent::RoomWhenReady(Ok(false)) => DatagramStep::Closed,
        DatagramEvent::RoomWhenReady(Err(error)) => DatagramStep::Done(Poll::Ready(Err(error))),
        DatagramEvent::Closed(Poll::Pending) => DatagramStep::Done(Poll::Pending),
        DatagramEvent::Closed(Poll::Ready(Err(error))) => DatagramStep::Done(Poll::Ready(Err(error))),
        DatagramEvent::Closed(Poll::Ready(Ok(_))) => DatagramStep::Done(Poll::Ready(Err(Error::Closed))),
    }
}

/// Take one step of sending a datagram.
///
/// One datagram is outstanding per handle, never a queue. The writer is shared by every
/// handle, so the one before being over does not mean that the browser has room. A writer
/// that is ready without having room is closing: waiting for it to be ready would not
/// wait.
pub fn poll_send_datagram(event: DatagramEvent) -> (step: DatagramStep)
    ensures
        step == datagram_step(event),
{
    match event {
        DatagramEvent::Start => DatagramStep::Settle,
        DatagramEvent::Settled(Poll::Ready(Ok(_))) => DatagramStep::Room,
        DatagramEvent::Room(Ok(true)) => DatagramStep::Write,
        DatagramEvent::Room(Ok(false)) => DatagramStep::Ready,
        DatagramEvent::Ready(Poll::Ready(Ok(_))) => DatagramStep::RoomWhenReady,
        DatagramEvent::RoomWhenReady(Ok(true)) => DatagramStep::Room,
        DatagramEvent::RoomWhenReady(Ok(false)) => DatagramStep::Closed,
        DatagramEvent::Closed(Poll::Ready(Ok(_))) => DatagramStep::Done(Poll::Ready(Err(Error::Closed))),
        DatagramEvent::Settled(Poll::Pending)
        | DatagramEvent::Ready(Poll::Pending)
        | DatagramEvent::Closed(Poll::Pending) => DatagramStep::Done(Poll::Pending),
        DatagramEvent::Settled(Poll::Ready(Err(error)))
        | DatagramEvent::Room(Err(error))
        | DatagramEvent::Ready(Poll::Ready(Err(error)))
        | DatagramEvent::RoomWhenReady(Err(error))
        | DatagramEvent::Closed(Poll::Ready(Err(error))) => DatagramStep::Done(Poll::Ready(Err(error))),
    }
}

/// A datagram is handed over only when the writer has just said that it has room.
pub proof fn law_a_datagram_waits_for_room(event: DatagramEvent)
    ensures
        datagram_step(event) is Write ==> event == DatagramEvent::Room(Ok(true)),
{
}

/// What the event says of the writer: that it failed, with the error.
pub open spec fn failed_with(event: DatagramEvent) -> Option<Error> {
    match event {
        DatagramEvent::Settled(Poll::Ready(Err(error))) => Some(error),
        DatagramEvent::Room(Err(error)) => Some(error),
        DatagramEvent::Ready(Poll::Ready(Err(error))) => Some(error),
        DatagramEvent::RoomWhenReady(Err(error)) => Some(error),
        DatagramEvent::Closed(Poll::Ready(Err(error))) => Some(error),
        _ => None,
    }
}

/// Sending a datagram begins by settling the one before it. It is handed over exactly when the
/// writer has room. It fails exactly when the writer does, with that error, or when the writer
/// turns out to be closed; it waits exactly while what it polls is pending, and it is never
/// over in any other way.
pub proof fn law_a_datagram_is_sent_fails_or_waits(event: DatagramEvent, step: DatagramStep)
    requires
        call_ensures(poll_send_datagram, (event,), step),
    ensures
        step is Write <==> event == DatagramEvent::Room(Ok(true)),
        step is Settle <==> event is Start,
        failed_with(event) matches Some(error) ==> step == DatagramStep::Done(Poll::Ready(Err(error))),
        step == DatagramStep::Done(Poll::Pending) <==> {
            ||| event == DatagramEvent::Settled(Poll::Pending)
            ||| event == DatagramEvent::Ready(Poll::Pending)
            ||| event == DatagramEvent::Closed(Poll::Pending)
        },
        step matches DatagramStep::Done(Poll::Ready(result)) ==> result is Err && (failed_with(event) is None
            ==> event is Closed && event->Closed_0 is Ready && result == Err::<(), Error>(Error::Closed)),
        step is Ready <==> event == DatagramEvent::Room(Ok(false)),
        step is RoomWhenReady <==> event is Ready && event->Ready_0 is Ready && failed_with(event) is None,
        step is Closed <==> event == DatagramEvent::RoomWhenReady(Ok(false)),
        step is Room <==> event == DatagramEvent::RoomWhenReady(Ok(true)) || (event is Settled
            && event->Settled_0 is Ready && failed_with(event) is None),
{
}

} // verus!
