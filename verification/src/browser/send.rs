//! The sending half of a stream in the browser.

use std::task::Poll;
use vstd::prelude::*;

use crate::browser::error::Error;

verus! {

/// What to do next to write to a stream.
#[verifier::reject_recursive_types(E)]
pub enum WriteStep<E> {
    /// Poll the write before this one, if there is one.
    Settle,
    /// Hand all of the buffer over.
    Write,
    /// Nothing: this is the outcome.
    Done(Poll<Result<usize, E>>),
}

/// The sending half of a stream.
#[derive(Debug)]
pub struct SendStream {
    terminal: bool,
}

impl SendStream {
    /// Whether the stream was finished or reset.
    pub closed spec fn ended(&self) -> bool {
        self.terminal
    }

    /// A stream that can be written to.
    pub fn new() -> (stream: Self)
        ensures
            !stream.ended(),
    {
        SendStream { terminal: false }
    }

    /// Begin a write. One write is outstanding at a time, so the one before it has to
    /// be over.
    pub fn poll_write(&self) -> (step: WriteStep<Error>)
        ensures
            step == if self.ended() {
                WriteStep::Done(Poll::Ready(Err(Error::Closed)))
            } else {
                WriteStep::Settle
            },
    {
        if self.terminal {
            WriteStep::Done(Poll::Ready(Err(Error::Closed)))
        } else {
            WriteStep::Settle
        }
    }

    /// Go on with a write of `len` bytes, given what became of the write before it. Its
    /// failure is reported now; otherwise the browser takes everything it is given.
    pub fn settled(&self, previous: Poll<Result<(), Error>>, len: usize) -> (step: WriteStep<Error>)
        ensures
            step == match previous {
                Poll::Pending => WriteStep::Done(Poll::Pending),
                Poll::Ready(Err(error)) => WriteStep::Done(Poll::Ready(Err(error))),
                Poll::Ready(Ok(_)) => if len == 0 {
                    WriteStep::Done(Poll::Ready(Ok(0)))
                } else {
                    WriteStep::Write
                },
            },
    {
        match previous {
            Poll::Pending => WriteStep::Done(Poll::Pending),
            Poll::Ready(Err(error)) => WriteStep::Done(Poll::Ready(Err(error))),
            Poll::Ready(Ok(_)) => {
                if len == 0 {
                    WriteStep::Done(Poll::Ready(Ok(0)))
                } else {
                    WriteStep::Write
                }
            },
        }
    }

    /// Reset the stream.
    pub fn reset(&mut self)
        ensures
            final(self).ended(),
    {
        self.terminal = true;
    }

    /// Finish the stream, reporting whether it has yet to be: one that has been finished
    /// or reset stays as it is.
    pub fn finish(&mut self) -> (close: bool)
        ensures
            final(self).ended(),
            close == !old(self).ended(),
    {
        if self.terminal {
            return false;
        }
        self.terminal = true;
        true
    }
}

/// Whether a write is over, without an error.
pub open spec fn went_well(result: Poll<Result<(), Error>>) -> bool {
    match result {
        Poll::Ready(Ok(_)) => true,
        _ => false,
    }
}

/// A stream that has ended takes no more writes. Before that a write waits for the one before
/// it and fails with it; then all of it is handed over, and nothing where there is nothing.
pub proof fn law_a_write_follows_the_one_before_it(
    stream: SendStream,
    first: WriteStep<Error>,
    previous: Poll<Result<(), Error>>,
    len: usize,
    next: WriteStep<Error>,
)
    requires
        call_ensures(SendStream::poll_write, (&stream,), first),
        call_ensures(SendStream::settled, (&stream, previous, len), next),
    ensures
        first is Settle <==> !stream.ended(),
        stream.ended() ==> first == WriteStep::<Error>::Done(Poll::Ready(Err(Error::Closed))),
        next is Write <==> went_well(previous) && len > 0,
        previous is Pending <==> next == WriteStep::<Error>::Done(Poll::Pending),
        previous matches Poll::Ready(Err(error)) ==> next == WriteStep::<Error>::Done(Poll::Ready(Err(error))),
        went_well(previous) && len == 0 ==> next == WriteStep::<Error>::Done(
            Poll::Ready(Ok(0)),
        ),
{
}

/// A stream ends once: finishing it is reported only the first time, and not after a reset.
pub proof fn law_a_stream_ends_once()
    ensures
        forall|stream: &mut SendStream, close: bool|
            #[trigger] call_ensures(SendStream::finish, (stream,), close) ==> final(stream).ended() && (close
                <==> !stream.ended()),
        forall|stream: &mut SendStream|
            #[trigger] call_ensures(SendStream::reset, (stream,), ()) ==> final(stream).ended(),
        forall|stream: SendStream| #[trigger] call_ensures(SendStream::new, (), stream) ==> !stream.ended(),
{
}

} // verus!
