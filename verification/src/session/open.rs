//! Opening the streams of a session.

use std::task::Poll;
use vstd::prelude::*;

verus! {

/// Where opening a stream got to.
///
/// It takes two steps, taking the stream and writing its header, so an operation that
/// has to wait in the middle resumes rather than starting over.
pub enum Open<T> {
    /// Nothing in progress.
    Idle,
    /// The stream has been taken, and its header written up to an offset.
    Header { stream: T, offset: usize },
}

/// What to do next to open a stream.
#[verifier::reject_recursive_types(T)]
#[verifier::reject_recursive_types(C)]
#[verifier::reject_recursive_types(H)]
pub enum OpenStep<T, C, H> {
    /// Take a stream from the connection.
    Take,
    /// Write the header from an offset on.
    Write(usize),
    /// Nothing: this is the outcome.
    Done(Poll<Result<T, OpenError<C, H>>>),
}

/// What came of it.
#[verifier::reject_recursive_types(T)]
#[verifier::reject_recursive_types(C)]
#[verifier::reject_recursive_types(H)]
pub enum OpenEvent<T, C, H> {
    /// Nothing was done yet.
    Start,
    /// To [`OpenStep::Take`].
    Taken(Poll<Result<T, C>>),
    /// To [`OpenStep::Write`], with how much was written.
    Written(Poll<Result<usize, H>>),
}

/// Why a stream could not be opened.
pub enum OpenError<C, H> {
    /// The connection has no stream to give.
    Connection(C),
    /// The header could not be written.
    Header(H),
}

impl<T> Open<T> {
    /// How much of the header has been written.
    pub open spec fn written(self) -> nat {
        match self {
            Open::Idle => 0,
            Open::Header { stream, offset } => offset as nat,
        }
    }

    /// What to do next, with a header of some length.
    pub open spec fn resumed<C, H>(self, len: nat) -> (Self, OpenStep<T, C, H>) {
        match self {
            Open::Idle => (self, OpenStep::Take),
            Open::Header { stream, offset } => if offset < len {
                (self, OpenStep::Write(offset))
            } else {
                (Open::Idle, OpenStep::Done(Poll::Ready(Ok(stream))))
            },
        }
    }

    /// One step of opening a stream: where that gets to, and what to do next.
    pub open spec fn stepped<C, H>(self, len: nat, event: OpenEvent<T, C, H>) -> (Self, OpenStep<
        T,
        C,
        H,
    >) {
        match event {
            OpenEvent::Start => self.resumed(len),
            OpenEvent::Taken(Poll::Pending) => (self, OpenStep::Done(Poll::Pending)),
            OpenEvent::Taken(Poll::Ready(Err(error))) => (
                self,
                OpenStep::Done(Poll::Ready(Err(OpenError::Connection(error)))),
            ),
            OpenEvent::Taken(Poll::Ready(Ok(stream))) => Open::Header { stream, offset: 0 }.resumed(len),
            OpenEvent::Written(Poll::Pending) => (self, OpenStep::Done(Poll::Pending)),
            OpenEvent::Written(Poll::Ready(Err(error))) => (
                self,
                OpenStep::Done(Poll::Ready(Err(OpenError::Header(error)))),
            ),
            OpenEvent::Written(Poll::Ready(Ok(n))) => match self {
                Open::Idle => self.resumed(len),
                Open::Header { stream, offset } => Open::Header {
                    stream,
                    offset: (offset + n) as usize,
                }.resumed(len),
            },
        }
    }

    /// Nothing in progress.
    pub fn new() -> (open: Self)
        ensures
            open == Open::<T>::Idle,
    {
        Open::Idle
    }

    /// The stream whose header is being written.
    pub fn stream(&mut self) -> (stream: Option<&mut T>)
        ensures
            match *old(self) {
                Open::Idle => stream is None && *final(self) == *old(self),
                Open::Header { stream: before, offset } => stream matches Some(taken) && *taken == before
                    && *final(self) == (Open::Header { stream: *final(taken), offset }),
            },
    {
        match self {
            Open::Idle => None,
            Open::Header { stream, offset: _ } => Some(stream),
        }
    }

    fn resume<C, H>(&mut self, len: usize) -> (step: OpenStep<T, C, H>)
        ensures
            (*final(self), step) == old(self).resumed::<C, H>(len as nat),
    {
        let mut this: Open<T> = Open::Idle;
        core::mem::swap(&mut this, self);
        match this {
            Open::Idle => OpenStep::Take,
            Open::Header { stream, offset } => {
                if offset < len {
                    *self = Open::Header { stream, offset };
                    OpenStep::Write(offset)
                } else {
                    // Header written: hand the stream over and go idle.
                    OpenStep::Done(Poll::Ready(Ok(stream)))
                }
            },
        }
    }

    /// Take one step of opening a stream with a header.
    pub fn poll<C, H>(&mut self, header: &[u8], event: OpenEvent<T, C, H>) -> (step: OpenStep<T, C, H>)
        requires
            event matches OpenEvent::Written(Poll::Ready(Ok(n))) ==> old(self).written() + n
                <= usize::MAX,
        ensures
            (*final(self), step) == old(self).stepped(header@.len(), event),
    {
        let len: usize = header.len();
        match event {
            OpenEvent::Start => self.resume(len),
            OpenEvent::Taken(Poll::Pending) | OpenEvent::Written(Poll::Pending) => {
                OpenStep::Done(Poll::Pending)
            },
            OpenEvent::Taken(Poll::Ready(Err(error))) => {
                OpenStep::Done(Poll::Ready(Err(OpenError::Connection(error))))
            },
            OpenEvent::Taken(Poll::Ready(Ok(stream))) => {
                *self = Open::Header { stream, offset: 0 };
                self.resume(len)
            },
            OpenEvent::Written(Poll::Ready(Err(error))) => {
                OpenStep::Done(Poll::Ready(Err(OpenError::Header(error))))
            },
            OpenEvent::Written(Poll::Ready(Ok(n))) => {
                match self {
                    Open::Idle => {},
                    Open::Header { stream: _, offset } => {
                        *offset = *offset + n;
                    },
                }
                self.resume(len)
            },
        }
    }
}

impl<T> Clone for Open<T> {
    /// A clone starts idle; the operation in flight stays with the handle that started
    /// it.
    fn clone(&self) -> (open: Self)
        ensures
            open == Open::<T>::Idle,
    {
        Open::Idle
    }
}

/// The transport takes no more of the header than it is given.
pub open spec fn open_allows<T, C, H>(open: Open<T>, header: Seq<u8>, event: OpenEvent<T, C, H>) -> bool {
    match event {
        OpenEvent::Written(Poll::Ready(Ok(n))) => open is Header && open.written() + n <= header.len(),
        OpenEvent::Taken(_) => open is Idle,
        _ => true,
    }
}

/// The part of the header that an event reports as written.
pub open spec fn open_writes<T, C, H>(open: Open<T>, header: Seq<u8>, event: OpenEvent<T, C, H>) -> Seq<
    u8,
> {
    match event {
        OpenEvent::Written(Poll::Ready(Ok(n))) => header.subrange(
            open.written() as int,
            open.written() + n,
        ),
        _ => Seq::empty(),
    }
}

/// While a stream is being opened, what has been written to it is the header up to the
/// offset; and it is handed over exactly when that is all of the header.
///
/// `sent` is what had been written before the step.
pub proof fn law_the_header_is_written_once_and_in_order<T, C, H>(
    open: Open<T>,
    header: Seq<u8>,
    event: OpenEvent<T, C, H>,
    sent: Seq<u8>,
)
    requires
        header.len() <= usize::MAX,
        open_allows(open, header, event),
        open.written() <= header.len(),
        sent == header.take(open.written() as int),
    ensures
        ({
            let (after, step) = open.stepped(header.len(), event);
            let now = sent + open_writes(open, header, event);
            &&& after is Header ==> after.written() <= header.len() && now == header.take(
                after.written() as int,
            )
            &&& step matches OpenStep::Done(Poll::Ready(Ok(_))) ==> after is Idle && now == header
        }),
{
    let now = sent + open_writes(open, header, event);
    match event {
        OpenEvent::Written(Poll::Ready(Ok(n))) => {
            assert(now =~= header.take(open.written() + n));
        },
        _ => {
            assert(now =~= sent);
        },
    }
    assert(header.take(header.len() as int) =~= header);
}

/// Opening a stream takes one from the connection exactly if none was taken yet, writes the
/// header from where it got to, and hands over the very stream that was taken, with nothing
/// left in progress, once the header is written. Whatever has to wait goes on where it was,
/// and what fails is told apart: the connection, or the header.
pub proof fn law_opening_a_stream_resumes_where_it_got_to<T, C, H>()
    ensures
        forall|open: &mut Open<T>, header: &[u8], event: OpenEvent<T, C, H>, step: OpenStep<T, C, H>|
            #[trigger] call_ensures(Open::<T>::poll::<C, H>, (open, header, event), step) ==> opens_on(
                *open,
                header@.len(),
                event,
                *final(open),
                step,
            ),
{
}

pub open spec fn opens_on<T, C, H>(
    before: Open<T>,
    len: nat,
    event: OpenEvent<T, C, H>,
    after: Open<T>,
    step: OpenStep<T, C, H>,
) -> bool {
    match event {
        OpenEvent::Start => match before {
            Open::Idle => step is Take && after is Idle,
            Open::Header { stream, offset } => goes_on(stream, offset as nat, len, after, step),
        },
        OpenEvent::Taken(Poll::Ready(Ok(stream))) => goes_on(stream, 0, len, after, step),
        OpenEvent::Written(Poll::Ready(Ok(n))) => match before {
            Open::Idle => step is Take && after is Idle,
            Open::Header { stream, offset } => offset + n <= usize::MAX ==> goes_on(
                stream,
                (offset + n) as nat,
                len,
                after,
                step,
            ),
        },
        OpenEvent::Taken(Poll::Pending) | OpenEvent::Written(Poll::Pending) => after == before && step
            == OpenStep::<T, C, H>::Done(Poll::Pending),
        OpenEvent::Taken(Poll::Ready(Err(error))) => after == before && step == OpenStep::<T, C, H>::Done(
            Poll::Ready(Err(OpenError::Connection(error))),
        ),
        OpenEvent::Written(Poll::Ready(Err(error))) => after == before && step == OpenStep::<T, C, H>::Done(
            Poll::Ready(Err(OpenError::Header(error))),
        ),
    }
}

/// A stream whose header has been written up to an offset: more is written from there while
/// there is more, and then it is handed over.
pub open spec fn goes_on<T, C, H>(stream: T, offset: nat, len: nat, after: Open<T>, step: OpenStep<T, C, H>) -> bool {
    if offset < len {
        step == OpenStep::<T, C, H>::Write(offset as usize) && after == (Open::Header {
            stream,
            offset: offset as usize,
        })
    } else {
        after is Idle && step == OpenStep::<T, C, H>::Done(Poll::Ready(Ok(stream)))
    }
}

/// Nothing is in progress at first, nor in a clone: the stream that was taken stays with the
/// handle that took it, and is the one that its header is written to.
pub proof fn law_an_operation_stays_with_its_handle<T>()
    ensures
        forall|open: Open<T>| #[trigger] call_ensures(Open::<T>::new, (), open) ==> open is Idle,
        forall|open: &Open<T>, copy: Open<T>|
            #[trigger] call_ensures(Open::<T>::clone, (open,), copy) ==> copy is Idle,
        forall|open: &mut Open<T>, stream: Option<&mut T>|
            #[trigger] call_ensures(Open::<T>::stream, (open,), stream) ==> match *open {
                Open::Idle => stream is None && *final(open) is Idle,
                Open::Header { stream: taken, offset } => stream is Some && *(stream->0) == taken
                    && *final(open) == (Open::Header { stream: *final(stream->0), offset }),
            },
{
}

} // verus!
