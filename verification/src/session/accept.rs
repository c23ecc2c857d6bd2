//! Accepting the streams of a session.
//!
//! Streams are accepted and their headers decoded in parallel, since a peer may open
//! one and take its time to write the header. What to poll next is decided here.

use std::task::Poll;
use vstd::prelude::*;

use crate::proto::{frame_webtransport, uni_qpack_decoder, uni_qpack_encoder, uni_webtransport};
use crate::session::headers::UnknownSession;

verus! {

/// What to do next to accept a stream `T`.
#[verifier::reject_recursive_types(T)]
#[verifier::reject_recursive_types(E)]
pub enum AcceptStep<T, E> {
    /// Poll the connection for a stream.
    Accept,
    /// Start decoding the header of this one, and poll the connection for another.
    Decode(T),
    /// Poll the streams whose headers are being decoded.
    Poll,
    /// Nothing: this is the outcome.
    Done(Poll<Result<T, E>>),
}

/// What came of it.
#[verifier::reject_recursive_types(T)]
#[verifier::reject_recursive_types(E)]
pub enum AcceptEvent<T, E> {
    /// Nothing was done yet, or the header of a stream has started being decoded.
    Start,
    /// To [`AcceptStep::Accept`].
    Accepted(Poll<Result<T, E>>),
    /// To [`AcceptStep::Poll`]: the type of the first stream whose header has been
    /// decoded, or `None` if there are no streams left to decode.
    Decoded(Poll<Option<Result<(u64, T), UnknownSession>>>),
}

/// The state of accepting the streams of a session, with receiving halves `R`.
///
/// The streams of QPACK are kept if the peer (incorrectly) opens them, just so that
/// they don't get closed.
pub struct SessionAccept<R> {
    qpack_encoder: Option<R>,
    qpack_decoder: Option<R>,
}

/// The streams that a [`SessionAccept`] keeps.
pub struct AcceptModel<R> {
    pub qpack_encoder: Option<R>,
    pub qpack_decoder: Option<R>,
}

impl<R> AcceptModel<R> {
    /// One step of accepting a unidirectional stream: what is kept, and what to do next.
    pub open spec fn accept_uni<E>(self, event: AcceptEvent<R, E>) -> (Self, AcceptStep<R, E>) {
        match event {
            AcceptEvent::Start => (self, AcceptStep::Accept),
            AcceptEvent::Accepted(Poll::Ready(Ok(stream))) => (self, AcceptStep::Decode(stream)),
            AcceptEvent::Accepted(Poll::Ready(Err(error))) => (
                self,
                AcceptStep::Done(Poll::Ready(Err(error))),
            ),
            AcceptEvent::Accepted(Poll::Pending) => (self, AcceptStep::Poll),
            AcceptEvent::Decoded(Poll::Ready(Some(Ok((typ, stream))))) => if typ == 0x54 {
                (self, AcceptStep::Done(Poll::Ready(Ok(stream))))
            } else if typ == 0x03 {
                (AcceptModel { qpack_decoder: Some(stream), ..self }, AcceptStep::Accept)
            } else if typ == 0x02 {
                (AcceptModel { qpack_encoder: Some(stream), ..self }, AcceptStep::Accept)
            } else {
                (self, AcceptStep::Accept)
            },
            AcceptEvent::Decoded(Poll::Ready(Some(Err(_)))) => (self, AcceptStep::Accept),
            AcceptEvent::Decoded(Poll::Ready(None)) => (self, AcceptStep::Done(Poll::Pending)),
            AcceptEvent::Decoded(Poll::Pending) => (self, AcceptStep::Done(Poll::Pending)),
        }
    }
}

/// One step of accepting a bidirectional stream.
pub open spec fn accept_bi_step<T, E>(event: AcceptEvent<T, E>) -> AcceptStep<T, E> {
    match event {
        AcceptEvent::Start => AcceptStep::Accept,
        AcceptEvent::Accepted(Poll::Ready(Ok(stream))) => AcceptStep::Decode(stream),
        AcceptEvent::Accepted(Poll::Ready(Err(error))) => AcceptStep::Done(Poll::Ready(Err(error))),
        AcceptEvent::Accepted(Poll::Pending) => AcceptStep::Poll,
        AcceptEvent::Decoded(Poll::Ready(Some(Ok((typ, stream))))) => if typ == 0x41 {
            AcceptStep::Done(Poll::Ready(Ok(stream)))
        } else {
            AcceptStep::Accept
        },
        AcceptEvent::Decoded(Poll::Ready(Some(Err(_)))) => AcceptStep::Accept,
        AcceptEvent::Decoded(Poll::Ready(None)) => AcceptStep::Done(Poll::Pending),
        AcceptEvent::Decoded(Poll::Pending) => AcceptStep::Done(Poll::Pending),
    }
}

impl<R> View for SessionAccept<R> {
    type V = AcceptModel<R>;

    closed spec fn view(&self) -> AcceptModel<R> {
        AcceptModel { qpack_encoder: self.qpack_encoder, qpack_decoder: self.qpack_decoder }
    }
}

impl<R> SessionAccept<R> {
    /// No stream of QPACK opened.
    pub fn new() -> (accept: Self)
        ensures
            accept@ == (AcceptModel::<R> { qpack_encoder: None, qpack_decoder: None }),
    {
        SessionAccept { qpack_encoder: None, qpack_decoder: None }
    }

    /// Take one step of accepting a unidirectional stream.
    ///
    /// New streams come first, so that their headers are decoded in parallel. A stream
    /// whose header cannot be decoded was probably reset early; it is ignored, and so is
    /// one of a type that is not known.
    pub fn poll_accept_uni<E>(&mut self, event: AcceptEvent<R, E>) -> (step: AcceptStep<R, E>)
        ensures
            (final(self)@, step) == old(self)@.accept_uni(event),
    {
        match event {
            AcceptEvent::Start => AcceptStep::Accept,
            AcceptEvent::Accepted(Poll::Ready(Ok(stream))) => AcceptStep::Decode(stream),
            AcceptEvent::Accepted(Poll::Ready(Err(error))) => AcceptStep::Done(
                Poll::Ready(Err(error)),
            ),
            AcceptEvent::Accepted(Poll::Pending) => AcceptStep::Poll,
            AcceptEvent::Decoded(Poll::Ready(Some(Ok((typ, stream))))) => {
                if typ == uni_webtransport() {
                    return AcceptStep::Done(Poll::Ready(Ok(stream)));
                }
                if typ == uni_qpack_decoder() {
                    self.qpack_decoder = Some(stream);
                } else if typ == uni_qpack_encoder() {
                    self.qpack_encoder = Some(stream);
                }
                AcceptStep::Accept
            },
            AcceptEvent::Decoded(Poll::Ready(Some(Err(_)))) => AcceptStep::Accept,
            AcceptEvent::Decoded(Poll::Ready(None)) => AcceptStep::Done(Poll::Pending),
            AcceptEvent::Decoded(Poll::Pending) => AcceptStep::Done(Poll::Pending),
        }
    }

    /// Take one step of accepting a bidirectional stream.
    pub fn poll_accept_bi<T, E>(&self, event: AcceptEvent<T, E>) -> (step: AcceptStep<T, E>)
        ensures
            step == accept_bi_step(event),
    {
        match event {
            AcceptEvent::Start => AcceptStep::Accept,
            AcceptEvent::Accepted(Poll::Ready(Ok(stream))) => AcceptStep::Decode(stream),
            AcceptEvent::Accepted(Poll::Ready(Err(error))) => AcceptStep::Done(
                Poll::Ready(Err(error)),
            ),
            AcceptEvent::Accepted(Poll::Pending) => AcceptStep::Poll,
            AcceptEvent::Decoded(Poll::Ready(Some(Ok((typ, stream))))) => {
                if typ == frame_webtransport() {
                    AcceptStep::Done(Poll::Ready(Ok(stream)))
                } else {
                    // A stream to be ignored.
                    AcceptStep::Accept
                }
            },
            AcceptEvent::Decoded(Poll::Ready(Some(Err(_)))) => AcceptStep::Accept,
            AcceptEvent::Decoded(Poll::Ready(None)) => AcceptStep::Done(Poll::Pending),
            AcceptEvent::Decoded(Poll::Pending) => AcceptStep::Done(Poll::Pending),
        }
    }
}

/// A stream of one peer cannot stop those of the session from being accepted: whatever
/// its header holds, and also if it has none, accepting goes on unless it is a stream of
/// the session.
pub proof fn law_a_foreign_stream_is_ignored<R, E>(
    accept: AcceptModel<R>,
    decoded: Result<(u64, R), UnknownSession>,
)
    ensures
        !(decoded is Ok && decoded->Ok_0.0 == 0x54) ==> accept.accept_uni::<E>(
            AcceptEvent::Decoded(Poll::Ready(Some(decoded))),
        ).1 is Accept,
        !(decoded is Ok && decoded->Ok_0.0 == 0x41) ==> accept_bi_step::<R, E>(
            AcceptEvent::Decoded(Poll::Ready(Some(decoded))),
        ) is Accept,
{
}

/// An accepter parks only once it has polled everything that can wake it: the connection
/// for another stream, and then the streams whose headers are being decoded.
pub proof fn law_an_accepter_parks_only_after_polling_everything<R, E>(
    accept: AcceptModel<R>,
    event: AcceptEvent<R, E>,
)
    ensures
        accept.accept_uni(event).1 == AcceptStep::<R, E>::Done(Poll::Pending) ==> event is Decoded,
        accept.accept_uni(event).1 == AcceptStep::<R, E>::Poll ==> event == AcceptEvent::<R, E>::Accepted(
            Poll::Pending,
        ),
        accept_bi_step(event) == AcceptStep::<R, E>::Done(Poll::Pending) ==> event is Decoded,
        accept_bi_step(event) == AcceptStep::<R, E>::Poll ==> event == AcceptEvent::<R, E>::Accepted(
            Poll::Pending,
        ),
{
}

/// A bidirectional stream reaches the application only once its header has been decoded
/// and says that it is one of the session: the step is over with a stream exactly when that
/// stream comes out of decoding with the type of WebTransport. A stream that the connection
/// yields always has its header decoded first, an error of the connection always ends the
/// accept with that error, and nothing else does.
pub proof fn law_a_bidirectional_stream_is_decoded_before_it_is_accepted<R, T, E>(
    accept: &SessionAccept<R>,
    event: AcceptEvent<T, E>,
    step: AcceptStep<T, E>,
)
    requires
        call_ensures(SessionAccept::<R>::poll_accept_bi::<T, E>, (accept, event), step),
    ensures
        forall|stream: T|
            step == AcceptStep::<T, E>::Done(Poll::Ready(Ok(stream))) <==> event == AcceptEvent::<
                T,
                E,
            >::Decoded(Poll::Ready(Some(Ok((0x41u64, stream))))),
        forall|stream: T|
            step == AcceptStep::<T, E>::Decode(stream) <==> event == AcceptEvent::<T, E>::Accepted(
                Poll::Ready(Ok(stream)),
            ),
        forall|error: E|
            step == AcceptStep::<T, E>::Done(Poll::Ready(Err(error))) <==> event == AcceptEvent::<
                T,
                E,
            >::Accepted(Poll::Ready(Err(error))),
        step is Poll <==> event == AcceptEvent::<T, E>::Accepted(Poll::Pending),
        step == AcceptStep::<T, E>::Done(Poll::Pending) <==> (event == AcceptEvent::<T, E>::Decoded(
            Poll::Pending,
        ) || event == AcceptEvent::<T, E>::Decoded(Poll::Ready(None))),
{
}

/// The same of a unidirectional stream; and the streams of QPACK, and no others, are kept.
pub proof fn law_a_unidirectional_stream_is_decoded_before_it_is_accepted<R, E>()
    ensures
        forall|accept: &mut SessionAccept<R>, event: AcceptEvent<R, E>, step: AcceptStep<R, E>|
            #[trigger] call_ensures(SessionAccept::<R>::poll_accept_uni::<E>, (accept, event), step) ==> {
                &&& forall|stream: R|
                    step == AcceptStep::<R, E>::Done(Poll::Ready(Ok(stream))) <==> event == AcceptEvent::<
                        R,
                        E,
                    >::Decoded(Poll::Ready(Some(Ok((0x54u64, stream)))))
                &&& forall|stream: R|
                    step == AcceptStep::<R, E>::Decode(stream) <==> event == AcceptEvent::<R, E>::Accepted(
                        Poll::Ready(Ok(stream)),
                    )
                &&& forall|error: E|
                    step == AcceptStep::<R, E>::Done(Poll::Ready(Err(error))) <==> event == AcceptEvent::<
                        R,
                        E,
                    >::Accepted(Poll::Ready(Err(error)))
                &&& step is Poll <==> event == AcceptEvent::<R, E>::Accepted(Poll::Pending)
                &&& step == AcceptStep::<R, E>::Done(Poll::Pending) <==> (event == AcceptEvent::<
                    R,
                    E,
                >::Decoded(Poll::Pending) || event == AcceptEvent::<R, E>::Decoded(Poll::Ready(None)))
                &&& match event {
                    AcceptEvent::Decoded(Poll::Ready(Some(Ok((0x02, stream))))) => final(accept)@.qpack_encoder
                        == Some(stream) && final(accept)@.qpack_decoder == accept@.qpack_decoder,
                    AcceptEvent::Decoded(Poll::Ready(Some(Ok((0x03, stream))))) => final(accept)@.qpack_decoder
                        == Some(stream) && final(accept)@.qpack_encoder == accept@.qpack_encoder,
                    _ => final(accept)@ == accept@,
                }
            },
{
}

/// A session begins without the streams of the header compression.
pub proof fn law_accepting_begins_without_streams<R>(accept: SessionAccept<R>)
    requires
        call_ensures(SessionAccept::<R>::new, (), accept),
    ensures
        accept@.qpack_encoder is None && accept@.qpack_decoder is None,
{
}

} // verus!
