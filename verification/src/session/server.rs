//! Accepting sessions.

use vstd::prelude::*;

verus! {

/// What happens to a server that waits for a session.
pub enum ServerEvent<C, R, E> {
    /// A connection arrives; `None` means that there will be no more.
    Incoming(Option<C>),
    /// A connection has been established and its request read, or this failed.
    Requested(Result<R, E>),
}

/// What the server does about it.
pub enum ServerStep<C, R> {
    /// Establish the connection and read its request, while waiting for others.
    Handshake(C),
    /// Wait.
    Wait,
    /// Hand the request over; `None` means that there will be no more.
    Done(Option<R>),
}

/// Wait for a session. Connections are established in parallel, and one that fails does
/// not keep the others from being accepted.
pub fn accept<C, R, E>(event: ServerEvent<C, R, E>) -> (step: ServerStep<C, R>)
    ensures
        step == match event {
            ServerEvent::Incoming(Some(conn)) => ServerStep::Handshake(conn),
            ServerEvent::Incoming(None) => ServerStep::Done(None),
            ServerEvent::Requested(Ok(request)) => ServerStep::Done(Some(request)),
            ServerEvent::Requested(Err(_)) => ServerStep::Wait,
        },
{
    match event {
        ServerEvent::Incoming(Some(conn)) => ServerStep::Handshake(conn),
        ServerEvent::Incoming(None) => ServerStep::Done(None),
        ServerEvent::Requested(Ok(request)) => ServerStep::Done(Some(request)),
        ServerEvent::Requested(Err(_)) => ServerStep::Wait,
    }
}

/// A server goes on waiting unless a request was read, which it hands over, or no more
/// connections come. Every connection that arrives is established, and one that fails is
/// passed over.
pub proof fn law_a_failed_connection_does_not_stop_the_server<C, R, E>(
    event: ServerEvent<C, R, E>,
    step: ServerStep<C, R>,
)
    requires
        call_ensures(accept::<C, R, E>, (event,), step),
    ensures
        forall|request: R|
            step == ServerStep::<C, R>::Done(Some(request)) <==> event == ServerEvent::<C, R, E>::Requested(
                Ok(request),
            ),
        step == ServerStep::<C, R>::Done(None) <==> event == ServerEvent::<C, R, E>::Incoming(None),
        forall|conn: C|
            step == ServerStep::<C, R>::Handshake(conn) <==> event == ServerEvent::<C, R, E>::Incoming(
                Some(conn),
            ),
        step is Wait <==> event is Requested && event->Requested_0 is Err,
{
}

} // verus!
