//! Bounds that stand for those of the platform, and operations retained across polls.

use std::future::Future;
use std::pin::Pin;
use std::task::{Context, Poll};
use vstd::prelude::*;

verus! {

/// What has to be able to move between threads.
pub trait MaybeSend: Send {

}

/// What has to be able to be shared between threads.
pub trait MaybeSync: Sync {

}

impl<T: Send> MaybeSend for T {

}

impl<T: Sync> MaybeSync for T {

}

/// `Future::poll`. Nothing is said of what comes of it: that is up to the future. What
/// polls an operation states which call of this it makes, and what it does with the result.
#[verifier::external_body]
pub fn poll_future<F: Future + Unpin>(future: &mut F, cx: &mut Context<'_>) -> Poll<F::Output> {
    Pin::new(future).poll(cx)
}

/// An operation retained across `poll` calls, used to expose an asynchronous operation
/// as a `poll_*` method.
///
/// The operation is created on the first poll, kept while it is pending, and dropped
/// once it resolves so that the next poll starts a fresh one.
///
/// Retention is the whole point: building a fresh operation every call would discard
/// whatever it had already done before it returned `Pending`: a claimed stream credit, a
/// reserved queue slot, or a waker registration that only it would be woken for.
pub struct OpState<F> {
    future: Option<F>,
}

impl<F> OpState<F> {
    /// The operation in progress, if there is one.
    pub closed spec fn operation(&self) -> Option<F> {
        self.future
    }

    /// No operation in progress.
    pub fn new() -> (state: Self)
        ensures
            state.operation() is None,
    {
        OpState { future: None }
    }

    /// Returns whether an operation is currently in progress.
    pub fn is_pending(&self) -> (pending: bool)
        ensures
            pending == (self.operation() is Some),
    {
        self.future.is_some()
    }

    /// Abandon the operation in progress, if any.
    pub fn clear(&mut self)
        ensures
            final(self).operation() is None,
    {
        self.future = None;
    }

    /// Start an operation, in place of the one in progress if there is one.
    pub fn start(&mut self, future: F)
        ensures
            final(self).operation() == Some(future),
    {
        self.future = Some(future);
    }

    /// Take the operation in progress, if any, for somebody else to see to.
    pub fn take(&mut self) -> (future: Option<F>)
        ensures
            future == old(self).operation(),
            final(self).operation() is None,
    {
        self.future.take()
    }

    /// Keep an operation that has been polled, unless it has resolved.
    pub fn retain<T>(&mut self, future: F, result: Poll<T>) -> (same: Poll<T>)
        ensures
            same == result,
            final(self).operation() == if result is Pending {
                Some(future)
            } else {
                None
            },
    {
        match result {
            Poll::Pending => {
                self.future = Some(future);
                Poll::Pending
            },
            Poll::Ready(output) => {
                self.future = None;
                Poll::Ready(output)
            },
        }
    }
}

impl<F: Future + Unpin> OpState<F> {
    /// Poll the operation in progress, starting one with `make` when idle.
    ///
    /// `make` is only called when there is no operation in progress, so the caller can
    /// build its argument lazily rather than on every poll.
    pub fn poll<M: FnOnce() -> F>(&mut self, cx: &mut Context<'_>, make: M) -> (result: Poll<F::Output>)
        requires
            old(self).operation() is None ==> make.requires(()),
        ensures
            final(self).operation() is Some <==> result is Pending,
            exists|future: &mut F, context: &mut Context<'_>|
                {
                    &&& match old(self).operation() {
                        Some(held) => *future == held,
                        None => make.ensures((), *future),
                    }
                    &&& *context == *old(cx) && *final(context) == *final(cx)
                    &&& #[trigger] call_ensures(poll_future::<F>, (future, context), result)
                    &&& result is Pending ==> final(self).operation() == Some(*final(future))
                },
    {
        let mut future = match self.future.take() {
            Some(future) => future,
            None => make(),
        };
        let result = poll_future(&mut future, cx);
        self.retain(future, result)
    }

    /// Poll the operation in progress, if there is one.
    pub fn poll_pending(&mut self, cx: &mut Context<'_>) -> (result: Option<Poll<F::Output>>)
        ensures
            result is Some <==> old(self).operation() is Some,
            final(self).operation() is Some <==> result == Some(Poll::<F::Output>::Pending),
            old(self).operation() matches Some(held) ==> exists|
                future: &mut F,
                context: &mut Context<'_>,
                own: Poll<F::Output>,
            |
                {
                    &&& *future == held
                    &&& *context == *old(cx) && *final(context) == *final(cx)
                    &&& #[trigger] call_ensures(poll_future::<F>, (future, context), own)
                    &&& result == Some(own)
                    &&& own is Pending ==> final(self).operation() == Some(*final(future))
                },
            old(self).operation() is None ==> *final(cx) == *old(cx),
    {
        let mut future = match self.future.take() {
            Some(future) => future,
            None => return None,
        };
        let result = poll_future(&mut future, cx);
        Some(self.retain(future, result))
    }
}

impl<F> Default for OpState<F> {
    fn default() -> (state: Self)
        ensures
            state.operation() is None,
    {
        OpState::new()
    }
}

impl<F> Clone for OpState<F> {
    /// A clone is idle; the operation in progress stays with the handle that started it.
    fn clone(&self) -> (state: Self)
        ensures
            state.operation() is None,
    {
        OpState::new()
    }
}

/// The retained operations that a session needs for what has no native poll form, each
/// the future of its own type.
///
/// Streams are opened, datagrams are read and the end of a session is awaited in several
/// steps, so each of those needs an [`OpState`] to be polled. Accepting is usually the
/// exception; its slots are there for transports where it is not.
///
/// Every slot has exactly one owner. Cloning yields idle slots, as for an [`OpState`].
pub struct SessionOps<AcceptUni, AcceptBi, OpenUni, OpenBi, RecvDatagram, Closed> {
    /// Retains the acceptance of a unidirectional stream.
    pub accept_uni: OpState<AcceptUni>,
    /// Retains the acceptance of a bidirectional stream.
    pub accept_bi: OpState<AcceptBi>,
    /// Retains the opening of a unidirectional stream, which claims stream credit before
    /// it resolves: restarting it would leak the claim.
    pub open_uni: OpState<OpenUni>,
    /// Retains the opening of a bidirectional stream, which claims stream credit before
    /// it resolves: restarting it would leak the claim.
    pub open_bi: OpState<OpenBi>,
    /// Retains the reception of a datagram.
    pub recv_datagram: OpState<RecvDatagram>,
    /// Retains the wait for the end of the session.
    pub closed: OpState<Closed>,
}

impl<AcceptUni, AcceptBi, OpenUni, OpenBi, RecvDatagram, Closed> SessionOps<
    AcceptUni,
    AcceptBi,
    OpenUni,
    OpenBi,
    RecvDatagram,
    Closed,
> {
    /// No operation is in progress.
    pub open spec fn idle(&self) -> bool {
        &&& self.accept_uni.operation() is None
        &&& self.accept_bi.operation() is None
        &&& self.open_uni.operation() is None
        &&& self.open_bi.operation() is None
        &&& self.recv_datagram.operation() is None
        &&& self.closed.operation() is None
    }
}

impl<AcceptUni, AcceptBi, OpenUni, OpenBi, RecvDatagram, Closed> Default for SessionOps<
    AcceptUni,
    AcceptBi,
    OpenUni,
    OpenBi,
    RecvDatagram,
    Closed,
> {
    fn default() -> (ops: Self)
        ensures
            ops.idle(),
    {
        SessionOps {
            accept_uni: OpState::new(),
            accept_bi: OpState::new(),
            open_uni: OpState::new(),
            open_bi: OpState::new(),
            recv_datagram: OpState::new(),
            closed: OpState::new(),
        }
    }
}

impl<AcceptUni, AcceptBi, OpenUni, OpenBi, RecvDatagram, Closed> Clone for SessionOps<
    AcceptUni,
    AcceptBi,
    OpenUni,
    OpenBi,
    RecvDatagram,
    Closed,
> {
    /// A clone is idle; what is in progress stays with the handle that started it.
    fn clone(&self) -> (ops: Self)
        ensures
            ops.idle(),
    {
        SessionOps {
            accept_uni: self.accept_uni.clone(),
            accept_bi: self.accept_bi.clone(),
            open_uni: self.open_uni.clone(),
            open_bi: self.open_bi.clone(),
            recv_datagram: self.recv_datagram.clone(),
            closed: self.closed.clone(),
        }
    }
}

/// An operation is retained exactly while it is pending, and what came of it is passed on as it is.
/// Starting one puts it in place; taking it, or clearing, leaves none.
pub proof fn law_an_operation_is_retained_while_it_is_pending<F, T>()
    ensures
        forall|state: &mut OpState<F>, future: F, result: Poll<T>, same: Poll<T>|
            #[trigger] call_ensures(OpState::<F>::retain::<T>, (state, future, result), same) ==> {
                &&& same == result
                &&& result is Pending ==> final(state).operation() == Some(future)
                &&& result is Ready ==> final(state).operation() is None
            },
        forall|state: &mut OpState<F>, future: F|
            #[trigger] call_ensures(OpState::<F>::start, (state, future), ()) ==> final(state).operation()
                == Some(future),
        forall|state: &mut OpState<F>, future: Option<F>|
            #[trigger] call_ensures(OpState::<F>::take, (state,), future) ==> future == state.operation() && final(
                state).operation() is None,
        forall|state: &mut OpState<F>|
            #[trigger] call_ensures(OpState::<F>::clear, (state,), ()) ==> final(state).operation() is None,
        forall|state: &OpState<F>, pending: bool|
            #[trigger] call_ensures(OpState::<F>::is_pending, (state,), pending) ==> (pending
                <==> state.operation() is Some),
        forall|state: OpState<F>| #[trigger] call_ensures(OpState::<F>::new, (), state) ==> state.operation() is None,
        forall|state: &OpState<F>, copy: OpState<F>|
            #[trigger] call_ensures(<OpState<F> as Clone>::clone, (state,), copy) ==> copy.operation() is None,
{
}

/// A poll goes on with the operation in progress, and starts one only where there is none; what
/// comes of that operation is the outcome. Where none is to be started and none is in progress,
/// nothing is polled.
pub proof fn law_a_poll_goes_on_with_the_operation_in_progress<F: Future + Unpin, M: FnOnce() -> F>()
    ensures
        forall|state: &mut OpState<F>, cx: &mut Context<'_>, make: M, result: Poll<F::Output>|
            #[trigger] call_ensures(OpState::<F>::poll::<M>, (state, cx, make), result) ==> {
                &&& final(state).operation() is Some <==> result is Pending
                &&& exists|future: &mut F, context: &mut Context<'_>|
                    {
                        &&& state.operation() is Some ==> *future == state.operation()->0
                        &&& state.operation() is None ==> make.ensures((), *future)
                        &&& *context == *cx
                        &&& #[trigger] call_ensures(poll_future::<F>, (future, context), result)
                        &&& result is Pending ==> final(state).operation() == Some(*final(future))
                    }
            },
        forall|state: &mut OpState<F>, cx: &mut Context<'_>, result: Option<Poll<F::Output>>|
            #[trigger] call_ensures(OpState::<F>::poll_pending, (state, cx), result) ==> {
                &&& result is Some <==> state.operation() is Some
                &&& final(state).operation() is Some <==> result is Some && result->0 is Pending
                &&& result is Some ==> exists|future: &mut F, context: &mut Context<'_>|
                    {
                        &&& *future == state.operation()->0 && *context == *cx
                        &&& #[trigger] call_ensures(poll_future::<F>, (future, context), result->0)
                        &&& result->0 is Pending ==> final(state).operation() == Some(*final(future))
                    }
            },
{
}

/// The operations of a session are idle at first, and so are those of a clone.
pub proof fn law_a_cloned_session_is_idle<A, B, C, D, E, G>(
    ops: &SessionOps<A, B, C, D, E, G>,
    copy: SessionOps<A, B, C, D, E, G>,
)
    requires
        call_ensures(<SessionOps<A, B, C, D, E, G> as Clone>::clone, (ops,), copy) || call_ensures(
            <SessionOps<A, B, C, D, E, G> as Default>::default,
            (),
            copy,
        ),
    ensures
        copy.accept_uni.operation() is None && copy.accept_bi.operation() is None,
        copy.open_uni.operation() is None && copy.open_bi.operation() is None,
        copy.recv_datagram.operation() is None && copy.closed.operation() is None,
{
}

/// By default no operation is in progress.
pub proof fn law_no_operation_is_in_progress_by_default<F>(state: OpState<F>)
    requires
        call_ensures(<OpState<F> as Default>::default, (), state),
    ensures
        state.operation() is None,
{
}

} // verus!
