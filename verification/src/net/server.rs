//! The decisions of a server's listening loop: bind once, then hand over
//! each accepted connection until binding or accepting fails. The loop
//! itself, which binds the socket and waits for connections, performs the
//! actions.

use vstd::prelude::*;

verus! {

/// Why a server stopped listening.
pub enum ServerError<E> {
    /// Binding the address failed.
    Bind(E),
    /// Accepting a connection failed.
    Accept(E),
}

/// What happened while listening: the outcome of binding the address, or of
/// accepting a connection.
pub enum ListenEvent<C, E> {
    Bound(Result<(), E>),
    Accepted(Result<C, E>),
}

/// What the listening loop does next.
pub enum ListenAction<C, E> {
    /// Wait for the next connection.
    Accept,
    /// Hand the accepted connection over, then wait for the next one.
    Connected(C),
    /// Hand the error over and stop listening.
    Stop(ServerError<E>),
}

/// Decides what the listening loop does after one event.
pub fn listen_step<C, E>(event: ListenEvent<C, E>) -> (a: ListenAction<C, E>)
    ensures
        match event {
            ListenEvent::Bound(Ok(())) => a is Accept,
            ListenEvent::Bound(Err(e)) => a == ListenAction::<C, E>::Stop(ServerError::Bind(e)),
            ListenEvent::Accepted(Ok(c)) => a == ListenAction::<C, E>::Connected(c),
            ListenEvent::Accepted(Err(e)) => a == ListenAction::<C, E>::Stop(ServerError::Accept(e)),
        },
{
    match event {
        ListenEvent::Bound(Ok(())) => ListenAction::Accept,
        ListenEvent::Bound(Err(e)) => ListenAction::Stop(ServerError::Bind(e)),
        ListenEvent::Accepted(Ok(c)) => ListenAction::Connected(c),
        ListenEvent::Accepted(Err(e)) => ListenAction::Stop(ServerError::Accept(e)),
    }
}

} // verus!
