//! The life of a client or a server: one tunnel after the other, until its user
//! interrupts it.
use vstd::prelude::*;

verus! {

/// What has happened to a client or a server; `T` is a tunnel, and `E` says what
/// failed.
#[derive(Debug)]
pub enum SessionEvent<T, E> {
    /// It has been set up.
    Ready,
    /// There is a connection, with a tunnel over it.
    Connected(T),
    /// No connection came about.
    NotConnected(E),
    /// The tunnel came to its end.
    TunnelEnded(Result<(), E>),
    /// The user asked for an end while a tunnel was running, or can no longer be
    /// heard.
    Interrupted,
}

/// What a client or a server does next.
#[derive(Debug)]
pub enum SessionAction<T, E> {
    /// Wait for a connection: a client connects, a server accepts.
    Connect,
    /// Run the tunnel, and listen to the user meanwhile.
    RunTunnel(T),
    /// Shut down, and leave without an error.
    ShutDown,
    /// Leave with this error.
    Fail(E),
}

/// What is done after `event`: the end of a tunnel, be it a failure, only makes
/// room for the next one.
pub open spec fn action_after<T, E>(event: SessionEvent<T, E>) -> SessionAction<T, E> {
    match event {
        SessionEvent::Ready => SessionAction::Connect,
        SessionEvent::Connected(tunnel) => SessionAction::RunTunnel(tunnel),
        SessionEvent::NotConnected(e) => SessionAction::Fail(e),
        SessionEvent::TunnelEnded(_) => SessionAction::Connect,
        SessionEvent::Interrupted => SessionAction::ShutDown,
    }
}

/// What a client or a server does after `event`.
pub fn next_action<T, E>(event: SessionEvent<T, E>) -> (action: SessionAction<T, E>)
    ensures
        action == action_after(event),
        action is Connect <==> event is Ready || event is TunnelEnded,
        match event {
            SessionEvent::Connected(tunnel) => action == SessionAction::<T, E>::RunTunnel(tunnel),
            SessionEvent::NotConnected(e) => action == SessionAction::<T, E>::Fail(e),
            _ => action is Connect || action is ShutDown,
        },
        action is ShutDown <==> event is Interrupted,
{
    match event {
        SessionEvent::Ready => SessionAction::Connect,
        SessionEvent::Connected(tunnel) => SessionAction::RunTunnel(tunnel),
        SessionEvent::NotConnected(e) => SessionAction::Fail(e),
        SessionEvent::TunnelEnded(_) => SessionAction::Connect,
        SessionEvent::Interrupted => SessionAction::ShutDown,
    }
}

/// What a client or a server does tells what has happened to it: it runs the very
/// tunnel that it was connected by, fails with the very error for which it was not
/// connected, waits for a connection at the start and after each tunnel, and shuts
/// down only where it is interrupted.
pub proof fn law_actions_tell_their_events<T, E>(event: SessionEvent<T, E>, tunnel: T, e: E)
    ensures
        action_after(event) is Connect <==> event is Ready || event is TunnelEnded,
        action_after(event) == SessionAction::<T, E>::RunTunnel(tunnel) <==> event
            == SessionEvent::<T, E>::Connected(tunnel),
        action_after(event) == SessionAction::<T, E>::Fail(e) <==> event
            == SessionEvent::<T, E>::NotConnected(e),
        action_after(event) is ShutDown <==> event is Interrupted,
{
}

/// What can happen after `action`.
pub open spec fn can_follow<T, E>(action: SessionAction<T, E>, event: SessionEvent<T, E>) -> bool {
    match action {
        SessionAction::Connect => event is Connected || event is NotConnected,
        SessionAction::RunTunnel(_) => event is TunnelEnded || event is Interrupted,
        SessionAction::ShutDown => false,
        SessionAction::Fail(_) => false,
    }
}

/// Whether these events can happen one after the other to a client or a server.
pub open spec fn is_history<T, E>(events: Seq<SessionEvent<T, E>>) -> bool {
    &&& events.len() > 0
    &&& events[0] is Ready
    &&& forall|i: int|
        0 < i < events.len() ==> can_follow(action_after(events[i - 1]), #[trigger] events[i])
}

/// A client or a server leaves only where it gets no connection, with that as
/// its error, or where its user interrupts a tunnel, without an error. Tunnels
/// that end, however they do, never make it leave.
pub proof fn law_leaves_only_unconnected_or_interrupted<T, E>(events: Seq<SessionEvent<T, E>>)
    requires
        is_history(events),
    ensures
        match action_after(events.last()) {
            SessionAction::ShutDown => {
                &&& events.len() >= 2
                &&& events.last() is Interrupted
                &&& events[events.len() - 2] is Connected
            },
            SessionAction::Fail(e) => events.last() == SessionEvent::<T, E>::NotConnected(e),
            _ => true,
        },
        events.last() is TunnelEnded ==> action_after(events.last()) is Connect,
{
    let last = events.len() - 1;
    if last > 0 {
        assert(can_follow(action_after(events[last - 1]), events[last]));
    }
}

} // verus!
