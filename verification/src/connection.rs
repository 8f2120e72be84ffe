//! The per-connection lifecycle: the states one accepted connection moves
//! through and the transitions between them.
//!
//! The embedding program runs the connection — reads, writes, teardown —
//! and drives this machine with what happened; the machine decides what
//! state follows. A parse error fails the connection, and so does an
//! unrouted request; both are terminal, as is an orderly close.

use vstd::prelude::*;

verus! {

/// Where one accepted connection stands.
#[derive(Clone, Copy, Debug, PartialEq, Eq, Structural)]
pub enum ConnectionState {
    /// The connection was accepted and nothing has been read yet.
    Accepted,
    /// The request's bytes are being read and parsed.
    Parsing,
    /// A request was parsed and awaits a route.
    Routed,
    /// A matched handler ran and the response was sent.
    Handled,
    /// The connection was torn down after a handled request.
    Closed,
    /// Parsing failed, or no route matched; the connection is given up.
    Failed,
}

/// What the connection reported happening.
#[derive(Clone, Copy, Debug, PartialEq, Eq, Structural)]
pub enum ConnectionEvent {
    /// Reading of the request began.
    StartParsing,
    /// A request was parsed successfully.
    ParseSucceeded,
    /// Parsing failed.
    ParseFailed,
    /// A route matched and its handler completed.
    HandlerFinished,
    /// No registered route matched the request.
    NoRouteFound,
    /// The connection was torn down.
    TearDown,
}

/// The transition relation: the state that follows an event, or nothing
/// when the event cannot happen in that state. `Closed` and `Failed` admit
/// no event.
pub open spec fn spec_connection_step(s: ConnectionState, e: ConnectionEvent) -> Option<
    ConnectionState,
> {
    match (s, e) {
        (ConnectionState::Accepted, ConnectionEvent::StartParsing) => Some(
            ConnectionState::Parsing,
        ),
        (ConnectionState::Parsing, ConnectionEvent::ParseSucceeded) => Some(
            ConnectionState::Routed,
        ),
        (ConnectionState::Parsing, ConnectionEvent::ParseFailed) => Some(
            ConnectionState::Failed,
        ),
        (ConnectionState::Routed, ConnectionEvent::HandlerFinished) => Some(
            ConnectionState::Handled,
        ),
        (ConnectionState::Routed, ConnectionEvent::NoRouteFound) => Some(
            ConnectionState::Failed,
        ),
        (ConnectionState::Handled, ConnectionEvent::TearDown) => Some(ConnectionState::Closed),
        _ => None,
    }
}

/// Advances a connection by one reported event; `None` refuses an event
/// the current state does not admit.
pub fn connection_step(s: ConnectionState, e: ConnectionEvent) -> (r: Option<ConnectionState>)
    ensures
        r == spec_connection_step(s, e),
{
    match (s, e) {
        (ConnectionState::Accepted, ConnectionEvent::StartParsing) => Some(
            ConnectionState::Parsing,
        ),
        (ConnectionState::Parsing, ConnectionEvent::ParseSucceeded) => Some(
            ConnectionState::Routed,
        ),
        (ConnectionState::Parsing, ConnectionEvent::ParseFailed) => Some(
            ConnectionState::Failed,
        ),
        (ConnectionState::Routed, ConnectionEvent::HandlerFinished) => Some(
            ConnectionState::Handled,
        ),
        (ConnectionState::Routed, ConnectionEvent::NoRouteFound) => Some(
            ConnectionState::Failed,
        ),
        (ConnectionState::Handled, ConnectionEvent::TearDown) => Some(ConnectionState::Closed),
        _ => None,
    }
}

/// `Closed` and `Failed` are terminal: no event moves a connection out of
/// either.
pub proof fn lemma_terminal_states(s: ConnectionState, e: ConnectionEvent)
    requires
        s == ConnectionState::Closed || s == ConnectionState::Failed,
    ensures
        spec_connection_step(s, e) is None,
{
}

} // verus!
