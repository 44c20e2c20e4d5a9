//! The acceptor of the TCP listener.
//!
//! Each connection gets a handler of its own, and the acceptor goes back to
//! accepting at once. A failed accept is followed by a short pause, so that
//! a lasting failure does not turn into a busy loop. Nothing ends the
//! acceptor.

use crate::wire::RETRY_NANOS;
use vstd::prelude::*;

verus! {

/// What an accept call came back with.
#[derive(Clone, Copy, Debug, PartialEq, Eq, Structural)]
pub enum AcceptEvent {
    /// A peer connected.
    Connected,
    /// The call failed.
    Failed,
}

/// What the acceptor does before it accepts again.
#[derive(Clone, Copy, Debug, PartialEq, Eq, Structural)]
pub enum AcceptAction {
    /// Start a handler for the new connection, without waiting for it.
    Serve,
    /// Wait for `nanos` nanoseconds.
    Pause { nanos: u64 },
}

/// The acceptor's answer to `event`.
pub open spec fn accept_answer(event: AcceptEvent) -> AcceptAction {
    match event {
        AcceptEvent::Connected => AcceptAction::Serve,
        AcceptEvent::Failed => AcceptAction::Pause { nanos: RETRY_NANOS },
    }
}

/// Says what to do before the next accept.
pub fn on_accept(event: AcceptEvent) -> (action: AcceptAction)
    ensures
        action == accept_answer(event),
{
    match event {
        AcceptEvent::Connected => AcceptAction::Serve,
        AcceptEvent::Failed => AcceptAction::Pause { nanos: RETRY_NANOS },
    }
}

} // verus!
