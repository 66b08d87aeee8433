//! The event step: which action the relay takes for each platform
//! notification. The surrounding event loop performs the action — a full
//! routing-table refresh, a message relay, or nothing — and this decision is
//! the only logic in it.

use vstd::prelude::*;

verus! {

/// A notification delivered by the platform's event source.
#[derive(Clone, Copy, PartialEq, Eq, Structural, Debug)]
pub enum RelayEvent {
    /// The connection is up; the relay is starting.
    Ready,
    /// A channel was created in the source community.
    ChannelCreated,
    /// A message was posted in `channel`.
    MessageCreated { channel: u64 },
    /// Any notification the relay takes no interest in.
    Other,
}

/// The action the relay takes in response to one event.
#[derive(Clone, Copy, PartialEq, Eq, Structural, Debug)]
pub enum RelayAction {
    /// Rebuild the routing table and install it wholesale.
    Refresh,
    /// Relay the new message in `channel` to its mapped destinations.
    Relay { channel: u64 },
    /// Do nothing.
    Ignore,
}

/// The relay's event policy: refresh on startup and on channel creation,
/// relay on a new message, ignore everything else.
pub open spec fn decide_spec(e: RelayEvent) -> RelayAction {
    match e {
        RelayEvent::Ready => RelayAction::Refresh,
        RelayEvent::ChannelCreated => RelayAction::Refresh,
        RelayEvent::MessageCreated { channel } => RelayAction::Relay { channel },
        RelayEvent::Other => RelayAction::Ignore,
    }
}

/// Decides the action for one platform event.
pub fn decide(e: &RelayEvent) -> (a: RelayAction)
    ensures
        a == decide_spec(*e),
{
    match e {
        RelayEvent::Ready => RelayAction::Refresh,
        RelayEvent::ChannelCreated => RelayAction::Refresh,
        RelayEvent::MessageCreated { channel } => RelayAction::Relay { channel: *channel },
        RelayEvent::Other => RelayAction::Ignore,
    }
}

} // verus!
