//! Mirrors the channel topology of a source community onto a destination
//! community and relays messages from each source channel to its mirror.
//!
//! The crate holds the relay's logic: channel discovery (matching a source
//! channel's identifier against destination channel names), delivery-endpoint
//! selection, the routing table with its completeness invariant, and the
//! translation of a message into outbound pushes. Network calls to the chat
//! platform live outside this crate; its functions work on plain values
//! handed in by the caller.

pub mod discovery;
pub mod endpoints;
pub mod events;
pub mod relay;
pub mod routing;
pub mod text;
