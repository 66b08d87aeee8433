//! Delivery-endpoint resolution: a destination channel is pushed to through
//! a named, tokened endpoint. Among the endpoints the platform already lists
//! for a channel, the first one carrying a usable secret token is reused;
//! when none qualifies the caller creates a fresh endpoint under the relay's
//! fixed display name.

use vstd::prelude::*;

verus! {

/// One delivery endpoint as the platform lists it: its identifier and the
/// secret token it exposes, if any. An endpoint without a token cannot be
/// used for anonymous pushes.
pub struct EndpointInfo {
    pub id: u64,
    pub token: Option<String>,
}

/// A usable delivery endpoint for one destination channel: the channel, the
/// endpoint's identifier, and the secret token that lets the relay push
/// without further authentication.
pub struct DeliveryEndpoint {
    pub channel: u64,
    pub endpoint: u64,
    pub token: String,
}

impl DeliveryEndpoint {
    /// An equal copy of this endpoint.
    pub fn duplicate(&self) -> (r: DeliveryEndpoint)
        ensures
            r == *self,
    {
        DeliveryEndpoint {
            channel: self.channel,
            endpoint: self.endpoint,
            token: self.token.clone(),
        }
    }
}

/// The endpoint carries a secret token and can therefore push.
pub open spec fn has_token(e: EndpointInfo) -> bool {
    e.token is Some
}

/// No listed endpoint is usable for anonymous pushes.
pub open spec fn no_usable_endpoint(list: Seq<EndpointInfo>) -> bool {
    forall|j: int| 0 <= j < list.len() ==> !has_token(list[j])
}

/// `list[j]` is the first listed endpoint that carries a token.
pub open spec fn first_usable_is(list: Seq<EndpointInfo>, j: int) -> bool {
    &&& 0 <= j < list.len()
    &&& has_token(list[j])
    &&& forall|k: int| 0 <= k < j ==> !has_token(list[k])
}

/// Selects the first listed endpoint of `channel` that carries a usable
/// secret token. `None` means no listed endpoint qualifies and the caller
/// must create one.
pub fn select_endpoint(channel: u64, list: &Vec<EndpointInfo>) -> (r: Option<DeliveryEndpoint>)
    ensures
        match r {
            Some(e) => exists|j: int|
                #[trigger] first_usable_is(list@, j) && e.channel == channel && e.endpoint
                    == list@[j].id && e.token@ == list@[j].token->0@,
            None => no_usable_endpoint(list@),
        },
{
    let mut j: usize = 0;
    while j < list.len()
        invariant
            j <= list@.len(),
            forall|k: int| 0 <= k < j ==> !has_token(list@[k]),
        decreases list@.len() - j,
    {
        match &list[j].token {
            Some(t) => {
                proof {
                    assert(first_usable_is(list@, j as int));
                }
                return Some(
                    DeliveryEndpoint { channel, endpoint: list[j].id, token: t.clone() },
                );
            },
            None => {},
        }
        j += 1;
    }
    None
}

/// The fixed display name under which this relay creates delivery endpoints.
pub fn endpoint_display_name() -> (r: String)
    ensures
        r@ == "Forward Bot"@,
{
    String::from_str("Forward Bot")
}

} // verus!
