//! The message-relay pipeline: translating one source message into the
//! outbound pushes for its destination channels, with author identity, text,
//! embeds and the attachments that could be re-hosted.

use vstd::prelude::*;

use crate::endpoints::DeliveryEndpoint;
use crate::routing::ChannelMaps;

verus! {

/// One source message, reduced to what a relay carries: author display name,
/// author avatar (already defaulted), text content, embed descriptors, and
/// the source URLs of its attachments. It lives only for one relay.
pub struct RelayMessage {
    pub author_name: String,
    pub avatar_url: String,
    pub content: String,
    pub embeds: Vec<String>,
    pub attachment_urls: Vec<String>,
}

/// One outbound push: everything handed to a destination's delivery
/// endpoint for one relay, with the attachments that fetched successfully.
pub struct OutboundPush<A> {
    pub endpoint: DeliveryEndpoint,
    pub author_name: String,
    pub avatar_url: String,
    pub content: String,
    pub embeds: Vec<String>,
    pub attachments: Vec<A>,
}

/// The fixed placeholder avatar used when a message's author has none.
pub open spec fn default_avatar_spec() -> Seq<char> {
    "https://cdn.discordapp.com/embed/avatars/1.png"@
}

/// The fixed placeholder avatar as a value.
pub fn default_avatar_url() -> (r: String)
    ensures
        r@ == default_avatar_spec(),
{
    String::from_str("https://cdn.discordapp.com/embed/avatars/1.png")
}

/// The author's avatar when one is set, the fixed placeholder otherwise.
pub fn avatar_or_default(avatar: Option<String>) -> (r: String)
    ensures
        avatar matches Some(u) ==> r@ == u@,
        avatar is None ==> r@ == default_avatar_spec(),
{
    match avatar {
        Some(u) => u,
        None => default_avatar_url(),
    }
}

/// Builds the transient relay form of a message from the event's payload.
pub fn build_relay_message(
    author_name: String,
    avatar: Option<String>,
    content: String,
    embeds: Vec<String>,
    attachment_urls: Vec<String>,
) -> (m: RelayMessage)
    ensures
        m.author_name == author_name,
        m.content == content,
        m.embeds == embeds,
        m.attachment_urls == attachment_urls,
        avatar matches Some(u) ==> m.avatar_url@ == u@,
        avatar is None ==> m.avatar_url@ == default_avatar_spec(),
{
    RelayMessage {
        author_name,
        avatar_url: avatar_or_default(avatar),
        content,
        embeds,
        attachment_urls,
    }
}

/// The successful results among `results`, in order; failures are dropped.
pub open spec fn successes_of<A>(results: Seq<Option<A>>) -> Seq<A>
    decreases results.len(),
{
    if results.len() == 0 {
        Seq::empty()
    } else {
        let rest = successes_of(results.drop_last());
        match results.last() {
            Some(a) => rest.push(a),
            None => rest,
        }
    }
}

/// Collects the attachments that fetched successfully, in result order. A
/// failed fetch is dropped and never aborts the relay: the message still
/// goes out with the attachments that could be re-hosted.
pub fn keep_successes<A>(results: Vec<Option<A>>) -> (r: Vec<A>)
    ensures
        r@ == successes_of(results@),
{
    let ghost orig = results@;
    let mut rem = results;
    let mut out: Vec<A> = Vec::new();
    while rem.len() > 0
        invariant
            rem@.len() <= orig.len(),
            rem@ == orig.subrange(orig.len() - rem@.len(), orig.len() as int),
            out@ == successes_of(orig.subrange(0, orig.len() - rem@.len())),
        decreases rem@.len(),
    {
        let ghost k = orig.len() - rem@.len();
        let x = rem.remove(0);
        proof {
            assert(x == orig[k as int]);
            assert(rem@ =~= orig.subrange(k as int + 1, orig.len() as int));
            assert(orig.subrange(0, k as int + 1).drop_last() =~= orig.subrange(0, k as int));
            assert(orig.subrange(0, k as int + 1).last() == orig[k as int]);
        }
        match x {
            Some(a) => {
                out.push(a);
            },
            None => {},
        }
    }
    proof {
        assert(orig.subrange(0, orig.len() as int) =~= orig);
    }
    out
}

/// An equal copy of a list of strings.
fn clone_strings(v: &Vec<String>) -> (r: Vec<String>)
    ensures
        r@ == v@,
{
    let mut r: Vec<String> = Vec::new();
    let mut i: usize = 0;
    while i < v.len()
        invariant
            i <= v@.len(),
            r@ == v@.subrange(0, i as int),
        decreases v@.len() - i,
    {
        r.push(v[i].clone());
        proof {
            assert(r@ =~= v@.subrange(0, i + 1));
        }
        i += 1;
    }
    proof {
        assert(v@.subrange(0, v@.len() as int) =~= v@);
    }
    r
}

/// Assembles the one outbound push for one destination channel: the
/// message's content, author identity and embeds, unchanged, plus the
/// attachments that fetched successfully.
pub fn build_push<A>(endpoint: &DeliveryEndpoint, msg: &RelayMessage, fetched: Vec<A>) -> (p:
    OutboundPush<A>)
    ensures
        p.endpoint == *endpoint,
        p.author_name@ == msg.author_name@,
        p.avatar_url@ == msg.avatar_url@,
        p.content@ == msg.content@,
        p.embeds@ == msg.embeds@,
        p.attachments == fetched,
{
    OutboundPush {
        endpoint: endpoint.duplicate(),
        author_name: msg.author_name.clone(),
        avatar_url: msg.avatar_url.clone(),
        content: msg.content.clone(),
        embeds: clone_strings(&msg.embeds),
        attachments: fetched,
    }
}

/// Relay planning for one message event: one delivery endpoint per
/// destination channel mapped for `source`, in fan-out order. A source
/// channel outside the mapping yields no pushes at all. The dispatches are
/// independent values: no dispatch depends on another's outcome.
pub fn plan_dispatches(table: &ChannelMaps, source: u64) -> (r: Vec<DeliveryEndpoint>)
    requires
        table.wf(),
    ensures
        !table.channel_map@.contains_key(source) ==> r@.len() == 0,
        table.channel_map@.contains_key(source) ==> {
            let dests = table.channel_map@[source]@;
            &&& r@.len() == dests.len()
            &&& forall|i: int|
                0 <= i < dests.len() ==> #[trigger] r@[i] == table.webhook_map@[dests[i]]
                    && r@[i].channel == dests[i]
        },
{
    let mut out: Vec<DeliveryEndpoint> = Vec::new();
    match table.destinations(source) {
        None => out,
        Some(dests) => {
            let mut i: usize = 0;
            while i < dests.len()
                invariant
                    table.wf(),
                    table.channel_map@.contains_key(source),
                    dests@ == table.channel_map@[source]@,
                    i <= dests@.len(),
                    out@.len() == i,
                    forall|k: int|
                        0 <= k < i ==> #[trigger] out@[k] == table.webhook_map@[dests@[k]]
                            && out@[k].channel == dests@[k],
                decreases dests@.len() - i,
            {
                let d = dests[i];
                match table.endpoint_for(d) {
                    Some(e) => {
                        out.push(e.duplicate());
                    },
                    None => {
                        proof {
                            assert(false);
                        }
                    },
                }
                i += 1;
            }
            out
        },
    }
}

} // verus!
