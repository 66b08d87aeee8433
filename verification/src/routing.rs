//! The routing table: the channel mapping (source channel to its destination
//! channels) paired with the delivery endpoint resolved for every destination
//! channel. A table is built whole from a resolved discovery plan, checked
//! for completeness, and installed as a single unit; a failed refresh leaves
//! the previously installed table untouched.

use std::collections::HashMap;

use vstd::prelude::*;

use crate::discovery::ChannelInfo;
use crate::discovery::PlanEntry;
use crate::discovery::entry_matches;
use crate::discovery::plan_matches;
use crate::discovery::relay_sources;
use crate::discovery::resolved_dest;
use crate::endpoints::DeliveryEndpoint;

verus! {

broadcast use vstd::std_specs::hash::group_hash_axioms;

/// Why a refresh cycle was aborted. An aborted refresh never installs a
/// table; the previously installed one keeps serving.
#[derive(Clone, Copy, PartialEq, Eq, Structural, Debug)]
pub enum RefreshError {
    /// The acting identity lacks a role it needs in the destination
    /// community; the operator must fix the community's configuration.
    Configuration,
    /// An external platform call failed.
    Platform,
    /// No delivery endpoint was supplied for this destination channel.
    MissingEndpoint { channel: u64 },
}

/// The routing table: `channel_map` sends each mirrored source channel to
/// its ordered destination channels; `webhook_map` holds the delivery
/// endpoint resolved for each destination channel.
pub struct ChannelMaps {
    pub channel_map: HashMap<u64, Vec<u64>>,
    pub webhook_map: HashMap<u64, DeliveryEndpoint>,
}

impl ChannelMaps {
    /// Completeness invariant: no source maps to an empty destination list,
    /// and every listed destination channel has a delivery endpoint,
    /// registered under its own channel.
    pub open spec fn wf(self) -> bool {
        forall|s: u64| #[trigger]
            self.channel_map@.contains_key(s) ==> {
                let dests = self.channel_map@[s]@;
                &&& dests.len() > 0
                &&& forall|i: int|
                    0 <= i < dests.len() ==> self.webhook_map@.contains_key(#[trigger] dests[i])
                        && self.webhook_map@[dests[i]].channel == dests[i]
            }
    }

    /// The empty table a process starts with: nothing is relayed until the
    /// first refresh installs a real table.
    pub fn empty() -> (r: ChannelMaps)
        ensures
            r.channel_map@ == Map::<u64, Vec<u64>>::empty(),
            r.webhook_map@ == Map::<u64, DeliveryEndpoint>::empty(),
            r.wf(),
    {
        ChannelMaps { channel_map: HashMap::new(), webhook_map: HashMap::new() }
    }

    /// The destination channels mapped for `source`; `None` when the source
    /// channel is outside the mirrored set.
    pub fn destinations(&self, source: u64) -> (r: Option<&Vec<u64>>)
        ensures
            match r {
                Some(v) => self.channel_map@.contains_key(source) && v@
                    == self.channel_map@[source]@,
                None => !self.channel_map@.contains_key(source),
            },
    {
        self.channel_map.get(&source)
    }

    /// The delivery endpoint resolved for destination channel `dest`.
    pub fn endpoint_for(&self, dest: u64) -> (r: Option<&DeliveryEndpoint>)
        ensures
            match r {
                Some(e) => self.webhook_map@.contains_key(dest) && *e
                    == self.webhook_map@[dest],
                None => !self.webhook_map@.contains_key(dest),
            },
    {
        self.webhook_map.get(&dest)
    }

    /// Installs the outcome of a refresh cycle as one atomic step: a
    /// successfully built table replaces this one wholesale; an aborted
    /// refresh leaves this table exactly as it was, still serving.
    pub fn install_refresh(&mut self, outcome: Result<ChannelMaps, RefreshError>) -> (r: Result<
        (),
        RefreshError,
    >)
        ensures
            outcome matches Ok(t) ==> *final(self) == t && r is Ok,
            outcome matches Err(e) ==> *final(self) == *old(self) && r == Err::<(), RefreshError>(e),
    {
        match outcome {
            Ok(t) => {
                *self = t;
                Ok(())
            },
            Err(e) => Err(e),
        }
    }
}

/// Some endpoint among `endpoints` belongs to destination channel `d`.
pub open spec fn covered(endpoints: Seq<DeliveryEndpoint>, d: u64) -> bool {
    exists|j: int| 0 <= j < endpoints.len() && (#[trigger] endpoints[j]).channel == d
}

/// Every destination of `pairs` has an endpoint among `endpoints`.
pub open spec fn endpoints_cover(pairs: Seq<(u64, u64)>, endpoints: Seq<DeliveryEndpoint>) -> bool {
    forall|i: int| 0 <= i < pairs.len() ==> covered(endpoints, (#[trigger] pairs[i]).1)
}

/// Builds a routing table from resolved source/destination pairs and the
/// delivery endpoints resolved for the destinations. Succeeds exactly when
/// every destination is covered by an endpoint; otherwise the refresh is
/// aborted and nothing is installed.
pub fn assemble_table(pairs: &Vec<(u64, u64)>, endpoints: &Vec<DeliveryEndpoint>) -> (r: Result<
    ChannelMaps,
    RefreshError,
>)
    requires
        forall|i: int, j: int|
            0 <= i < j < pairs@.len() ==> (#[trigger] pairs@[i]).0 != (#[trigger] pairs@[j]).0,
    ensures
        r is Ok <==> endpoints_cover(pairs@, endpoints@),
        r matches Ok(t) ==> {
            &&& t.wf()
            &&& forall|i: int|
                0 <= i < pairs@.len() ==> t.channel_map@.contains_key((#[trigger] pairs@[i]).0)
                    && t.channel_map@[pairs@[i].0]@ == seq![pairs@[i].1]
            &&& forall|s: u64| #[trigger]
                t.channel_map@.contains_key(s) ==> exists|i: int|
                    0 <= i < pairs@.len() && (#[trigger] pairs@[i]).0 == s
            &&& forall|d: u64| #[trigger]
                t.webhook_map@.contains_key(d) ==> exists|j: int|
                    0 <= j < endpoints@.len() && #[trigger] endpoints@[j] == t.webhook_map@[d]
                        && endpoints@[j].channel == d
        },
        r matches Err(e) ==> e matches RefreshError::MissingEndpoint { channel }
            && !covered(endpoints@, channel) && exists|i: int|
            0 <= i < pairs@.len() && (#[trigger] pairs@[i]).1 == channel && (forall|k: int|
                0 <= k < i ==> covered(endpoints@, (#[trigger] pairs@[k]).1)),
{
    let mut webhook_map: HashMap<u64, DeliveryEndpoint> = HashMap::new();
    let mut n: usize = 0;
    while n < endpoints.len()
        invariant
            n <= endpoints@.len(),
            forall|d: u64| #[trigger]
                webhook_map@.contains_key(d) ==> exists|j: int|
                    0 <= j < endpoints@.len() && #[trigger] endpoints@[j] == webhook_map@[d]
                        && endpoints@[j].channel == d,
            forall|j: int|
                0 <= j < n ==> webhook_map@.contains_key((#[trigger] endpoints@[j]).channel),
        decreases endpoints@.len() - n,
    {
        let e = endpoints[n].duplicate();
        webhook_map.insert(e.channel, e);
        n += 1;
    }
    let mut channel_map: HashMap<u64, Vec<u64>> = HashMap::new();
    let mut i: usize = 0;
    while i < pairs.len()
        invariant
            forall|i2: int, j2: int|
                0 <= i2 < j2 < pairs@.len() ==> (#[trigger] pairs@[i2]).0 != (
                #[trigger] pairs@[j2]).0,
            i <= pairs@.len(),
            forall|d: u64| #[trigger]
                webhook_map@.contains_key(d) ==> exists|j: int|
                    0 <= j < endpoints@.len() && #[trigger] endpoints@[j] == webhook_map@[d] && endpoints@[j].channel
                        == d,
            forall|j: int| 0 <= j < endpoints@.len() ==> webhook_map@.contains_key(
                (#[trigger] endpoints@[j]).channel,
            ),
            forall|k: int|
                0 <= k < i ==> channel_map@.contains_key((#[trigger] pairs@[k]).0)
                    && channel_map@[pairs@[k].0]@ == seq![pairs@[k].1],
            forall|s: u64| #[trigger]
                channel_map@.contains_key(s) ==> exists|k: int|
                    0 <= k < i && (#[trigger] pairs@[k]).0 == s,
            forall|k: int| 0 <= k < i ==> webhook_map@.contains_key((#[trigger] pairs@[k]).1),
        decreases pairs@.len() - i,
    {
        let (source, dest) = pairs[i];
        if !webhook_map.contains_key(&dest) {
            proof {
                assert(forall|j: int|
                    0 <= j < endpoints@.len() ==> (#[trigger] endpoints@[j]).channel != dest);
                assert(!covered(endpoints@, dest));
                assert(0 <= i < pairs@.len() && (pairs@[i as int]).1 == dest);
                assert(!endpoints_cover(pairs@, endpoints@));
                assert forall|k: int| 0 <= k < i implies covered(
                    endpoints@,
                    (#[trigger] pairs@[k]).1,
                ) by {
                    let d = pairs@[k].1;
                    assert(webhook_map@.contains_key(d));
                    let j = choose|j: int|
                        0 <= j < endpoints@.len() && #[trigger] endpoints@[j] == webhook_map@[d]
                            && endpoints@[j].channel == d;
                    assert(0 <= j < endpoints@.len() && endpoints@[j].channel == d);
                }
            }
            return Err(RefreshError::MissingEndpoint { channel: dest });
        }
        let dests = vec![dest];
        proof {
            assert(dests@ =~= seq![dest]);
        }
        channel_map.insert(source, dests);
        i += 1;
    }
    let table = ChannelMaps { channel_map, webhook_map };
    proof {
        assert forall|i2: int| 0 <= i2 < pairs@.len() implies covered(
            endpoints@,
            (#[trigger] pairs@[i2]).1,
        ) by {
            assert(webhook_map@.contains_key(pairs@[i2].1));
            let j = choose|j: int|
                0 <= j < endpoints@.len() && #[trigger] endpoints@[j] == webhook_map@[pairs@[i2].1]
                    && endpoints@[j].channel == pairs@[i2].1;
            assert(0 <= j < endpoints@.len() && endpoints@[j].channel == pairs@[i2].1);
        }
        assert(endpoints_cover(pairs@, endpoints@));
        assert forall|s: u64| #[trigger] table.channel_map@.contains_key(s) implies {
            let dests = table.channel_map@[s]@;
            dests.len() > 0 && forall|k: int|
                0 <= k < dests.len() ==> table.webhook_map@.contains_key(#[trigger] dests[k])
                    && table.webhook_map@[dests[k]].channel == dests[k]
        } by {
            let k = choose|k: int| 0 <= k < pairs@.len() && (#[trigger] pairs@[k]).0 == s;
            assert(table.channel_map@[s]@ == seq![pairs@[k].1]);
        }
    }
    Ok(table)
}

/// Mapping completeness: after a successful refresh — a discovery plan for
/// the two communities, resolved into source/destination pairs and
/// assembled with the destinations' endpoints — the routing table holds
/// exactly one entry for every non-category source channel and nothing
/// else, and every listed destination channel carries a resolved delivery
/// endpoint. The `requires` restate what `plan_discovery`, `resolve_plan`
/// and `assemble_table` ensure along the successful path.
pub proof fn lemma_refresh_completeness(
    senders: Seq<ChannelInfo>,
    receivers: Seq<ChannelInfo>,
    plan: Seq<PlanEntry>,
    created: Seq<u64>,
    pairs: Seq<(u64, u64)>,
    table: ChannelMaps,
)
    requires
        plan_matches(plan, senders, receivers),
        pairs.len() == plan.len(),
        forall|i: int|
            0 <= i < plan.len() ==> (#[trigger] pairs[i]).0 == plan[i].source && pairs[i].1
                == resolved_dest(plan, created, i),
        table.wf(),
        forall|i: int|
            0 <= i < pairs.len() ==> table.channel_map@.contains_key((#[trigger] pairs[i]).0)
                && table.channel_map@[pairs[i].0]@ == seq![pairs[i].1],
        forall|s: u64| #[trigger]
            table.channel_map@.contains_key(s) ==> exists|i: int|
                0 <= i < pairs.len() && (#[trigger] pairs[i]).0 == s,
    ensures
        forall|k: int|
            0 <= k < relay_sources(senders).len() ==> {
                let s = #[trigger] relay_sources(senders)[k];
                &&& table.channel_map@.contains_key(s.id)
                &&& table.channel_map@[s.id]@.len() == 1
                &&& table.webhook_map@.contains_key(table.channel_map@[s.id]@[0])
            },
        forall|sid: u64| #[trigger]
            table.channel_map@.contains_key(sid) ==> exists|k: int|
                0 <= k < relay_sources(senders).len() && (#[trigger] relay_sources(
                    senders,
                )[k]).id == sid,
{
    let rs = relay_sources(senders);
    assert forall|k: int| 0 <= k < rs.len() implies {
        let s = #[trigger] rs[k];
        &&& table.channel_map@.contains_key(s.id)
        &&& table.channel_map@[s.id]@.len() == 1
        &&& table.webhook_map@.contains_key(table.channel_map@[s.id]@[0])
    } by {
        let s = rs[k];
        assert(entry_matches(plan[k], s, receivers));
        assert(pairs[k].0 == s.id);
        assert(table.channel_map@.contains_key(s.id) && table.channel_map@[s.id]@ == seq![
            pairs[k].1,
        ]);
    }
    assert forall|sid: u64| #[trigger] table.channel_map@.contains_key(sid) implies exists|k: int|
        0 <= k < rs.len() && (#[trigger] rs[k]).id == sid by {
        let i = choose|i: int| 0 <= i < pairs.len() && (#[trigger] pairs[i]).0 == sid;
        assert(entry_matches(plan[i], rs[i], receivers));
        assert(rs[i].id == plan[i].source == pairs[i].0 == sid);
    }
}

} // verus!
