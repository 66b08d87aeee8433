//! Channel discovery: for each non-category channel of the source community,
//! find the destination channel whose name embeds the source channel's
//! identifier, or plan the creation of a fresh mirror channel.
//!
//! Discovery is a pure function over the two communities' channel lists. Its
//! result is a plan: per source channel, either the matched destination
//! channel or a creation request. The caller performs the planned creations
//! against the platform and resolves the plan into source/destination pairs.

use vstd::prelude::*;

use crate::text::contains_seq;
use crate::text::dec_rep;
use crate::text::lemma_mirror_name_embeds_id;
use crate::text::mirror_name;
use crate::text::mirror_name_spec;
use crate::text::str_contains;
use crate::text::u64_to_dec;

verus! {

/// The kind of a channel, as far as the relay cares: categories are
/// containers and never relayed; every other kind is carried through so a
/// mirror channel can be created with its source's kind.
#[derive(Clone, Copy, PartialEq, Eq, Structural, Debug)]
pub enum ChannelKind {
    Category,
    Text,
    Voice,
    News,
    Stage,
    Forum,
    Other,
}

/// One channel of a community: its platform identifier, its name, its kind.
pub struct ChannelInfo {
    pub id: u64,
    pub name: String,
    pub kind: ChannelKind,
}

/// What discovery decided for one source channel.
pub enum MirrorTarget {
    /// An existing destination channel whose name embeds the source identifier.
    Existing { dest: u64 },
    /// No destination channel matches: create one with this name and kind.
    Create { name: String, kind: ChannelKind },
}

/// One entry of a discovery plan: a source channel and its target.
pub struct PlanEntry {
    pub source: u64,
    pub target: MirrorTarget,
}

/// A destination channel can receive the relay for source identifier `id`:
/// it is not a category and its name embeds the decimal text of `id`.
pub open spec fn is_mirror_candidate(c: ChannelInfo, id: nat) -> bool {
    c.kind != ChannelKind::Category && contains_seq(c.name@, dec_rep(id))
}

/// No channel of `receivers` is a mirror candidate for `id`.
pub open spec fn no_candidate(receivers: Seq<ChannelInfo>, id: nat) -> bool {
    forall|j: int| 0 <= j < receivers.len() ==> !is_mirror_candidate(receivers[j], id)
}

/// `receivers[j]` is the first mirror candidate for `id` in list order.
pub open spec fn first_candidate_is(receivers: Seq<ChannelInfo>, id: nat, j: int) -> bool {
    &&& 0 <= j < receivers.len()
    &&& is_mirror_candidate(receivers[j], id)
    &&& forall|k: int| 0 <= k < j ==> !is_mirror_candidate(receivers[k], id)
}

/// The source channels that take part in the relay: the non-category
/// channels, in list order.
pub open spec fn relay_sources(senders: Seq<ChannelInfo>) -> Seq<ChannelInfo>
    decreases senders.len(),
{
    if senders.len() == 0 {
        Seq::empty()
    } else {
        let rest = relay_sources(senders.drop_last());
        if senders.last().kind != ChannelKind::Category {
            rest.push(senders.last())
        } else {
            rest
        }
    }
}

/// `e` is the correct plan entry for source channel `s` against `receivers`:
/// the first candidate where one exists, otherwise a creation request whose
/// name is the mirror name of `s` and whose kind is the kind of `s`.
pub open spec fn entry_matches(e: PlanEntry, s: ChannelInfo, receivers: Seq<ChannelInfo>) -> bool {
    &&& e.source == s.id
    &&& match e.target {
        MirrorTarget::Existing { dest } => exists|j: int|
            first_candidate_is(receivers, s.id as nat, j) && dest == receivers[j].id,
        MirrorTarget::Create { name, kind } => {
            &&& no_candidate(receivers, s.id as nat)
            &&& name@ == mirror_name_spec(s.name@, s.id as nat)
            &&& kind == s.kind
        },
    }
}

/// `plan` is the discovery plan for `senders` against `receivers`: one entry
/// per non-category source channel, in source list order.
pub open spec fn plan_matches(
    plan: Seq<PlanEntry>,
    senders: Seq<ChannelInfo>,
    receivers: Seq<ChannelInfo>,
) -> bool {
    &&& plan.len() == relay_sources(senders).len()
    &&& forall|i: int|
        0 <= i < plan.len() ==> entry_matches(plan[i], relay_sources(senders)[i], receivers)
}

/// Finds the first mirror candidate for source identifier `id` among
/// `receivers`, returning its channel identifier.
fn find_mirror(receivers: &Vec<ChannelInfo>, id: u64) -> (r: Option<u64>)
    ensures
        match r {
            Some(d) => exists|j: int|
                first_candidate_is(receivers@, id as nat, j) && d == receivers@[j].id,
            None => no_candidate(receivers@, id as nat),
        },
{
    let id_text = u64_to_dec(id);
    let mut j: usize = 0;
    while j < receivers.len()
        invariant
            id_text@ == dec_rep(id as nat),
            j <= receivers@.len(),
            forall|k: int| 0 <= k < j ==> !is_mirror_candidate(receivers@[k], id as nat),
        decreases receivers@.len() - j,
    {
        let c = &receivers[j];
        if c.kind != ChannelKind::Category && str_contains(c.name.as_str(), id_text.as_str()) {
            proof {
                assert(first_candidate_is(receivers@, id as nat, j as int));
            }
            return Some(c.id);
        }
        j += 1;
    }
    None
}

/// Channel discovery over the two communities' channel lists: maps every
/// non-category source channel to its first matching destination channel, or
/// to a creation request when no destination channel's name embeds the
/// source identifier.
pub fn plan_discovery(senders: &Vec<ChannelInfo>, receivers: &Vec<ChannelInfo>) -> (plan: Vec<
    PlanEntry,
>)
    ensures
        plan_matches(plan@, senders@, receivers@),
{
    let mut plan: Vec<PlanEntry> = Vec::new();
    let mut i: usize = 0;
    while i < senders.len()
        invariant
            i <= senders@.len(),
            plan_matches(plan@, senders@.subrange(0, i as int), receivers@),
        decreases senders@.len() - i,
    {
        proof {
            assert(senders@.subrange(0, i + 1).drop_last() =~= senders@.subrange(0, i as int));
            assert(senders@.subrange(0, i + 1).last() == senders@[i as int]);
        }
        let s = &senders[i];
        if s.kind != ChannelKind::Category {
            let target = match find_mirror(receivers, s.id) {
                Some(d) => MirrorTarget::Existing { dest: d },
                None => MirrorTarget::Create {
                    name: mirror_name(s.name.as_str(), s.id),
                    kind: s.kind,
                },
            };
            plan.push(PlanEntry { source: s.id, target });
        }
        i += 1;
    }
    proof {
        assert(senders@.subrange(0, senders@.len() as int) =~= senders@);
    }
    plan
}

/// How many entries of `plan` ask for a channel to be created.
pub open spec fn create_count(plan: Seq<PlanEntry>) -> nat
    decreases plan.len(),
{
    if plan.len() == 0 {
        0
    } else {
        create_count(plan.drop_last()) + (if plan.last().target is Create {
            1nat
        } else {
            0nat
        })
    }
}

/// The destination channel that entry `i` of `plan` resolves to, once the
/// planned creations produced the channel identifiers `created` (one per
/// creation request, in plan order).
pub open spec fn resolved_dest(plan: Seq<PlanEntry>, created: Seq<u64>, i: int) -> u64 {
    match plan[i].target {
        MirrorTarget::Existing { dest } => dest,
        MirrorTarget::Create { .. } => created[create_count(plan.subrange(0, i)) as int],
    }
}

proof fn lemma_create_count_mono(plan: Seq<PlanEntry>, j: int, k: int)
    requires
        0 <= j <= k <= plan.len(),
    ensures
        create_count(plan.subrange(0, j)) <= create_count(plan.subrange(0, k)),
    decreases k - j,
{
    if j < k {
        lemma_create_count_mono(plan, j, k - 1);
        assert(plan.subrange(0, k).drop_last() =~= plan.subrange(0, k - 1));
    }
}

/// Pairs every plan entry with its destination channel: the matched channel
/// for `Existing` entries, the next identifier from `created` for `Create`
/// entries. `created` holds the identifiers of the channels created for the
/// plan's creation requests, in plan order.
pub fn resolve_plan(plan: &Vec<PlanEntry>, created: &Vec<u64>) -> (pairs: Vec<(u64, u64)>)
    requires
        created@.len() == create_count(plan@),
    ensures
        pairs@.len() == plan@.len(),
        forall|i: int|
            0 <= i < plan@.len() ==> (#[trigger] pairs@[i]).0 == plan@[i].source && pairs@[i].1
                == resolved_dest(plan@, created@, i),
{
    let mut pairs: Vec<(u64, u64)> = Vec::new();
    let created_len = created.len();
    let mut next_created: usize = 0;
    let mut i: usize = 0;
    while i < plan.len()
        invariant
            created@.len() == create_count(plan@),
            created_len == created@.len(),
            i <= plan@.len(),
            next_created == create_count(plan@.subrange(0, i as int)),
            pairs@.len() == i,
            forall|k: int|
                0 <= k < i ==> (#[trigger] pairs@[k]).0 == plan@[k].source && pairs@[k].1
                    == resolved_dest(plan@, created@, k),
        decreases plan@.len() - i,
    {
        proof {
            assert(plan@.subrange(0, i + 1).drop_last() =~= plan@.subrange(0, i as int));
            assert(plan@.subrange(0, i + 1).last() == plan@[i as int]);
            lemma_create_count_mono(plan@, i + 1, plan@.len() as int);
            assert(plan@.subrange(0, plan@.len() as int) =~= plan@);
        }
        let e = &plan[i];
        match &e.target {
            MirrorTarget::Existing { dest } => {
                pairs.push((e.source, *dest));
            },
            MirrorTarget::Create { .. } => {
                pairs.push((e.source, created[next_created]));
                next_created += 1;
            },
        }
        i += 1;
    }
    proof {
        assert(plan@.subrange(0, plan@.len() as int) =~= plan@);
    }
    pairs
}

/// A plan none of whose entries asks for a creation has a creation count of
/// zero.
proof fn lemma_no_creates_count(plan: Seq<PlanEntry>)
    requires
        forall|i: int| 0 <= i < plan.len() ==> !((#[trigger] plan[i]).target is Create),
    ensures
        create_count(plan) == 0,
    decreases plan.len(),
{
    if plan.len() > 0 {
        assert(forall|i: int|
            0 <= i < plan.drop_last().len() ==> plan.drop_last()[i] == plan[i]);
        lemma_no_creates_count(plan.drop_last());
    }
}

/// Every channel that takes part in the relay is a non-category channel.
pub proof fn lemma_relay_sources_non_category(senders: Seq<ChannelInfo>)
    ensures
        forall|k: int|
            0 <= k < relay_sources(senders).len() ==> (#[trigger] relay_sources(senders)[k]).kind
                != ChannelKind::Category,
    decreases senders.len(),
{
    if senders.len() > 0 {
        lemma_relay_sources_non_category(senders.drop_last());
    }
}

/// Every channel that takes part in the relay is one of the source
/// community's channels.
proof fn lemma_relay_sources_elem(senders: Seq<ChannelInfo>)
    ensures
        forall|k: int|
            0 <= k < relay_sources(senders).len() ==> exists|i: int|
                0 <= i < senders.len() && #[trigger] senders[i] == #[trigger] relay_sources(
                    senders,
                )[k],
    decreases senders.len(),
{
    if senders.len() > 0 {
        let dl = senders.drop_last();
        lemma_relay_sources_elem(dl);
        let rest = relay_sources(dl);
        assert forall|k: int| 0 <= k < relay_sources(senders).len() implies exists|i: int|
            0 <= i < senders.len() && #[trigger] senders[i] == #[trigger] relay_sources(
                senders,
            )[k] by {
            if k < rest.len() {
                let i = choose|i: int| 0 <= i < dl.len() && #[trigger] dl[i] == rest[k];
                assert(senders[i] == relay_sources(senders)[k]);
            } else {
                assert(senders[senders.len() - 1] == relay_sources(senders)[k]);
            }
        }
    }
}

/// When the source community's channel identifiers are unique, so are the
/// identifiers of the channels that take part in the relay.
proof fn lemma_relay_sources_distinct_ids(senders: Seq<ChannelInfo>)
    requires
        forall|a: int, b: int|
            0 <= a < b < senders.len() ==> (#[trigger] senders[a]).id != (#[trigger] senders[b]).id,
    ensures
        forall|a: int, b: int|
            0 <= a < b < relay_sources(senders).len() ==> (#[trigger] relay_sources(senders)[a]).id
                != (#[trigger] relay_sources(senders)[b]).id,
    decreases senders.len(),
{
    if senders.len() > 0 {
        let dl = senders.drop_last();
        assert(forall|a: int, b: int|
            0 <= a < b < dl.len() ==> (#[trigger] dl[a]).id != (#[trigger] dl[b]).id);
        lemma_relay_sources_distinct_ids(dl);
        lemma_relay_sources_elem(dl);
        let rest = relay_sources(dl);
        if senders.last().kind != ChannelKind::Category {
            assert forall|a: int| 0 <= a < rest.len() implies (#[trigger] rest[a]).id
                != senders.last().id by {
                let i = choose|i: int| 0 <= i < dl.len() && #[trigger] dl[i] == rest[a];
                assert(senders[i].id != senders[senders.len() - 1].id);
            }
        }
    }
}

/// A discovery plan over communities with unique channel identifiers maps
/// every source channel exactly once: its entries' sources are pairwise
/// distinct, so the routing table can be keyed by them.
pub proof fn lemma_plan_sources_unique(
    plan: Seq<PlanEntry>,
    senders: Seq<ChannelInfo>,
    receivers: Seq<ChannelInfo>,
)
    requires
        plan_matches(plan, senders, receivers),
        forall|a: int, b: int|
            0 <= a < b < senders.len() ==> (#[trigger] senders[a]).id != (#[trigger] senders[b]).id,
    ensures
        forall|a: int, b: int|
            0 <= a < b < plan.len() ==> (#[trigger] plan[a]).source != (#[trigger] plan[b]).source,
{
    lemma_relay_sources_distinct_ids(senders);
    let rs = relay_sources(senders);
    assert forall|a: int, b: int| 0 <= a < b < plan.len() implies (#[trigger] plan[a]).source != (
    #[trigger] plan[b]).source by {
        assert(entry_matches(plan[a], rs[a], receivers));
        assert(entry_matches(plan[b], rs[b], receivers));
    }
}

/// Discovery is idempotent: once the creation requests of a first discovery
/// run have been realized as channels of the destination community, a second
/// run against the unchanged source community creates nothing — every source
/// channel now finds an existing mirror, because a realized mirror's name
/// embeds its source's identifier.
pub proof fn lemma_discovery_idempotent(
    senders: Seq<ChannelInfo>,
    receivers: Seq<ChannelInfo>,
    plan1: Seq<PlanEntry>,
    created: Seq<ChannelInfo>,
    plan2: Seq<PlanEntry>,
)
    requires
        plan_matches(plan1, senders, receivers),
        forall|i: int|
            0 <= i < plan1.len() ==> ((#[trigger] plan1[i]).target matches MirrorTarget::Create {
                name,
                kind,
            } ==> exists|j: int|
                0 <= j < created.len() && (#[trigger] created[j]).name@ == name@
                    && created[j].kind == kind),
        plan_matches(plan2, senders, receivers + created),
    ensures
        create_count(plan2) == 0,
{
    let rs = relay_sources(senders);
    let both = receivers + created;
    lemma_relay_sources_non_category(senders);
    assert forall|i: int| 0 <= i < plan2.len() implies !((#[trigger] plan2[i]).target
        is Create) by {
        let s = rs[i];
        assert(entry_matches(plan2[i], s, both));
        assert(entry_matches(plan1[i], s, receivers));
        if plan2[i].target is Create {
            assert(no_candidate(both, s.id as nat));
            match plan1[i].target {
                MirrorTarget::Existing { dest } => {
                    let j = choose|j: int|
                        first_candidate_is(receivers, s.id as nat, j) && dest == receivers[j].id;
                    assert(is_mirror_candidate(receivers[j], s.id as nat));
                    assert(both[j] == receivers[j]);
                    assert(!is_mirror_candidate(both[j], s.id as nat));
                    assert(false);
                },
                MirrorTarget::Create { name, kind } => {
                    let j = choose|j: int|
                        0 <= j < created.len() && (#[trigger] created[j]).name@ == name@
                            && created[j].kind == kind;
                    lemma_mirror_name_embeds_id(s.name@, s.id as nat);
                    assert(created[j].name@ == mirror_name_spec(s.name@, s.id as nat));
                    assert(contains_seq(created[j].name@, dec_rep(s.id as nat)));
                    assert(created[j].kind == s.kind && s.kind != ChannelKind::Category);
                    assert(is_mirror_candidate(created[j], s.id as nat));
                    assert(both[receivers.len() + j] == created[j]);
                    assert(!is_mirror_candidate(both[receivers.len() + j], s.id as nat));
                    assert(false);
                },
            }
        }
    }
    lemma_no_creates_count(plan2);
}

} // verus!
