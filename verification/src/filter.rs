//! Name policy: sets of domains, the per-device overlay, and the inspection
//! of CNAME chains.
use vstd::prelude::*;
use vstd::hash_set::StringHashSet;
use crate::answer::{key_of, lemma_parent_shorter, lookup_key, parent, parent_start};
use crate::domain::{canonical, canonicalize_domain};
use crate::local_profile::ProfileLocalRecords;
use crate::record::{record_views, RData, RDataV, Record, RecordV};
use crate::settings::BlockResponse;
use crate::table::{all_well_named, well_named};
use crate::text::{lowered, texts, to_chars, to_lower, to_text};

verus! {

// ── Sets of domains ───────────────────────────────────────────────────

/// A set of domains, each of which stands for the names below it too.
pub struct DomainSet {
    names: StringHashSet,
}

impl View for DomainSet {
    type V = Set<Seq<char>>;

    closed spec fn view(&self) -> Set<Seq<char>> {
        self.names@
    }
}

/// `domain` or an ancestor of it is in the set.
pub open spec fn covered(set: Set<Seq<char>>, domain: Seq<char>) -> bool
    decreases domain.len(),
    via covered_terminates
{
    set.contains(domain) || match parent(domain) {
        Some(p) => covered(set, p),
        None => false,
    }
}

#[via_fn]
proof fn covered_terminates(set: Set<Seq<char>>, domain: Seq<char>) {
    lemma_parent_shorter(domain);
}

/// The non-empty canonical names of a list.
pub open spec fn canonical_set(domains: Seq<Seq<char>>) -> Set<Seq<char>> {
    Set::new(
        |d: Seq<char>|
            d.len() > 0 && exists|i: int|
                0 <= i < domains.len() && canonical(#[trigger] domains[i]) == d,
    )
}

impl DomainSet {
    /// The empty set.
    pub fn new() -> (r: DomainSet)
        ensures
            r@ == Set::<Seq<char>>::empty(),
    {
        DomainSet { names: StringHashSet::new() }
    }

    /// Adds a name.
    pub fn insert(&mut self, domain: &str)
        ensures
            final(self)@ == old(self)@.insert(domain@),
    {
        let _ = self.names.insert(domain.to_owned());
    }

    /// The canonical names of a list.
    pub fn from_list(domains: &Vec<String>) -> (r: DomainSet)
        ensures
            r@ == canonical_set(texts(domains@)),
    {
        let ghost all = texts(domains@);
        let mut out = DomainSet::new();
        let mut i: usize = 0;
        proof {
            assert(out@ =~= canonical_set(all.take(0)));
        }
        while i < domains.len()
            invariant
                i <= domains.len(),
                all == texts(domains@),
                out@ == canonical_set(all.take(i as int)),
            decreases domains.len() - i,
        {
            let name = canonicalize_domain(&domains[i]);
            let ghost before = all.take(i as int);
            let ghost after = all.take(i + 1);
            proof {
                assert(after[i as int] == domains@[i as int]@);
                assert forall|d: Seq<char>| canonical_set(after).contains(d) == (canonical_set(
                    before,
                ).contains(d) || (d.len() > 0 && d == name@)) by {
                    if canonical_set(before).contains(d) {
                        let k = choose|k: int|
                            0 <= k < before.len() && canonical(#[trigger] before[k]) == d;
                        assert(after[k] == before[k]);
                    }
                    if d.len() > 0 && d == name@ {
                        assert(canonical(after[i as int]) == d);
                    }
                    if canonical_set(after).contains(d) {
                        let k = choose|k: int|
                            0 <= k < after.len() && canonical(#[trigger] after[k]) == d;
                        if k < i {
                            assert(before[k] == after[k]);
                        }
                    }
                }
            }
            if !name.as_str().is_empty() {
                out.insert(&name);
            }
            proof {
                assert(out@ =~= canonical_set(after));
            }
            i += 1;
        }
        proof {
            assert(all.take(all.len() as int) =~= all);
        }
        out
    }

    /// Whether the set has no names.
    pub fn is_empty(&self) -> (r: bool)
        ensures
            r == self@.is_empty(),
    {
        self.names.is_empty()
    }

    /// Whether the set covers a name: the name itself, or one above it.
    pub fn matches(&self, domain: &str) -> (r: bool)
        ensures
            r == covered(self@, domain@),
    {
        let chars = to_chars(domain);
        let mut at: usize = 0;
        proof {
            assert(chars@.skip(0) =~= domain@);
        }
        loop
            invariant
                at <= chars.len(),
                chars@ == domain@,
                covered(self@, domain@) == covered(self@, domain@.skip(at as int)),
            decreases chars.len() - at,
        {
            let name = to_text(&chars, at, chars.len());
            proof {
                assert(name@ =~= domain@.skip(at as int));
            }
            if self.names.contains(&name) {
                return true;
            }
            match parent_start(&chars, at) {
                Some(p) => {
                    at = p;
                },
                None => {
                    return false;
                },
            }
        }
    }
}

/// Whether a set covers a domain.
pub fn domain_matches_set(domain: &str, set: &DomainSet) -> (r: bool)
    ensures
        r == covered(set@, domain@),
{
    set.matches(domain)
}

// ── Verdicts ──────────────────────────────────────────────────────────

/// What a block is attributed to.
#[derive(Clone, Copy, Debug, PartialEq, Eq, Structural)]
pub enum BlockSource {
    /// One blocklist, by its bit.
    List(u8),
    /// A custom rule.
    Rule,
    /// A denial by the operator.
    AdminBlock,
    /// A CNAME chain that returns to itself.
    CnameLoop,
    /// A CNAME chain that is too long.
    CnameDepthExceeded,
}

/// The verdict of the profile evaluator.
#[derive(Clone, Copy, Debug, PartialEq, Eq, Structural)]
pub enum FilterResult {
    Block,
    Forward,
}

/// The bit of the blocklist that a block is attributed to.
pub open spec fn list_bit(source: Option<BlockSource>) -> Option<u8> {
    match source {
        Some(BlockSource::List(b)) => Some(b),
        _ => None,
    }
}

/// The bit of the blocklist that a block is attributed to.
pub fn block_list_bit(source: Option<BlockSource>) -> (r: Option<u8>)
    ensures
        r == list_bit(source),
{
    match source {
        Some(BlockSource::List(b)) => Some(b),
        _ => None,
    }
}

/// The name of a source in logs.
pub open spec fn source_name(source: BlockSource) -> Seq<char> {
    match source {
        BlockSource::List(_) => "list"@,
        BlockSource::Rule => "rule"@,
        BlockSource::AdminBlock => "admin_block"@,
        BlockSource::CnameLoop => "cname_loop"@,
        BlockSource::CnameDepthExceeded => "cname_depth_exceeded"@,
    }
}

impl BlockSource {
    /// The name of the source in logs.
    pub fn label(&self) -> (r: &'static str)
        ensures
            r@ == source_name(*self),
    {
        match self {
            BlockSource::List(_) => "list",
            BlockSource::Rule => "rule",
            BlockSource::AdminBlock => "admin_block",
            BlockSource::CnameLoop => "cname_loop",
            BlockSource::CnameDepthExceeded => "cname_depth_exceeded",
        }
    }
}

// ── The per-device overlay ────────────────────────────────────────────

/// The layer that a decision is attributed to.
#[derive(Clone, Copy, Debug, PartialEq, Eq, Structural)]
pub enum AttribSource {
    Profile,
    Device,
}

/// Which layers have a rule for a name.
#[derive(Clone, Copy, Debug, PartialEq, Eq, Structural)]
pub struct LayerHits {
    pub profile_deny_hit: bool,
    pub device_allow_hit: bool,
    pub device_deny_hit: bool,
}

/// What the overlay of a device decides.
#[derive(Clone, Copy, Debug, PartialEq, Eq, Structural)]
pub enum OverlayDecision {
    Allow { source: AttribSource, override_used: bool },
    Block { source: AttribSource },
    FallThrough,
}

/// The rules of one device.
pub struct DeviceOverlay {
    pub device_id: String,
    pub allow: DomainSet,
    pub deny: DomainSet,
    pub override_profile_deny: bool,
}

/// The profile that a client resolved to.
pub struct ResolvedProfile {
    pub name: String,
    pub allow_domains: DomainSet,
    pub deny_domains: DomainSet,
    /// The local records of the profile.
    pub local_records: ProfileLocalRecords,
    /// How blocked names are answered.
    pub block_response: BlockResponse,
    /// The TTL of those answers.
    pub blocked_ttl_secs: u32,
}

/// The overlay table. A denial always holds, and is the profile's where both
/// layers deny. An exception of the device holds, unless the profile denies
/// the name and the device may not override it.
pub open spec fn overlay_decision(hits: LayerHits, override_flag: bool) -> OverlayDecision {
    if hits.device_deny_hit {
        OverlayDecision::Block {
            source: if hits.profile_deny_hit {
                AttribSource::Profile
            } else {
                AttribSource::Device
            },
        }
    } else if hits.device_allow_hit {
        if hits.profile_deny_hit && !override_flag {
            OverlayDecision::Block { source: AttribSource::Profile }
        } else {
            OverlayDecision::Allow {
                source: AttribSource::Device,
                override_used: hits.profile_deny_hit,
            }
        }
    } else {
        OverlayDecision::FallThrough
    }
}

/// The decision of the overlay of a device.
pub fn apply_overlay(hits: LayerHits, override_profile_deny: bool) -> (r: OverlayDecision)
    ensures
        r == overlay_decision(hits, override_profile_deny),
{
    if hits.device_deny_hit {
        let source = if hits.profile_deny_hit {
            AttribSource::Profile
        } else {
            AttribSource::Device
        };
        return OverlayDecision::Block { source };
    }
    if !hits.device_allow_hit {
        return OverlayDecision::FallThrough;
    }
    if hits.profile_deny_hit && !override_profile_deny {
        return OverlayDecision::Block { source: AttribSource::Profile };
    }
    OverlayDecision::Allow { source: AttribSource::Device, override_used: hits.profile_deny_hit }
}

/// The layers that have a rule for a name.
pub open spec fn layer_hits(
    domain: Seq<char>,
    profile: ResolvedProfile,
    overlay: DeviceOverlay,
) -> LayerHits {
    LayerHits {
        profile_deny_hit: covered(profile.deny_domains@, domain),
        device_allow_hit: covered(overlay.allow@, domain),
        device_deny_hit: covered(overlay.deny@, domain),
    }
}

/// Whether a name is blocked, and what the block is attributed to. The
/// overlay of the device decides first; where it has no rule, the profile
/// evaluator does.
pub open spec fn evaluated(
    domain: Seq<char>,
    profile: ResolvedProfile,
    overlay: Option<DeviceOverlay>,
    verdict: FilterResult,
    source: Option<BlockSource>,
) -> (bool, Option<BlockSource>) {
    let decision = match overlay {
        Some(ov) => overlay_decision(layer_hits(domain, profile, ov), ov.override_profile_deny),
        None => OverlayDecision::FallThrough,
    };
    match decision {
        OverlayDecision::Allow { .. } => (false, None),
        OverlayDecision::Block { .. } => (true, Some(BlockSource::AdminBlock)),
        OverlayDecision::FallThrough => if verdict == FilterResult::Block {
            (true, source)
        } else {
            (false, None)
        },
    }
}

/// The policy on a name allows it: the profile or the device has an exception
/// for it. That it was not blocked is not enough.
pub open spec fn exempt(
    domain: Seq<char>,
    profile: ResolvedProfile,
    overlay: Option<DeviceOverlay>,
) -> bool {
    ||| covered(profile.allow_domains@, domain)
    ||| overlay is Some && covered(overlay->0.allow@, domain)
}

/// Whether the policy on a name allows it. The inspection of an answer goes by
/// this, for the name that the answer is for.
pub fn name_allowed(
    domain: &str,
    profile: &ResolvedProfile,
    overlay: Option<&DeviceOverlay>,
) -> (r: bool)
    ensures
        r == (covered(profile.allow_domains@, domain@) || (overlay matches Some(ov) && covered(
            ov.allow@,
            domain@,
        ))),
{
    if domain_matches_set(domain, &profile.allow_domains) {
        return true;
    }
    match overlay {
        Some(ov) => domain_matches_set(domain, &ov.allow),
        None => false,
    }
}

/// Evaluates a name under the overlay of the device and the profile.
/// `verdict` and `source` are what the profile evaluator says of the name.
pub fn evaluate_with_overlay(
    domain: &str,
    profile: &ResolvedProfile,
    overlay: Option<&DeviceOverlay>,
    verdict: FilterResult,
    source: Option<BlockSource>,
) -> (r: (bool, Option<BlockSource>))
    ensures
        r == evaluated(
            domain@,
            *profile,
            match overlay {
                Some(ov) => Some(*ov),
                None => None,
            },
            verdict,
            source,
        ),
{
    match overlay {
        Some(ov) => {
            let hits = LayerHits {
                profile_deny_hit: domain_matches_set(domain, &profile.deny_domains),
                device_allow_hit: domain_matches_set(domain, &ov.allow),
                device_deny_hit: domain_matches_set(domain, &ov.deny),
            };
            match apply_overlay(hits, ov.override_profile_deny) {
                OverlayDecision::Allow { .. } => {
                    return (false, None);
                },
                OverlayDecision::Block { .. } => {
                    return (true, Some(BlockSource::AdminBlock));
                },
                OverlayDecision::FallThrough => {},
            }
        },
        None => {},
    }
    match verdict {
        FilterResult::Block => (true, source),
        FilterResult::Forward => (false, None),
    }
}

/// The name of a layer in logs.
pub open spec fn layer_name(source: AttribSource) -> Seq<char> {
    match source {
        AttribSource::Profile => "profile"@,
        AttribSource::Device => "device"@,
    }
}

/// The name of a layer in logs.
pub fn source_label(source: AttribSource) -> (r: &'static str)
    ensures
        r@ == layer_name(source),
{
    match source {
        AttribSource::Profile => "profile",
        AttribSource::Device => "device",
    }
}

// ── CNAME chains ──────────────────────────────────────────────────────

/// The longest CNAME chain that is followed, whatever the configuration says.
pub const MAX_HOPS: usize = 32;

/// The targets of the CNAME records of a response, in order: dotless and in
/// lower case.
pub open spec fn cname_targets(records: Seq<RecordV>) -> Seq<Seq<char>>
    decreases records.len(),
{
    if records.len() == 0 {
        Seq::empty()
    } else {
        let rest = cname_targets(records.drop_last());
        match records.last().data {
            RDataV::CNAME(target) => rest.push(lowered(lookup_key(target))),
            _ => rest,
        }
    }
}

/// The number of CNAME records that are inspected.
pub open spec fn chain_cap(cname_max_depth: usize) -> usize {
    if cname_max_depth < MAX_HOPS {
        cname_max_depth
    } else {
        MAX_HOPS
    }
}

/// `f` may answer `yes` when it is asked about `target`.
pub open spec fn answered<F: Fn(&str) -> bool>(f: F, target: Seq<char>, yes: bool) -> bool {
    exists|s: &str| s@ == target && #[trigger] call_ensures(f, (s,), yes)
}

/// What a walk along the targets of a chain may find under a cap.
pub open spec fn chain_hit<F: Fn(&str) -> bool>(
    targets: Seq<Seq<char>>,
    cap: int,
    is_blocked: F,
    hit: Option<Seq<char>>,
) -> bool {
    match hit {
        Some(t) => exists|k: int|
            0 <= k < targets.len() && k <= cap && t == #[trigger] targets[k] && (k < cap
                ==> answered(is_blocked, targets[k], true)) && forall|j: int|
                0 <= j < k ==> answered(is_blocked, #[trigger] targets[j], false),
        None => targets.len() <= cap && forall|j: int|
            0 <= j < targets.len() ==> answered(is_blocked, #[trigger] targets[j], false),
    }
}

/// Walks the CNAME targets of a response and returns the first that
/// `is_blocked` says yes to. A chain longer than the cap counts as blocked at
/// its first target past the cap, which is not asked about.
pub fn cname_chain_blocked<F: Fn(&str) -> bool>(
    records: &[Record],
    cname_max_depth: usize,
    is_blocked: F,
) -> (r: Option<String>)
    requires
        all_well_named(record_views(records@)),
        forall|s: &str| call_requires(is_blocked, (s,)),
    ensures
        chain_hit(
            cname_targets(record_views(records@)),
            chain_cap(cname_max_depth) as int,
            is_blocked,
            match r {
                Some(hit) => Some(hit@),
                None => None,
            },
        ),
{
    let ghost all = record_views(records@);
    let ghost targets = cname_targets(all);
    let cap: usize = if cname_max_depth < MAX_HOPS {
        cname_max_depth
    } else {
        MAX_HOPS
    };
    let mut checked: usize = 0;
    let mut i: usize = 0;
    while i < records.len()
        invariant
            i <= records.len(),
            all == record_views(records@),
            all_well_named(all),
            targets == cname_targets(all),
            cap == chain_cap(cname_max_depth),
            checked <= cap,
            checked == cname_targets(all.take(i as int)).len(),
            forall|s: &str| call_requires(is_blocked, (s,)),
            forall|j: int|
                0 <= j < checked ==> answered(is_blocked, #[trigger] targets[j], false),
        decreases records.len() - i,
    {
        proof {
            assert(all.take(i + 1).drop_last() =~= all.take(i as int));
            assert(all.take(i + 1).last() == all[i as int]);
            assert(all[i as int] == records@[i as int]@);
            assert(well_named(all[i as int]));
            lemma_targets_prefix(all, i + 1);
        }
        match &records[i].data {
            RData::CNAME(cname) => {
                let shown = key_of(cname);
                let target = to_lower(&shown);
                proof {
                    let now = cname_targets(all.take(i + 1));
                    assert(now[checked as int] == target@);
                    assert(targets[checked as int] == target@);
                }
                if checked >= cap {
                    return Some(target);
                }
                let asked = target.as_str();
                let yes = is_blocked(asked);
                proof {
                    assert(asked@ == targets[checked as int]);
                    assert(call_ensures(is_blocked, (asked,), yes));
                    assert(answered(is_blocked, targets[checked as int], yes));
                }
                if yes {
                    return Some(target);
                }
                checked += 1;
            },
            _ => {},
        }
        i += 1;
    }
    proof {
        assert(all.take(all.len() as int) =~= all);
    }
    None
}

proof fn lemma_targets_prefix(records: Seq<RecordV>, k: int)
    requires
        0 <= k <= records.len(),
    ensures
        cname_targets(records.take(k)).len() <= cname_targets(records).len(),
        forall|j: int|
            0 <= j < cname_targets(records.take(k)).len() ==> #[trigger] cname_targets(records)[j]
                == cname_targets(records.take(k))[j],
    decreases records.len() - k,
{
    if k < records.len() {
        lemma_targets_prefix(records, k + 1);
        assert(records.take(k + 1).drop_last() =~= records.take(k));
    } else {
        assert(records.take(k) =~= records);
    }
}

// ── Laws ──────────────────────────────────────────────────────────────

/// A rule for a name holds for every name below it.
pub proof fn rules_cover_subdomains(set: Set<Seq<char>>, name: Seq<char>, apex: Seq<char>)
    requires
        set.contains(apex),
        crate::answer::below(name, apex),
    ensures
        covered(set, name),
    decreases name.len(),
{
    crate::local_laws::lemma_below_steps(name, apex);
    lemma_parent_shorter(name);
    let p = parent(name)->0;
    if apex != p {
        rules_cover_subdomains(set, p, apex);
    }
}

/// Without an overlay, and with one that has no rule for the name, the
/// profile evaluator alone decides.
pub proof fn silent_overlay_changes_nothing(
    domain: Seq<char>,
    profile: ResolvedProfile,
    overlay: DeviceOverlay,
    verdict: FilterResult,
    source: Option<BlockSource>,
)
    requires
        !covered(overlay.allow@, domain),
        !covered(overlay.deny@, domain),
    ensures
        evaluated(domain, profile, Some(overlay), verdict, source) == evaluated(
            domain,
            profile,
            None,
            verdict,
            source,
        ),
{
}

/// A set covers a name exactly if it holds the name itself or a name that it
/// lies below.
pub proof fn sets_cover_names_and_what_lies_below(set: Set<Seq<char>>, name: Seq<char>)
    ensures
        covered(set, name) <==> set.contains(name) || exists|apex: Seq<char>| #[trigger]
            set.contains(apex) && crate::answer::below(name, apex),
    decreases name.len(),
{
    lemma_parent_shorter(name);
    if let Some(p) = parent(name) {
        sets_cover_names_and_what_lies_below(set, p);
        assert(crate::answer::below(name, p));
        if exists|apex: Seq<char>| #[trigger]
            set.contains(apex) && crate::answer::below(p, apex) {
            let apex = choose|apex: Seq<char>| #[trigger]
                set.contains(apex) && crate::answer::below(p, apex);
            crate::local_laws::lemma_below_transitive(name, p, apex);
        }
    }
    if exists|apex: Seq<char>| #[trigger] set.contains(apex) && crate::answer::below(name, apex) {
        let apex = choose|apex: Seq<char>| #[trigger]
            set.contains(apex) && crate::answer::below(name, apex);
        crate::local_laws::lemma_below_steps(name, apex);
    }
}

/// An exception of the device unblocks a name, whatever blocks it: where the
/// device allows the name and does not deny it, and the profile does not deny
/// it or may be overridden, the name is not blocked, whatever the lists say.
pub proof fn device_exceptions_unblock(
    domain: Seq<char>,
    profile: ResolvedProfile,
    overlay: DeviceOverlay,
    verdict: FilterResult,
    source: Option<BlockSource>,
)
    requires
        covered(overlay.allow@, domain),
        !covered(overlay.deny@, domain),
        !covered(profile.deny_domains@, domain) || overlay.override_profile_deny,
    ensures
        evaluated(domain, profile, Some(overlay), verdict, source) == (
            false,
            None::<BlockSource>,
        ),
{
}

/// Where the device has no rule for a name, the verdict of the profile is final,
/// and so is what it is attributed to.
pub proof fn profile_verdicts_stand_without_a_device_rule(
    domain: Seq<char>,
    profile: ResolvedProfile,
    overlay: Option<DeviceOverlay>,
    verdict: FilterResult,
    source: Option<BlockSource>,
)
    requires
        overlay matches Some(ov) ==> !covered(ov.allow@, domain) && !covered(ov.deny@, domain),
    ensures
        evaluated(domain, profile, overlay, verdict, source).0 <==> verdict == FilterResult::Block,
        verdict == FilterResult::Block ==> evaluated(
            domain,
            profile,
            overlay,
            verdict,
            source,
        ).1 == source,
        verdict == FilterResult::Forward ==> evaluated(
            domain,
            profile,
            overlay,
            verdict,
            source,
        ).1 is None,
{
}

/// What the overlay decides, by its three rules: a denial of the device always
/// blocks; an exception of the device allows unless the profile denies and may
/// not be overridden; and without a rule of the device it does not decide. A
/// decision is the profile's exactly where the profile denies and it is a block.
pub proof fn overlays_decide_by_the_rules_of_the_device(hits: LayerHits, override_flag: bool)
    ensures
        ({
            let d = overlay_decision(hits, override_flag);
            &&& d is FallThrough <==> !hits.device_deny_hit && !hits.device_allow_hit
            &&& d is Block <==> hits.device_deny_hit || (hits.device_allow_hit
                && hits.profile_deny_hit && !override_flag)
            &&& d matches OverlayDecision::Block { source } ==> (source == AttribSource::Profile
                <==> hits.profile_deny_hit)
            &&& d matches OverlayDecision::Allow { source, override_used } ==> source
                == AttribSource::Device && override_used == hits.profile_deny_hit
        }),
{
}

/// A name is excepted from the inspection of its answer by an exception for it
/// or for a name above it, of the profile or of the device, and by nothing else:
/// neither a denial nor the lack of one has a say.
pub proof fn only_exceptions_exempt(
    domain: Seq<char>,
    profile: ResolvedProfile,
    overlay: Option<DeviceOverlay>,
)
    ensures
        exempt(domain, profile, overlay) <==> (profile.allow_domains@.contains(domain) || (
        exists|a: Seq<char>| #[trigger]
            profile.allow_domains@.contains(a) && crate::answer::below(domain, a))) || (overlay
            is Some && (overlay->0.allow@.contains(domain) || exists|a: Seq<char>| #[trigger]
            overlay->0.allow@.contains(a) && crate::answer::below(domain, a))),
{
    sets_cover_names_and_what_lies_below(profile.allow_domains@, domain);
    if overlay is Some {
        sets_cover_names_and_what_lies_below(overlay->0.allow@, domain);
    }
}

/// The targets of a response are those of its CNAME records, all of them and in
/// order, in lower case.
pub proof fn targets_are_those_of_the_aliases(records: Seq<RecordV>)
    ensures
        ({
            let aliases = records.filter(|r: RecordV| r.data is CNAME);
            &&& cname_targets(records).len() == aliases.len()
            &&& forall|i: int|
                0 <= i < aliases.len() ==> #[trigger] cname_targets(records)[i] == lowered(
                    lookup_key(aliases[i].data->CNAME_0),
                )
        }),
    decreases records.len(),
{
    reveal(Seq::filter);
    if records.len() > 0 {
        targets_are_those_of_the_aliases(records.drop_last());
    }
}

/// A chain is followed as far as configured, and never beyond the hard limit.
pub proof fn chains_are_followed_within_two_limits(depth: usize)
    ensures
        chain_cap(depth) <= depth,
        chain_cap(depth) <= 32,
        chain_cap(depth) == depth || chain_cap(depth) == 32,
{
}

/// A denial by the device always holds, whatever the profile says.
pub proof fn device_denials_hold(
    domain: Seq<char>,
    profile: ResolvedProfile,
    overlay: DeviceOverlay,
    verdict: FilterResult,
    source: Option<BlockSource>,
)
    requires
        covered(overlay.deny@, domain),
    ensures
        evaluated(domain, profile, Some(overlay), verdict, source) == (
            true,
            Some(BlockSource::AdminBlock),
        ),
{
}

/// A device passes a denial of its profile only where it may override it.
pub proof fn profile_denials_need_an_override(
    domain: Seq<char>,
    profile: ResolvedProfile,
    overlay: DeviceOverlay,
    verdict: FilterResult,
    source: Option<BlockSource>,
)
    requires
        covered(profile.deny_domains@, domain),
        covered(overlay.allow@, domain),
        !covered(overlay.deny@, domain),
    ensures
        ({
            let (blocked, _) = evaluated(domain, profile, Some(overlay), verdict, source);
            blocked == !overlay.override_profile_deny
        }),
{
}

/// A set of a list holds the canonical spelling of each of its entries that has
/// one, and nothing else.
pub proof fn sets_hold_the_canonical_entries(domains: Seq<Seq<char>>, d: Seq<char>, i: int)
    ensures
        0 <= i < domains.len() && canonical(domains[i]).len() > 0 ==> canonical_set(
            domains,
        ).contains(canonical(domains[i])),
        canonical_set(domains).contains(d) ==> d.len() > 0 && exists|j: int|
            0 <= j < domains.len() && canonical(#[trigger] domains[j]) == d,
        !canonical_set(domains).contains(Seq::<char>::empty()),
{
}

/// Only a block by a list is attributed to a list, and to that one.
pub proof fn lists_answer_for_their_own_blocks(source: Option<BlockSource>)
    ensures
        source matches Some(BlockSource::List(b)) ==> list_bit(source) == Some(b),
        source is None || !(source->0 is List) ==> list_bit(source) is None,
{
}

/// Under a predicate that always answers alike, a chain is blocked exactly if one
/// of its targets within the cap is, or if it goes on beyond the cap; what is
/// named is the first such target.
pub proof fn chains_are_blocked_at_the_first_target<F: Fn(&str) -> bool>(
    targets: Seq<Seq<char>>,
    cap: int,
    is_blocked: F,
    blocked: spec_fn(Seq<char>) -> bool,
    hit: Option<Seq<char>>,
)
    requires
        0 <= cap,
        chain_hit(targets, cap, is_blocked, hit),
        forall|s: &str, yes: bool| #[trigger]
            call_ensures(is_blocked, (s,), yes) ==> yes == blocked(s@),
    ensures
        hit is None <==> targets.len() <= cap && forall|j: int|
            0 <= j < targets.len() ==> !blocked(#[trigger] targets[j]),
        hit matches Some(t) ==> exists|k: int|
            0 <= k < targets.len() && k <= cap && t == #[trigger] targets[k] && (k < cap ==> blocked(
                t,
            )) && forall|j: int| 0 <= j < k ==> !blocked(#[trigger] targets[j]),
{
    assert forall|t: Seq<char>, yes: bool| #[trigger] answered(is_blocked, t, yes) implies yes
        == blocked(t) by {}
    if hit is Some {
        let k = choose|k: int|
            0 <= k < targets.len() && k <= cap && hit->0 == #[trigger] targets[k] && (k < cap
                ==> answered(is_blocked, targets[k], true)) && forall|j: int|
                0 <= j < k ==> answered(is_blocked, #[trigger] targets[j], false);
        assert(hit->0 == targets[k]);
        if targets.len() <= cap {
            assert(answered(is_blocked, targets[k], true));
            assert(blocked(targets[k]));
        }
        assert forall|j: int| 0 <= j < k implies !blocked(#[trigger] targets[j]) by {
            assert(answered(is_blocked, targets[j], false));
        }
    } else {
        assert forall|j: int| 0 <= j < targets.len() implies !blocked(#[trigger] targets[j]) by {
            assert(answered(is_blocked, targets[j], false));
        }
    }
}

/// The names of sources and of layers in the log read apart.
pub proof fn sources_read_apart(a: BlockSource, b: BlockSource)
    requires
        source_name(a) == source_name(b),
    ensures
        a == b || (a is List && b is List),
        layer_name(AttribSource::Profile) == "profile"@,
        layer_name(AttribSource::Device) == "device"@,
{
    reveal_strlit("list");
    reveal_strlit("rule");
    reveal_strlit("admin_block");
    reveal_strlit("cname_loop");
    reveal_strlit("cname_depth_exceeded");
    assert("list"@.len() == 4 && "list"@[0] == 'l');
    assert("rule"@.len() == 4 && "rule"@[0] == 'r');
    assert("admin_block"@.len() == 11);
    assert("cname_loop"@.len() == 10);
    assert("cname_depth_exceeded"@.len() == 20);
}

} // verus!
