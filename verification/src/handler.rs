//! The query path: the order in which a query is admitted, screened, answered
//! locally, filtered, looked up, forwarded and inspected.
//!
//! Each step takes what the world around the handler says and yields either
//! the reply that ends the query or what the next step needs. The caller asks
//! the world in between: the rate limiters, the profile resolver, the filter
//! engine, the upstream, the validator.
use std::sync::Arc;
use vstd::prelude::*;
use crate::answer::{key_of, lookup_key};
use crate::cache::{
    answer_taken, classified, entry_for, fetch_view, key_for, key_view, negative, seen, stale_view,
    with_entries, CacheEntry, CacheKey, CacheLookup, CacheV, DnsCache, EntryV, FetchFailure, FetchV,
    Fetched, KeyV,
};
use crate::cidr::{allowed, source_allowed, source_vouched, vouched, Cidr};
use crate::client_subnet::EcsPrefix;
use crate::dnssec_validator::DnssecDecision;
use crate::error::DnsError;
use crate::filter::{
    block_list_bit, evaluate_with_overlay, evaluated, exempt, list_bit, name_allowed, BlockSource,
    DeviceOverlay, FilterResult, ResolvedProfile,
};
use crate::local::{looked_up, LocalLookup, LocalRecords, LocalTables, LookupV};
use crate::local_profile::profile_answer;
use crate::net::{IpAddr, Ipv4Addr};
use crate::outcome::{
    copy_text, outcome_of, outcome_row, recorded, replied, text_view, unrecorded, Body, BodyV,
    CnameBlock, CnameBlockV, DecisionV, LocalHit, LocalScope, Outcome, QueryDecision, Reply,
    ReplyV, ScopeV,
};
use crate::record::{
    internet_record, parse_ascii_name, parsed_ascii_name, record_views, wire_name, DNSClass, Name,
    NameV, RData, RDataV, Record, RecordType, ResponseCode,
};
use crate::response::{
    self, any_view, bare, block_view, forwarded_view, nodata_view, truncated_view, validated_view,
    with_records, Response, ResponseV,
};
use crate::security::{
    rate_gate, refused_for, tunneling_rate_gate_applies, PreQueryFacts, RrlAction, SecurityLayer,
};
use crate::settings::BlockResponse;
use crate::text::lowered;

verus! {

/// The TTL of the answer for a device's network name where none is set.
pub const DEFAULT_DYNAMIC_TTL_SECS: u32 = 30;

// ── Queries ───────────────────────────────────────────────────────────

/// The question of a request.
pub struct Question {
    pub name: Name,
    pub record_type: RecordType,
    pub dns_class: DNSClass,
    /// The name keeps the rules for queries.
    pub valid: bool,
}

/// An admitted query.
pub struct Query {
    pub client: IpAddr,
    pub name: Name,
    /// The name without its root dot.
    pub domain: String,
    pub record_type: RecordType,
    pub dns_class: DNSClass,
}

/// An admitted query as mathematical values.
pub struct QueryV {
    pub client: IpAddr,
    pub name: NameV,
    pub domain: Seq<char>,
    pub record_type: RecordType,
    pub dns_class: DNSClass,
}

impl View for Query {
    type V = QueryV;

    open spec fn view(&self) -> QueryV {
        QueryV {
            client: self.client,
            name: self.name@,
            domain: self.domain@,
            record_type: self.record_type,
            dns_class: self.dns_class,
        }
    }
}

/// What the resolver says of a client.
pub struct Resolution {
    pub device_name: Option<String>,
    pub profile: Option<ResolvedProfile>,
    pub overlay: Option<DeviceOverlay>,
}

impl Resolution {
    /// The local records of the profile are consistent.
    pub open spec fn wf(&self) -> bool {
        self.profile matches Some(p) ==> p.local_records.wf()
    }
}

/// What the resolver says of a device's network name.
#[derive(Clone, Copy, Debug)]
pub enum NetworkName {
    /// No device has the name.
    Unknown,
    /// A device has the name, but its address is not known.
    Offline,
    V4(Ipv4Addr),
    V6,
}

/// What the inspection of an answer found.
pub struct Inspection {
    /// A blocked CNAME target, and what the block is due to.
    pub chain: Option<(String, BlockSource)>,
    /// A blocked address.
    pub address: Option<IpAddr>,
}

/// A query that was not blocked, on its way to an answer.
pub struct Passed {
    pub query: Query,
    pub client_name: Option<String>,
    pub profile: String,
    pub block_response: BlockResponse,
    pub blocked_ttl: u32,
    pub ecs: Option<EcsPrefix>,
    /// The name to be answered, after a rewrite.
    pub domain: String,
    pub rewrote_from: Option<String>,
}

/// A query that was not blocked, as mathematical values.
pub struct PassedV {
    pub query: QueryV,
    pub client_name: Option<Seq<char>>,
    pub profile: Seq<char>,
    pub block_response: BlockResponse,
    pub blocked_ttl: u32,
    pub ecs: Option<EcsPrefix>,
    pub domain: Seq<char>,
    pub rewrote_from: Option<Seq<char>>,
}

impl View for Passed {
    type V = PassedV;

    open spec fn view(&self) -> PassedV {
        PassedV {
            query: self.query@,
            client_name: text_view(self.client_name),
            profile: self.profile@,
            block_response: self.block_response,
            blocked_ttl: self.blocked_ttl,
            ecs: self.ecs,
            domain: self.domain@,
            rewrote_from: text_view(self.rewrote_from),
        }
    }
}

// ── The rules ─────────────────────────────────────────────────────────

/// The settings and the state of a handler.
pub struct HandlerV {
    pub cache: CacheV,
    pub security: Option<SecurityLayer>,
    pub local: Option<LocalTables>,
    pub allow_from: Option<Seq<Cidr>>,
    pub blocked_ttl: u32,
    pub dynamic_ttl: u32,
    pub nodata: bool,
    pub counts_hits: bool,
    pub audits: bool,
    pub warned: bool,
}

/// A handler as it is made.
pub open spec fn new_handler(
    cache: CacheV,
    security: Option<SecurityLayer>,
    local: Option<LocalTables>,
    allow_from: Option<Seq<Cidr>>,
    blocked_ttl: u32,
) -> HandlerV {
    HandlerV {
        cache,
        security,
        local,
        allow_from,
        blocked_ttl,
        dynamic_ttl: DEFAULT_DYNAMIC_TTL_SECS,
        nodata: true,
        counts_hits: false,
        audits: false,
        warned: false,
    }
}

/// The handler that counts the hits of local records.
pub open spec fn counting_hits(h: HandlerV) -> HandlerV {
    HandlerV { counts_hits: true, ..h }
}

/// The handler that keeps an audit log.
pub open spec fn auditing(h: HandlerV) -> HandlerV {
    HandlerV { audits: true, ..h }
}

/// The handler with another TTL for network names.
pub open spec fn with_dynamic_ttl(h: HandlerV, secs: u32) -> HandlerV {
    HandlerV { dynamic_ttl: secs, ..h }
}

/// The handler with or without answers for missing types of network names.
pub open spec fn with_nodata(h: HandlerV, enabled: bool) -> HandlerV {
    HandlerV { nodata: enabled, ..h }
}

/// The handler with another access list.
pub open spec fn with_access(h: HandlerV, allow_from: Option<Seq<Cidr>>) -> HandlerV {
    HandlerV { allow_from, ..h }
}

/// The handler with another cache.
pub open spec fn with_cache(h: HandlerV, cache: CacheV) -> HandlerV {
    HandlerV { cache, ..h }
}

/// The reply to a source that is not allowed.
pub open spec fn acl_refusal() -> ReplyV {
    ReplyV {
        refused_by_acl: true,
        ..replied(BodyV::Send(bare(ResponseCode::Refused)), Seq::empty())
    }
}

/// The reply before a first set of filters is installed. The first one alarms.
pub open spec fn gate_refusal(warned: bool) -> ReplyV {
    ReplyV { alarm: !warned, ..replied(BodyV::Send(bare(ResponseCode::ServFail)), Seq::empty()) }
}

/// Admission: the source first, then readiness, then the question.
pub open spec fn admission(
    h: HandlerV,
    client: IpAddr,
    gate_open: bool,
    question: Option<Question>,
) -> Result<QueryV, ReplyV> {
    if !allowed(client, h.allow_from) {
        Err(acl_refusal())
    } else if !gate_open {
        Err(gate_refusal(h.warned))
    } else {
        match question {
            Some(q) => if q.valid {
                Ok(
                    QueryV {
                        client,
                        name: q.name@,
                        domain: lookup_key(q.name@),
                        record_type: q.record_type,
                        dns_class: q.dns_class,
                    },
                )
            } else {
                Err(replied(BodyV::Send(bare(ResponseCode::ServFail)), Seq::empty()))
            },
            None => Err(replied(BodyV::Send(bare(ResponseCode::ServFail)), Seq::empty())),
        }
    }
}

/// The row of a query before it is attributed to a profile.
pub open spec fn early_row(q: QueryV, device: Option<Seq<char>>, outcome: Outcome) -> DecisionV {
    outcome_row(q.domain, device, None, q.record_type, None, outcome)
}

/// The refusal of the security layer, if it refuses.
pub open spec fn screened(h: HandlerV, q: QueryV, facts: PreQueryFacts) -> Option<ReplyV> {
    match h.security {
        Some(layer) => if refused_for(layer, facts, q.domain, q.record_type) is Some {
            Some(
                replied(
                    BodyV::Send(bare(ResponseCode::Refused)),
                    seq![early_row(q, None, Outcome::Refused)],
                ),
            )
        } else {
            None
        },
        None => None,
    }
}

/// What response rate limiting makes of a query. A dropped response is never
/// sent; a slipped one invites a retry over TCP.
pub open spec fn limited(h: HandlerV, q: QueryV, action: RrlAction) -> Option<ReplyV> {
    if h.security is None || h.security->0.rrl is None || action == RrlAction::Allow {
        None
    } else if action == RrlAction::Drop {
        Some(replied(BodyV::Silence, seq![early_row(q, None, Outcome::RrlDrop)]))
    } else {
        Some(
            replied(
                BodyV::Send(truncated_view()),
                seq![early_row(q, None, Outcome::RrlSlip)],
            ),
        )
    }
}

/// The name of the client's device, as far as it was resolved.
pub open spec fn device_of(resolution: Option<Resolution>) -> Option<Seq<char>> {
    match resolution {
        Some(r) => text_view(r.device_name),
        None => None,
    }
}

/// The answer of the local records of the client's profile.
pub open spec fn profile_reply(h: HandlerV, q: QueryV, resolution: Option<Resolution>) -> Option<
    ReplyV,
> {
    match resolution {
        Some(r) => match r.profile {
            Some(p) => match profile_answer(p.local_records@, q.domain, q.record_type) {
                Some((records, apex)) => Some(
                    ReplyV {
                        local_hit: if h.counts_hits {
                            Some((ScopeV::Profile(p.name@), apex))
                        } else {
                            None
                        },
                        ..replied(
                            BodyV::Send(
                                with_records(ResponseCode::NoError, false, records, Seq::empty()),
                            ),
                            seq![
                                outcome_row(
                                    q.domain,
                                    device_of(resolution),
                                    Some(p.name@),
                                    q.record_type,
                                    None,
                                    Outcome::Local,
                                ),
                            ],
                        )
                    },
                ),
                None => None,
            },
            None => None,
        },
        None => None,
    }
}

/// The answer of the global local records. A name that is defined locally but
/// not for the queried type is not passed on.
pub open spec fn global_reply(h: HandlerV, q: QueryV, resolution: Option<Resolution>) -> Option<
    ReplyV,
> {
    let row = early_row(q, device_of(resolution), Outcome::Local);
    match h.local {
        Some(tables) => match looked_up(tables, q.domain, q.record_type) {
            LookupV::Hit(records, apex) => Some(
                ReplyV {
                    local_hit: if h.counts_hits {
                        Some((ScopeV::Global, apex))
                    } else {
                        None
                    },
                    ..replied(
                        BodyV::Send(
                            with_records(ResponseCode::NoError, false, records, Seq::empty()),
                        ),
                        seq![row],
                    )
                },
            ),
            LookupV::NodataSynthesis(ttl) => Some(
                replied(BodyV::Send(nodata_view(ttl)), seq![row]),
            ),
            LookupV::Miss => None,
        },
        None => None,
    }
}

/// The answer of the local records: those of the profile shadow the global
/// ones.
pub open spec fn local_reply(h: HandlerV, q: QueryV, resolution: Option<Resolution>) -> Option<
    ReplyV,
> {
    match profile_reply(h, q, resolution) {
        Some(r) => Some(r),
        None => global_reply(h, q, resolution),
    }
}

/// The answer for a device's network name. A device that is offline has no
/// name; other types than A have no data, unless that is switched off. An
/// IPv6 device leaves an A query to the upstream.
pub open spec fn network_reply(
    h: HandlerV,
    q: QueryV,
    resolution: Option<Resolution>,
    network: NetworkName,
) -> Option<ReplyV> {
    let row = early_row(q, device_of(resolution), Outcome::Local);
    if resolution is None || network is Unknown {
        None
    } else if q.record_type == RecordType::A {
        match network {
            NetworkName::V4(ip) => Some(
                replied(
                    BodyV::Send(
                        with_records(
                            ResponseCode::NoError,
                            false,
                            seq![
                                internet_record(q.name, h.dynamic_ttl, RDataV::A(ip@)),
                            ],
                            Seq::empty(),
                        ),
                    ),
                    seq![row],
                ),
            ),
            NetworkName::Offline => Some(
                replied(BodyV::Send(bare(ResponseCode::NXDomain)), seq![row]),
            ),
            _ => None,
        }
    } else if h.nodata {
        Some(replied(BodyV::Send(nodata_view(h.dynamic_ttl)), seq![row]))
    } else {
        None
    }
}

/// The reply to a client without a profile. Without a resolver there is no
/// client to name, and the operator is warned.
pub open spec fn unmapped_refusal(q: QueryV, resolution: Option<Resolution>) -> ReplyV {
    ReplyV {
        alarm: resolution is None,
        ..replied(
            BodyV::Send(bare(ResponseCode::Refused)),
            seq![early_row(q, device_of(resolution), Outcome::Refused)],
        )
    }
}

/// The reply to a blocked name.
pub open spec fn block_reply(
    q: QueryV,
    device: Option<Seq<char>>,
    p: ResolvedProfile,
    source: Option<BlockSource>,
) -> ReplyV {
    replied(
        BodyV::Send(block_view(q.name, q.record_type, p.blocked_ttl_secs, p.block_response)),
        seq![
            DecisionV {
                block_list_bit: list_bit(source),
                ..outcome_row(
                    q.domain,
                    device,
                    Some(p.name@),
                    q.record_type,
                    None,
                    Outcome::Blocked,
                )
            },
        ],
    )
}

/// The judgement of a name: refused without a profile, blocked, or passed on.
pub open spec fn judged(
    q: QueryV,
    resolution: Option<Resolution>,
    ecs: Option<EcsPrefix>,
    verdict: FilterResult,
    source: Option<BlockSource>,
) -> Result<PassedV, ReplyV> {
    if resolution is None || resolution->0.profile is None {
        Err(unmapped_refusal(q, resolution))
    } else {
        let p = resolution->0.profile->0;
        let (blocked, why) = evaluated(q.domain, p, resolution->0.overlay, verdict, source);
        if blocked {
            Err(block_reply(q, device_of(resolution), p, why))
        } else {
            Ok(
                PassedV {
                    query: q,
                    client_name: device_of(resolution),
                    profile: p.name@,
                    block_response: p.block_response,
                    blocked_ttl: p.blocked_ttl_secs,
                    ecs,
                    domain: q.domain,
                    rewrote_from: None,
                },
            )
        }
    }
}

/// The query under the name that a rewrite rule gives it.
pub open spec fn rewritten(p: PassedV, target: Option<Seq<char>>) -> PassedV {
    match target {
        Some(t) => PassedV { domain: t, rewrote_from: Some(p.domain), ..p },
        None => p,
    }
}

/// The row of a query that has a profile.
pub open spec fn passed_row(p: PassedV, outcome: Outcome) -> DecisionV {
    outcome_row(
        p.domain,
        p.client_name,
        Some(p.profile),
        p.query.record_type,
        p.rewrote_from,
        outcome,
    )
}

/// The slot of the cache that a query is answered from.
pub open spec fn slot(p: PassedV) -> KeyV {
    key_for(p.domain, p.query.record_type, p.query.dns_class, p.ecs)
}

/// The cache without the slot of a query.
pub open spec fn without_slot(c: CacheV, p: PassedV) -> CacheV {
    with_entries(
        c,
        c.entries.remove(
            key_for(lowered(p.domain), p.query.record_type, p.query.dns_class, p.ecs),
        ),
    )
}

/// The block that an inspection calls for. A CNAME chain is attributed and
/// audited; a blocked address is neither.
pub open spec fn inspection_block(p: PassedV, found: Inspection, audits: bool) -> Option<ReplyV> {
    let body = BodyV::Send(
        block_view(p.query.name, p.query.record_type, p.blocked_ttl, p.block_response),
    );
    match found.chain {
        Some((offending, source)) => Some(
            ReplyV {
                audit: if audits {
                    Some(
                        CnameBlockV {
                            domain: p.domain,
                            offending: offending@,
                            source,
                            rewrote_from: p.rewrote_from,
                        },
                    )
                } else {
                    None
                },
                ..replied(
                    body,
                    seq![
                        DecisionV {
                            cname_chain_via: Some(offending@),
                            block_list_bit: list_bit(Some(source)),
                            ..passed_row(p, Outcome::Blocked)
                        },
                    ],
                )
            },
        ),
        None => match found.address {
            Some(_) => Some(replied(body, seq![passed_row(p, Outcome::Blocked)])),
            None => None,
        },
    }
}

/// The row of an answer out of the cache.
pub open spec fn cache_row(p: PassedV, e: EntryV, outcome: Outcome) -> DecisionV {
    DecisionV { cache_negative_hit: negative(e), ..passed_row(p, outcome) }
}

/// The reply from a fresh entry, inspected again before it is served.
pub open spec fn fresh_reply(h: HandlerV, p: PassedV, e: EntryV, found: Inspection) -> ReplyV {
    match inspection_block(p, found, h.audits) {
        Some(block) => block,
        None => replied(
            BodyV::Serve(e, p.rewrote_from is Some),
            seq![cache_row(p, e, Outcome::Cached)],
        ),
    }
}

/// Whether a query counts against the tunneling rate: only where it is about
/// to go upstream for a name that the cache has never held.
pub open spec fn rate_counted(h: HandlerV, p: PassedV, missed: bool) -> bool {
    &&& p.query.record_type != RecordType::ANY
    &&& missed
    &&& rate_gate(p.query.record_type, p.domain)
    &&& h.security is Some
    &&& h.security->0.tunneling is Some
}

/// What keeps a query from going upstream.
pub open spec fn intercepted(
    h: HandlerV,
    p: PassedV,
    missed: bool,
    rate_exceeded: bool,
) -> Option<ReplyV> {
    if p.query.record_type == RecordType::ANY {
        Some(
            replied(
                BodyV::Send(any_view(p.query.name, h.blocked_ttl)),
                seq![passed_row(p, Outcome::Hinfo)],
            ),
        )
    } else if rate_counted(h, p, missed) && rate_exceeded {
        Some(
            replied(
                BodyV::Send(bare(ResponseCode::Refused)),
                seq![passed_row(p, Outcome::Refused)],
            ),
        )
    } else {
        None
    }
}

/// The entry that is inspected after a fetch: an answer with records, or the
/// stale entry that stands in for a failed upstream.
pub open spec fn inspected_entry(f: FetchV) -> Option<EntryV> {
    match f {
        FetchV::Got(e) => if e.records.len() > 0 && e.code == ResponseCode::NoError {
            Some(e)
        } else {
            None
        },
        FetchV::Failed(stale, error) => if error is Uncacheable {
            None
        } else {
            stale
        },
    }
}

/// The block of the entry that a fetch ended with.
pub open spec fn fetch_block(h: HandlerV, p: PassedV, f: FetchV, found: Inspection) -> Option<
    ReplyV,
> {
    if inspected_entry(f) is Some {
        inspection_block(p, found, h.audits)
    } else {
        None
    }
}

/// The reply after a fetch. The attempt is recorded whatever comes of it; a
/// block is recorded besides.
pub open spec fn settled(h: HandlerV, p: PassedV, f: FetchV, found: Inspection) -> ReplyV {
    let attempt = passed_row(p, Outcome::Allowed);
    match fetch_block(h, p, f, found) {
        Some(block) => ReplyV { rows: seq![attempt] + block.rows, ..block },
        None => match f {
            FetchV::Got(e) => replied(BodyV::Serve(e, p.rewrote_from is Some), seq![attempt]),
            FetchV::Failed(stale, error) => match error {
                DnsError::Uncacheable(code) => replied(
                    BodyV::Send(forwarded_view(code)),
                    seq![attempt],
                ),
                _ => match stale {
                    Some(e) => ReplyV {
                        alarm: true,
                        ..replied(
                            BodyV::Serve(e, p.rewrote_from is Some),
                            seq![attempt, cache_row(p, e, Outcome::Stale)],
                        )
                    },
                    None => ReplyV {
                        alarm: true,
                        ..replied(BodyV::Send(bare(ResponseCode::ServFail)), seq![attempt])
                    },
                },
            },
        },
    }
}

/// A refresh is taken in: it succeeded, has records, and none of them is
/// blocked.
pub open spec fn prefetch_taken(
    answer: Fetched,
    has_blocked_cname: bool,
    has_blocked_ip: bool,
) -> bool {
    &&& answer.response_code == ResponseCode::NoError
    &&& answer.records@.len() > 0
    &&& !has_blocked_cname
    &&& !has_blocked_ip
}

/// The handler after a refresh of the slot of a query.
pub open spec fn refreshed(
    h: HandlerV,
    p: PassedV,
    answer: Fetched,
    has_blocked_cname: bool,
    has_blocked_ip: bool,
    now: u128,
) -> HandlerV {
    if prefetch_taken(answer, has_blocked_cname, has_blocked_ip) {
        with_cache(
            h,
            with_entries(
                h.cache,
                h.cache.entries.insert(
                    slot(p),
                    entry_for(
                        h.cache,
                        record_views(answer.records@),
                        ResponseCode::NoError,
                        None,
                        now,
                    ),
                ),
            ),
        )
    } else {
        h
    }
}

/// The name that is asked of the upstream: the rewritten one where there is
/// one and it reads as a name, and the name of the question otherwise.
pub open spec fn forward_name(domain: Seq<char>, rewrote: bool, name: NameV) -> NameV {
    if rewrote && parsed_ascii_name(domain.push('.')) is Some {
        parsed_ascii_name(domain.push('.'))->0
    } else {
        name
    }
}

/// The name that is asked of the upstream.
pub fn fwd_name_for(domain: &str, rewrote: bool, name: &Name) -> (r: Name)
    ensures
        r@ == forward_name(domain@, rewrote, name@),
{
    if rewrote {
        let mut spelled = domain.to_owned();
        spelled.push('.');
        match parse_ascii_name(&spelled) {
            Some(target) => {
                return target;
            },
            None => {},
        }
    }
    name.copy()
}

// ── The handler ───────────────────────────────────────────────────────

/// The DNS request handler: its settings, its local records and its cache.
pub struct ForwardHandler {
    cache: DnsCache,
    security: Option<SecurityLayer>,
    local_records: Option<LocalRecords>,
    allow_from: Option<Vec<Cidr>>,
    blocked_ttl: u32,
    dynamic_ttl_secs: u32,
    nodata_for_missing_types_network_name: bool,
    counts_local_hits: bool,
    audits: bool,
    gate_refusal_logged: bool,
}

impl View for ForwardHandler {
    type V = HandlerV;

    closed spec fn view(&self) -> HandlerV {
        HandlerV {
            cache: self.cache@,
            security: self.security,
            local: match self.local_records {
                Some(l) => Some(l@),
                None => None,
            },
            allow_from: match self.allow_from {
                Some(acl) => Some(acl@),
                None => None,
            },
            blocked_ttl: self.blocked_ttl,
            dynamic_ttl: self.dynamic_ttl_secs,
            nodata: self.nodata_for_missing_types_network_name,
            counts_hits: self.counts_local_hits,
            audits: self.audits,
            warned: self.gate_refusal_logged,
        }
    }
}

/// The row of a query before it is attributed to a profile.
fn early_decision(q: &Query, device: &Option<String>, outcome: Outcome) -> (r: QueryDecision)
    ensures
        r@ == early_row(q@, text_view(*device), outcome),
{
    let none: Option<String> = None;
    outcome_of(&q.domain, device, &none, q.record_type, &none, outcome)
}

/// The row of a query that has a profile.
fn passed_decision(p: &Passed, outcome: Outcome) -> (r: QueryDecision)
    ensures
        r@ == passed_row(p@, outcome),
{
    let profile = Some(p.profile.as_str().to_owned());
    outcome_of(
        &p.domain,
        &p.client_name,
        &profile,
        p.query.record_type,
        &p.rewrote_from,
        outcome,
    )
}

/// The response of a block that an inspection calls for.
fn block_body(p: &Passed) -> (r: Body)
    ensures
        r@ == BodyV::Send(
            block_view(
                p@.query.name,
                p@.query.record_type,
                p@.blocked_ttl,
                p@.block_response,
            ),
        ),
{
    Body::Send(
        response::block_response(
            &p.query.name,
            p.query.record_type,
            p.blocked_ttl,
            p.block_response,
        ),
    )
}

fn no_device() -> (r: Option<String>)
    ensures
        text_view(r) is None,
{
    None
}

fn resolved_device(resolution: Option<&Resolution>) -> (r: Option<String>)
    ensures
        text_view(r) == device_of(
            match resolution {
                Some(x) => Some(*x),
                None => None,
            },
        ),
{
    match resolution {
        Some(x) => copy_text(&x.device_name),
        None => None,
    }
}

/// The resolution as a value.
pub open spec fn resolution_view(resolution: Option<&Resolution>) -> Option<Resolution> {
    match resolution {
        Some(x) => Some(*x),
        None => None,
    }
}

/// Gives a query the name that a rewrite rule says.
pub fn rewrite(p: Passed, target: Option<String>) -> (r: Passed)
    ensures
        r@ == rewritten(p@, text_view(target)),
{
    match target {
        Some(t) => {
            let from = p.domain;
            Passed {
                query: p.query,
                client_name: p.client_name,
                profile: p.profile,
                block_response: p.block_response,
                blocked_ttl: p.blocked_ttl,
                ecs: p.ecs,
                domain: t,
                rewrote_from: Some(from),
            }
        },
        None => p,
    }
}

/// The policy of the client's profile and device allows a name.
pub open spec fn policy_allows(domain: Seq<char>, resolution: Option<Resolution>) -> bool {
    match resolution {
        Some(r) => match r.profile {
            Some(profile) => exempt(domain, profile, r.overlay),
            None => false,
        },
        None => false,
    }
}

/// Whether the policy allows the name that is to be answered, which is the one
/// after a rewrite. Every inspection of the answer goes by it.
pub fn name_policy(p: &Passed, resolution: Option<&Resolution>) -> (r: bool)
    ensures
        r == policy_allows(p@.domain, resolution_view(resolution)),
{
    match resolution {
        Some(x) => match &x.profile {
            Some(profile) => match &x.overlay {
                Some(ov) => name_allowed(&p.domain, profile, Some(ov)),
                None => name_allowed(&p.domain, profile, None),
            },
            None => false,
        },
        None => false,
    }
}

/// The entry to be inspected after a fetch.
pub fn to_inspect(result: &Result<Arc<CacheEntry>, FetchFailure>) -> (r: Option<Arc<CacheEntry>>)
    ensures
        stale_view(r) == inspected_entry(fetch_view(*result)),
{
    match result {
        Ok(entry) => {
            let records = entry.records();
            proof {
                assert(record_views(records@).len() == records@.len());
            }
            if records.len() > 0 && entry.response_code() == ResponseCode::NoError {
                Some(entry.clone())
            } else {
                None
            }
        },
        Err(failure) => match &failure.error {
            DnsError::Uncacheable(_) => None,
            _ => match &failure.stale {
                Some(entry) => Some(entry.clone()),
                None => None,
            },
        },
    }
}

impl ForwardHandler {
    /// The local records are consistent.
    pub closed spec fn wf(&self) -> bool {
        self.local_records matches Some(l) ==> l.wf()
    }

    /// A handler that counts no local hits, keeps no audit log, and answers
    /// network names with the default TTL and with no data for other types.
    pub fn new(
        cache: DnsCache,
        security: Option<SecurityLayer>,
        local_records: Option<LocalRecords>,
        allow_from: Option<Vec<Cidr>>,
        blocked_ttl: u32,
    ) -> (r: ForwardHandler)
        requires
            local_records matches Some(l) ==> l.wf(),
        ensures
            r.wf(),
            r@ == new_handler(
                cache@,
                security,
                match local_records {
                    Some(l) => Some(l@),
                    None => None,
                },
                match allow_from {
                    Some(acl) => Some(acl@),
                    None => None,
                },
                blocked_ttl,
            ),
    {
        ForwardHandler {
            cache,
            security,
            local_records,
            allow_from,
            blocked_ttl,
            dynamic_ttl_secs: DEFAULT_DYNAMIC_TTL_SECS,
            nodata_for_missing_types_network_name: true,
            counts_local_hits: false,
            audits: false,
            gate_refusal_logged: false,
        }
    }

    /// Counts the hits of local records.
    pub fn with_local_records_hits(self) -> (r: ForwardHandler)
        requires
            self.wf(),
        ensures
            r.wf(),
            r@ == counting_hits(self@),
    {
        let mut out = self;
        out.counts_local_hits = true;
        out
    }

    /// Keeps an audit log of blocks over CNAME chains.
    pub fn with_audit_writer(self) -> (r: ForwardHandler)
        requires
            self.wf(),
        ensures
            r.wf(),
            r@ == auditing(self@),
    {
        let mut out = self;
        out.audits = true;
        out
    }

    /// Sets the TTL of the answers for network names.
    pub fn with_dynamic_ttl_secs(self, secs: u32) -> (r: ForwardHandler)
        requires
            self.wf(),
        ensures
            r.wf(),
            r@ == with_dynamic_ttl(self@, secs),
    {
        let mut out = self;
        out.set_dynamic_ttl_secs(secs);
        out
    }

    /// Says whether network names have no data for other types than A, or
    /// leave them to the upstream.
    pub fn with_nodata_for_missing_types_network_name(self, enabled: bool) -> (r: ForwardHandler)
        requires
            self.wf(),
        ensures
            r.wf(),
            r@ == with_nodata(self@, enabled),
    {
        let mut out = self;
        out.nodata_for_missing_types_network_name = enabled;
        out
    }

    /// Replaces the TTL of the answers for network names.
    pub fn set_dynamic_ttl_secs(&mut self, secs: u32)
        requires
            old(self).wf(),
        ensures
            final(self).wf(),
            final(self)@ == with_dynamic_ttl(old(self)@, secs),
    {
        self.dynamic_ttl_secs = secs;
    }

    /// Replaces the access list.
    pub fn set_allow_from(&mut self, allow_from: Option<Vec<Cidr>>)
        requires
            old(self).wf(),
        ensures
            final(self).wf(),
            final(self)@ == with_access(
                old(self)@,
                match allow_from {
                    Some(acl) => Some(acl@),
                    None => None,
                },
            ),
    {
        self.allow_from = allow_from;
    }

    /// Admits a request, or turns it away. A closed gate turns away every
    /// request that the access list lets through, and alarms once.
    pub fn receive(&mut self, client: IpAddr, gate_open: bool, question: Option<Question>) -> (r:
        Result<Query, Reply>)
        requires
            old(self).wf(),
            question matches Some(q) ==> wire_name(q.name@),
        ensures
            final(self).wf(),
            match r {
                Ok(q) => admission(old(self)@, client, gate_open, question) == Ok::<QueryV, ReplyV>(
                    q@,
                ) && wire_name(q.name@),
                Err(reply) => admission(old(self)@, client, gate_open, question) == Err::<
                    QueryV,
                    ReplyV,
                >(reply@),
            },
            final(self)@ == (HandlerV {
                warned: old(self)@.warned || (allowed(client, old(self)@.allow_from) && !gate_open),
                ..old(self)@
            }),
    {
        let permitted = match &self.allow_from {
            Some(acl) => source_allowed(&client, Some(acl.as_slice())),
            None => source_allowed(&client, None),
        };
        if !permitted {
            let mut reply = unrecorded(Body::Send(response::refused()));
            reply.refused_by_acl = true;
            return Err(reply);
        }
        if !gate_open {
            let mut reply = unrecorded(Body::Send(response::servfail()));
            reply.alarm = !self.gate_refusal_logged;
            self.gate_refusal_logged = true;
            return Err(reply);
        }
        match question {
            Some(q) => {
                if !q.valid {
                    return Err(unrecorded(Body::Send(response::servfail())));
                }
                let domain = key_of(&q.name);
                Ok(
                    Query {
                        client,
                        name: q.name,
                        domain,
                        record_type: q.record_type,
                        dns_class: q.dns_class,
                    },
                )
            },
            None => Err(unrecorded(Body::Send(response::servfail()))),
        }
    }

    /// Screens a query. Nothing is known of the client yet: its name is put
    /// on the reply afterwards.
    pub fn screen(&self, q: &Query, facts: PreQueryFacts) -> (r: Option<Reply>)
        ensures
            match r {
                Some(reply) => screened(self@, q@, facts) == Some(reply@),
                None => screened(self@, q@, facts) is None,
            },
    {
        match &self.security {
            Some(layer) => match layer.check_pre_query(facts, &q.domain, q.record_type) {
                Ok(_) => None,
                Err(_) => Some(
                    recorded(
                        Body::Send(response::refused()),
                        early_decision(q, &no_device(), Outcome::Refused),
                    ),
                ),
            },
            None => None,
        }
    }

    /// Whether the client has a response budget of its own: only a source
    /// that the access list names has one.
    pub fn rrl_per_client(&self, q: &Query) -> (r: bool)
        ensures
            r == vouched(q@.client, self@.allow_from),
    {
        match &self.allow_from {
            Some(acl) => source_vouched(&q.client, Some(acl.as_slice())),
            None => source_vouched(&q.client, None),
        }
    }

    /// Applies what response rate limiting says.
    pub fn limit(&self, q: &Query, action: RrlAction) -> (r: Option<Reply>)
        ensures
            match r {
                Some(reply) => limited(self@, q@, action) == Some(reply@),
                None => limited(self@, q@, action) is None,
            },
    {
        match &self.security {
            Some(layer) => match layer.check_response(action) {
                RrlAction::Allow => None,
                RrlAction::Drop => Some(
                    recorded(
                        Body::Silence,
                        early_decision(q, &no_device(), Outcome::RrlDrop),
                    ),
                ),
                RrlAction::Slip => Some(
                    recorded(
                        Body::Send(response::truncated()),
                        early_decision(q, &no_device(), Outcome::RrlSlip),
                    ),
                ),
            },
            None => None,
        }
    }

    /// Answers from the local records of the profile.
    fn answer_from_profile(&self, q: &Query, resolution: Option<&Resolution>) -> (r: Option<Reply>)
        requires
            resolution matches Some(x) ==> x.wf(),
        ensures
            match r {
                Some(reply) => profile_reply(self@, q@, resolution_view(resolution)) == Some(
                    reply@,
                ),
                None => profile_reply(self@, q@, resolution_view(resolution)) is None,
            },
    {
        let x = match resolution {
            Some(x) => x,
            None => {
                return None;
            },
        };
        let p = match &x.profile {
            Some(p) => p,
            None => {
                return None;
            },
        };
        let hit = match p.local_records.lookup_with_apex(&q.domain, q.record_type) {
            Some(hit) => hit,
            None => {
                return None;
            },
        };
        let none: Option<String> = None;
        let profile = Some(p.name.as_str().to_owned());
        let row = outcome_of(
            &q.domain,
            &x.device_name,
            &profile,
            q.record_type,
            &none,
            Outcome::Local,
        );
        let mut reply = recorded(Body::Send(response::local(&hit.records)), row);
        if self.counts_local_hits {
            reply.local_hit = Some(
                LocalHit {
                    scope: LocalScope::Profile(p.name.as_str().to_owned()),
                    apex: hit.apex,
                },
            );
        }
        Some(reply)
    }

    /// Answers from the global local records.
    fn answer_from_section(&self, q: &Query, resolution: Option<&Resolution>) -> (r: Option<Reply>)
        requires
            self.wf(),
        ensures
            match r {
                Some(reply) => global_reply(self@, q@, resolution_view(resolution)) == Some(
                    reply@,
                ),
                None => global_reply(self@, q@, resolution_view(resolution)) is None,
            },
    {
        let local = match &self.local_records {
            Some(local) => local,
            None => {
                return None;
            },
        };
        let device = resolved_device(resolution);
        match local.lookup(&q.domain, q.record_type) {
            LocalLookup::Hit { records, apex } => {
                let row = early_decision(q, &device, Outcome::Local);
                let mut reply = recorded(Body::Send(response::local(&records)), row);
                if self.counts_local_hits {
                    reply.local_hit = Some(LocalHit { scope: LocalScope::Global, apex });
                }
                Some(reply)
            },
            LocalLookup::NodataSynthesis { ttl } => Some(
                recorded(
                    Body::Send(response::soa_nodata(ttl)),
                    early_decision(q, &device, Outcome::Local),
                ),
            ),
            LocalLookup::Miss => None,
        }
    }

    /// Answers from the local records: those of the profile first.
    pub fn answer_locally(&self, q: &Query, resolution: Option<&Resolution>) -> (r: Option<Reply>)
        requires
            self.wf(),
            resolution matches Some(x) ==> x.wf(),
        ensures
            match r {
                Some(reply) => local_reply(self@, q@, resolution_view(resolution)) == Some(reply@),
                None => local_reply(self@, q@, resolution_view(resolution)) is None,
            },
    {
        match self.answer_from_profile(q, resolution) {
            Some(reply) => Some(reply),
            None => self.answer_from_section(q, resolution),
        }
    }

    /// Answers for a device's network name.
    pub fn answer_network_name(
        &self,
        q: &Query,
        resolution: Option<&Resolution>,
        network: NetworkName,
    ) -> (r: Option<Reply>)
        ensures
            match r {
                Some(reply) => network_reply(self@, q@, resolution_view(resolution), network)
                    == Some(reply@),
                None => network_reply(self@, q@, resolution_view(resolution), network) is None,
            },
    {
        if resolution.is_none() {
            return None;
        }
        let device = resolved_device(resolution);
        match network {
            NetworkName::Unknown => {
                return None;
            },
            NetworkName::V4(ip) => {
                if q.record_type == RecordType::A {
                    let rec = Record::from_rdata(
                        q.name.copy(),
                        self.dynamic_ttl_secs,
                        RData::A(ip),
                    );
                    let ghost shown = rec@;
                    let records: Vec<Record> = vec![rec];
                    proof {
                        assert(record_views(records@) =~= seq![shown]);
                    }
                    return Some(
                        recorded(
                            Body::Send(response::local(&records)),
                            early_decision(q, &device, Outcome::Local),
                        ),
                    );
                }
            },
            NetworkName::Offline => {
                if q.record_type == RecordType::A {
                    return Some(
                        recorded(
                            Body::Send(response::nxdomain()),
                            early_decision(q, &device, Outcome::Local),
                        ),
                    );
                }
            },
            NetworkName::V6 => {},
        }
        if q.record_type != RecordType::A && self.nodata_for_missing_types_network_name {
            return Some(
                recorded(
                    Body::Send(response::soa_nodata(self.dynamic_ttl_secs)),
                    early_decision(q, &device, Outcome::Local),
                ),
            );
        }
        None
    }

    /// Judges the name of a query. `verdict` and `source` are what the
    /// profile evaluator says of it; they count only where there is a profile.
    pub fn judge(
        &self,
        q: Query,
        resolution: Option<&Resolution>,
        ecs: Option<EcsPrefix>,
        verdict: FilterResult,
        source: Option<BlockSource>,
    ) -> (r: Result<Passed, Reply>)
        ensures
            match r {
                Ok(p) => judged(q@, resolution_view(resolution), ecs, verdict, source) == Ok::<
                    PassedV,
                    ReplyV,
                >(p@) && p.query == q,
                Err(reply) => judged(q@, resolution_view(resolution), ecs, verdict, source)
                    == Err::<PassedV, ReplyV>(reply@),
            },
    {
        let device = resolved_device(resolution);
        let x = match resolution {
            Some(x) => x,
            None => {
                let mut reply = recorded(
                    Body::Send(response::refused()),
                    early_decision(&q, &device, Outcome::Refused),
                );
                reply.alarm = true;
                return Err(reply);
            },
        };
        let p = match &x.profile {
            Some(p) => p,
            None => {
                return Err(
                    recorded(
                        Body::Send(response::refused()),
                        early_decision(&q, &device, Outcome::Refused),
                    ),
                );
            },
        };
        let overlay = match &x.overlay {
            Some(ov) => Some(ov),
            None => None,
        };
        let (blocked, why) = evaluate_with_overlay(&q.domain, p, overlay, verdict, source);
        if blocked {
            let none: Option<String> = None;
            let profile = Some(p.name.as_str().to_owned());
            let mut row = outcome_of(
                &q.domain,
                &device,
                &profile,
                q.record_type,
                &none,
                Outcome::Blocked,
            );
            row.block_list_bit = block_list_bit(why);
            let body = Body::Send(
                response::block_response(
                    &q.name,
                    q.record_type,
                    p.blocked_ttl_secs,
                    p.block_response,
                ),
            );
            return Err(recorded(body, row));
        }
        let domain = q.domain.as_str().to_owned();
        Ok(
            Passed {
                query: q,
                client_name: device,
                profile: p.name.as_str().to_owned(),
                block_response: p.block_response,
                blocked_ttl: p.blocked_ttl_secs,
                ecs,
                domain,
                rewrote_from: None,
            },
        )
    }

    /// Looks a query up in the cache.
    pub fn look_up(&self, p: &Passed, now: u128) -> (r: (CacheKey, CacheLookup))
        ensures
            key_view(r.0) == slot(p@),
            seen(self@.cache, slot(p@), now, r.1@),
    {
        self.cache.lookup_keyed(
            &p.domain,
            p.query.record_type,
            p.query.dns_class,
            p.ecs,
            now,
        )
    }

    /// Drops the slot that a query was answered from.
    fn invalidate_current_bucket(&mut self, p: &Passed)
        requires
            old(self).wf(),
        ensures
            final(self).wf(),
            final(self)@ == with_cache(old(self)@, without_slot(old(self)@.cache, p@)),
    {
        self.cache.invalidate_key(
            &p.domain,
            p.query.record_type,
            p.query.dns_class,
            p.ecs,
        );
    }

    /// Blocks an answer over its CNAME chain: drops the slot, records the
    /// block and audits it.
    pub fn dispatch_cname_block(&mut self, p: &Passed, offending: &str, source: BlockSource) -> (r:
        Reply)
        requires
            old(self).wf(),
        ensures
            final(self).wf(),
            final(self)@ == with_cache(old(self)@, without_slot(old(self)@.cache, p@)),
            forall|found: Inspection|
                found.chain matches Some((o, s)) && o@ == offending@ && s == source
                    ==> #[trigger] inspection_block(p@, found, old(self)@.audits) == Some(r@),
    {
        self.invalidate_current_bucket(p);
        let mut row = passed_decision(p, Outcome::Blocked);
        row.cname_chain_via = Some(offending.to_owned());
        row.block_list_bit = block_list_bit(Some(source));
        let mut reply = recorded(block_body(p), row);
        if self.audits {
            reply.audit = Some(
                CnameBlock {
                    domain: p.domain.as_str().to_owned(),
                    offending: offending.to_owned(),
                    source,
                    rewrote_from: copy_text(&p.rewrote_from),
                },
            );
        }
        reply
    }

    /// Blocks an answer over an address in it: drops the slot and records the
    /// block.
    pub fn dispatch_ip_block(&mut self, p: &Passed) -> (r: Reply)
        requires
            old(self).wf(),
        ensures
            final(self).wf(),
            final(self)@ == with_cache(old(self)@, without_slot(old(self)@.cache, p@)),
            forall|found: Inspection|
                found.chain is None && found.address is Some ==> #[trigger] inspection_block(
                    p@,
                    found,
                    old(self)@.audits,
                ) == Some(r@),
    {
        self.invalidate_current_bucket(p);
        recorded(block_body(p), passed_decision(p, Outcome::Blocked))
    }

    /// Blocks an answer where its inspection calls for it.
    fn block_inspected(&mut self, p: &Passed, found: &Inspection) -> (r: Option<Reply>)
        requires
            old(self).wf(),
        ensures
            final(self).wf(),
            match r {
                Some(reply) => inspection_block(p@, *found, old(self)@.audits) == Some(reply@)
                    && final(self)@ == with_cache(
                    old(self)@,
                    without_slot(old(self)@.cache, p@),
                ),
                None => inspection_block(p@, *found, old(self)@.audits) is None && final(self)@
                    == old(self)@,
            },
    {
        match &found.chain {
            Some((offending, source)) => {
                return Some(self.dispatch_cname_block(p, offending, *source));
            },
            None => {},
        }
        match &found.address {
            Some(_) => Some(self.dispatch_ip_block(p)),
            None => None,
        }
    }

    /// Serves a fresh entry, unless its inspection calls for a block.
    pub fn serve_fresh(&mut self, p: &Passed, entry: Arc<CacheEntry>, found: &Inspection) -> (r:
        Reply)
        requires
            old(self).wf(),
        ensures
            final(self).wf(),
            r@ == fresh_reply(old(self)@, p@, (*entry)@, *found),
            final(self)@ == (if inspection_block(p@, *found, old(self)@.audits) is Some {
                with_cache(old(self)@, without_slot(old(self)@.cache, p@))
            } else {
                old(self)@
            }),
    {
        match self.block_inspected(p, found) {
            Some(reply) => {
                return reply;
            },
            None => {},
        }
        let mut row = passed_decision(p, Outcome::Cached);
        row.cache_negative_hit = entry.is_negative();
        recorded(Body::Serve(entry, p.rewrote_from.is_some()), row)
    }

    /// Whether the tunneling detector is to count a query.
    pub fn counts_rate(&self, p: &Passed, missed: bool) -> (r: bool)
        ensures
            r == rate_counted(self@, p@, missed),
    {
        let armed = match &self.security {
            Some(layer) => layer.tunneling.is_some(),
            None => false,
        };
        p.query.record_type != RecordType::ANY && missed && tunneling_rate_gate_applies(
            p.query.record_type,
            &p.domain,
        ) && armed
    }

    /// Answers a query for any type, and refuses one that is over its
    /// tunneling budget. What is left goes upstream.
    pub fn intercept(&self, p: &Passed, missed: bool, rate_exceeded: bool) -> (r: Option<Reply>)
        ensures
            match r {
                Some(reply) => intercepted(self@, p@, missed, rate_exceeded) == Some(reply@),
                None => intercepted(self@, p@, missed, rate_exceeded) is None,
            },
    {
        if p.query.record_type == RecordType::ANY {
            return Some(
                recorded(
                    Body::Send(response::rfc8482(&p.query.name, self.blocked_ttl)),
                    passed_decision(p, Outcome::Hinfo),
                ),
            );
        }
        if missed && tunneling_rate_gate_applies(p.query.record_type, &p.domain) {
            match &self.security {
                Some(layer) => {
                    if layer.check_tunneling_rate(rate_exceeded) {
                        return Some(
                            recorded(
                                Body::Send(response::refused()),
                                passed_decision(p, Outcome::Refused),
                            ),
                        );
                    }
                },
                None => {},
            }
        }
        None
    }

    /// The name that is asked of the upstream.
    pub fn upstream_name(&self, p: &Passed) -> (r: Name)
        ensures
            r@ == forward_name(p@.domain, p@.rewrote_from is Some, p@.query.name),
    {
        fwd_name_for(&p.domain, p.rewrote_from.is_some(), &p.query.name)
    }

    /// Prepares the cache for a fetch: the stale entry goes, so that it is not
    /// served while the upstream is asked. Where the slot has been filled in
    /// the meantime, what is there is returned, and the upstream is not asked.
    pub fn begin_fetch(&mut self, key: &CacheKey, had_stale: bool, now: u128) -> (r: Option<
        Arc<CacheEntry>,
    >)
        requires
            old(self).wf(),
        ensures
            final(self).wf(),
            final(self)@ == with_cache(
                old(self)@,
                if had_stale {
                    with_entries(
                        old(self)@.cache,
                        old(self)@.cache.entries.remove(key_view(*key)),
                    )
                } else {
                    old(self)@.cache
                },
            ),
            had_stale ==> r is None,
            r matches Some(e) ==> old(self)@.cache.entries.contains_key(key_view(*key)) && (*e)@
                == old(self)@.cache.entries[key_view(*key)] && !(classified(
                (*e)@,
                old(self)@.cache.stale_secs,
                now,
            ) is Miss),
    {
        self.cache.start_fetch(key, had_stale, now)
    }

    /// Brings the answer of the upstream into the cache: a cacheable answer is
    /// cached and returned, and anything else is a failure that carries the
    /// stale entry along.
    pub fn end_fetch(
        &mut self,
        key: CacheKey,
        stale: Option<Arc<CacheEntry>>,
        answer: Result<Fetched, DnsError>,
        now: u128,
    ) -> (r: Result<Arc<CacheEntry>, FetchFailure>)
        requires
            old(self).wf(),
        ensures
            final(self).wf(),
            final(self)@ == with_cache(old(self)@, final(self)@.cache),
            answer_taken(
                old(self)@.cache,
                key_view(key),
                stale_view(stale),
                answer,
                now,
                fetch_view(r),
                final(self)@.cache,
            ),
    {
        self.cache.finish_fetch(key, stale, answer, now)
    }

    /// Takes in what a refresh of a served entry brought. Only a clean answer
    /// with records is cached: the slot is shared with clients whose policy is
    /// not known here.
    pub fn take_prefetched(
        &mut self,
        p: &Passed,
        answer: Fetched,
        has_blocked_cname: bool,
        has_blocked_ip: bool,
        now: u128,
    )
        requires
            old(self).wf(),
        ensures
            final(self).wf(),
            final(self)@ == refreshed(
                old(self)@,
                p@,
                answer,
                has_blocked_cname,
                has_blocked_ip,
                now,
            ),
    {
        if answer.response_code != ResponseCode::NoError || answer.records.len() == 0
            || has_blocked_cname || has_blocked_ip {
            return;
        }
        self.cache.insert(
            &p.domain,
            p.query.record_type,
            p.query.dns_class,
            answer.records,
            ResponseCode::NoError,
            None,
            p.ecs,
            now,
        );
    }

    /// Ends a query that went upstream.
    pub fn settle(
        &mut self,
        p: &Passed,
        result: Result<Arc<CacheEntry>, FetchFailure>,
        found: &Inspection,
    ) -> (r: Reply)
        requires
            old(self).wf(),
        ensures
            final(self).wf(),
            r@ == settled(old(self)@, p@, fetch_view(result), *found),
            final(self)@ == (if fetch_block(old(self)@, p@, fetch_view(result), *found) is Some {
                with_cache(old(self)@, without_slot(old(self)@.cache, p@))
            } else {
                old(self)@
            }),
    {
        let attempt = passed_decision(p, Outcome::Allowed);
        let ghost first = attempt@;
        if to_inspect(&result).is_some() {
            match self.block_inspected(p, found) {
                Some(block) => {
                    let mut reply = block;
                    let ghost rows = reply@.rows;
                    reply.rows.insert(0, attempt);
                    proof {
                        assert(reply@.rows =~= seq![first] + rows);
                    }
                    return reply;
                },
                None => {},
            }
        }
        let rewrote = p.rewrote_from.is_some();
        match result {
            Ok(entry) => recorded(Body::Serve(entry, rewrote), attempt),
            Err(failure) => {
                match failure.error {
                    DnsError::Uncacheable(code) => {
                        return recorded(Body::Send(response::forwarded(code)), attempt);
                    },
                    _ => {},
                }
                match failure.stale {
                    Some(entry) => {
                        let mut row = passed_decision(p, Outcome::Stale);
                        row.cache_negative_hit = entry.is_negative();
                        let ghost second = row@;
                        let mut reply = recorded(Body::Serve(entry, rewrote), attempt);
                        let ghost rows = reply@.rows;
                        reply.rows.push(row);
                        reply.alarm = true;
                        proof {
                            assert(reply@.rows =~= rows.push(second));
                            assert(reply@.rows =~= seq![first, second]);
                        }
                        reply
                    },
                    None => {
                        let mut reply = recorded(Body::Send(response::servfail()), attempt);
                        reply.alarm = true;
                        reply
                    },
                }
            },
        }
    }
}

/// What is sent for a body. `decision` is what the validator says of an
/// entry that is served; `query` is the name of the question.
pub open spec fn sent(
    body: BodyV,
    decision: Option<DnssecDecision>,
    query: Option<NameV>,
    now: u128,
) -> Option<ResponseV> {
    match body {
        BodyV::Silence => None,
        BodyV::Send(r) => Some(r),
        BodyV::Serve(e, rewrote) => Some(validated_view(e, decision, rewrote, query, now)),
    }
}

/// The response that is sent for a body.
pub fn send_body(
    body: Body,
    decision: Option<DnssecDecision>,
    query: &Option<Name>,
    now: u128,
) -> (r: Option<Response>)
    ensures
        match r {
            Some(resp) => sent(body@, decision, response::name_view(*query), now) == Some(resp@),
            None => sent(body@, decision, response::name_view(*query), now) is None,
        },
{
    match body {
        Body::Silence => None,
        Body::Send(r) => Some(r),
        Body::Serve(entry, rewrote) => Some(
            response::cached_validated(&entry, decision, rewrote, query, now),
        ),
    }
}

} // verus!
