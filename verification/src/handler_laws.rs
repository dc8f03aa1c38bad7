//! What the rules of the handler come to, told by what a client receives and
//! what is recorded.
use vstd::prelude::*;
use crate::cache::{negative, EntryV, FetchV};
use crate::cidr::allowed;
use crate::client_subnet::EcsPrefix;
use crate::filter::{covered, BlockSource, FilterResult};
use crate::handler::{
    admission, auditing, counting_hits, device_of, fetch_block, fresh_reply, global_reply,
    inspected_entry, inspection_block, intercepted, judged, limited, local_reply, network_reply,
    new_handler, policy_allows, prefetch_taken, profile_reply, rate_counted, refreshed, rewritten,
    screened, sent, settled, slot, with_access, with_dynamic_ttl, with_nodata, without_slot,
    HandlerV, Inspection, NetworkName, PassedV, QueryV, Question, Resolution,
};
use crate::local::{looked_up, LookupV};
use crate::local_profile::profile_answer;
use crate::net::IpAddr;
use crate::outcome::{named, BodyV, DecisionV, Outcome, ReplyV, ScopeV};
use crate::record::{DNSClass, RDataV, RecordType, ResponseCode};
use crate::response::{block_view, validated_view, ResponseV};
use crate::security::{PreQueryFacts, RrlAction};

verus! {

/// The reply is a finished response with this code and no records.
pub open spec fn sends_bare(r: ReplyV, code: ResponseCode) -> bool {
    r.body matches BodyV::Send(x) && x.code == code && x.answers.len() == 0 && x.authority.len()
        == 0 && !x.truncated && !x.authentic_data && !x.recursion_available && !x.authoritative
}

/// The reply does nothing besides answering and recording.
pub open spec fn quiet(r: ReplyV) -> bool {
    !r.refused_by_acl && r.local_hit is None && r.audit is None
}

/// The response is an answer of a resolver: it offers recursion, claims neither
/// authority nor authenticity, and is whole.
pub open spec fn plain(x: ResponseV) -> bool {
    x.recursion_available && !x.authoritative && !x.authentic_data && !x.truncated
}

/// The row is one of the query: for its name after a rewrite, its client, its
/// profile and its type.
pub open spec fn attributed(row: DecisionV, p: PassedV) -> bool {
    &&& row.domain == p.domain
    &&& row.rewrote_from == p.rewrote_from
    &&& row.client_name == p.client_name
    &&& row.client_profile == Some(p.profile)
    &&& row.record_type == p.query.record_type
}

/// The response says that there is no data: success, no answers, and one
/// authority record, whose TTL and minimum are the time that this may be kept.
pub open spec fn tells_no_data(x: ResponseV, ttl: u32) -> bool {
    &&& x.code == ResponseCode::NoError
    &&& x.answers.len() == 0
    &&& x.authority.len() == 1
    &&& x.authority[0].ttl == ttl
    &&& x.authority[0].data matches RDataV::SOA(_, _, _, _, _, _, minimum) && minimum == ttl
    &&& plain(x)
}

/// The reply is recorded by one row with this outcome, for the name and the
/// type of the query.
pub open spec fn recorded_once(r: ReplyV, q: QueryV, outcome: Outcome) -> bool {
    &&& r.rows.len() == 1
    &&& r.rows[0].outcome == outcome
    &&& r.rows[0].domain == q.domain
    &&& r.rows[0].record_type == q.record_type
    &&& r.rows[0].rewrote_from is None
    &&& !r.rows[0].cached
    &&& !r.rows[0].cache_negative_hit
    &&& r.rows[0].cname_chain_via is None
}

// ── Admission ─────────────────────────────────────────────────────────

/// A query is admitted exactly if its source is allowed, the filters are ready,
/// and it holds a valid question; it then asks what that question asked.
pub proof fn admission_takes_three_things(
    h: HandlerV,
    client: IpAddr,
    gate_open: bool,
    question: Option<Question>,
)
    ensures
        admission(h, client, gate_open, question) is Ok <==> allowed(client, h.allow_from)
            && gate_open && question is Some && question->0.valid,
        admission(h, client, gate_open, question) matches Ok(q) ==> q.client == client && q.name
            == question->0.name@ && q.record_type == question->0.record_type && q.dns_class
            == question->0.dns_class && q.domain == crate::answer::lookup_key(question->0.name@),
        admission(h, client, gate_open, question) matches Err(r) ==> r.rows.len() == 0
            && r.local_hit is None && r.audit is None && (r.refused_by_acl <==> !allowed(
            client,
            h.allow_from,
        )) && sends_bare(
            r,
            if allowed(client, h.allow_from) {
                ResponseCode::ServFail
            } else {
                ResponseCode::Refused
            },
        ) && (r.alarm <==> allowed(client, h.allow_from) && !gate_open && !h.warned),
{
}

// ── Screening and limits ──────────────────────────────────────────────

/// Without a security layer nothing is screened. With one, whatever it refuses
/// is answered by a bare refusal and recorded as refused.
pub proof fn screening_refuses_or_lets_pass(h: HandlerV, q: QueryV, facts: PreQueryFacts)
    ensures
        h.security is None ==> screened(h, q, facts) is None,
        screened(h, q, facts) matches Some(r) ==> sends_bare(r, ResponseCode::Refused)
            && recorded_once(r, q, Outcome::Refused) && r.rows[0].blocked
            && r.rows[0].client_profile is None && !r.alarm && quiet(r),
        h.security is Some && facts.bad_characters ==> screened(h, q, facts) is Some,
        (h.security matches Some(l) && l.rate_limiter is Some && facts.rate_exceeded) ==> screened(
            h,
            q,
            facts,
        ) is Some,
        (h.security matches Some(l) && l.anti_bypass matches Some(ab) && covered(ab@, q.domain))
            ==> screened(h, q, facts) is Some,
        (h.security matches Some(l) && l.tunneling is Some && facts.tunneling_shape
            && q.record_type != RecordType::PTR) ==> screened(h, q, facts) is Some,
        h.security is Some && facts.rebinding_pattern && (q.record_type == RecordType::A
            || q.record_type == RecordType::AAAA || q.record_type == RecordType::HTTPS
            || q.record_type == RecordType::SVCB) ==> screened(h, q, facts) is Some,
        !facts.rate_exceeded && !facts.bad_characters && !facts.rebinding_pattern
            && !facts.tunneling_shape && (h.security matches Some(l) ==> (
        l.anti_bypass matches Some(ab) ==> !covered(ab@, q.domain))) ==> screened(h, q, facts)
            is None,
{
}

/// A response over its budget is dropped without a word or cut short so that the
/// client retries over TCP; one within its budget, and one that nobody limits,
/// goes on.
pub proof fn limits_drop_or_cut_short(h: HandlerV, q: QueryV, action: RrlAction)
    ensures
        ({
            let armed = h.security matches Some(l) && l.rrl is Some;
            &&& limited(h, q, action) is None <==> !armed || action == RrlAction::Allow
            &&& limited(h, q, action) matches Some(r) ==> match action {
                RrlAction::Drop => r.body is Silence && recorded_once(r, q, Outcome::RrlDrop)
                    && r.rows[0].blocked && quiet(r) && !r.alarm,
                RrlAction::Slip => {
                    &&& r.body matches BodyV::Send(x) && x.truncated && x.code
                        == ResponseCode::NoError && x.answers.len() == 0 && x.authority.len() == 0
                        && x.recursion_available
                    &&& recorded_once(r, q, Outcome::RrlSlip) && !r.rows[0].blocked && quiet(r)
                        && !r.alarm
                },
                RrlAction::Allow => false,
            }
        }),
{
}

/// Naming the device of a client changes nothing but the name on the rows.
pub proof fn names_are_put_on_every_row(r: ReplyV, device: Option<Seq<char>>)
    ensures
        ({
            let n = named(r, device);
            &&& n.body == r.body && n.alarm == r.alarm && n.audit == r.audit && n.local_hit
                == r.local_hit && n.refused_by_acl == r.refused_by_acl
            &&& n.rows.len() == r.rows.len()
            &&& forall|i: int|
                0 <= i < r.rows.len() ==> (#[trigger] n.rows[i]).client_name == device
                    && n.rows[i].outcome == r.rows[i].outcome && n.rows[i].domain
                    == r.rows[i].domain && n.rows[i].blocked == r.rows[i].blocked
                    && n.rows[i].cached == r.rows[i].cached && n.rows[i].record_type
                    == r.rows[i].record_type && n.rows[i].client_profile
                    == r.rows[i].client_profile && n.rows[i].rewrote_from == r.rows[i].rewrote_from
        }),
{
}

// ── Local answers ─────────────────────────────────────────────────────

/// What the records of a profile find is sent as it was found, with success, and
/// recorded as local under the profile. What they do not find, they do not
/// answer.
pub proof fn profile_records_are_sent_as_found(
    h: HandlerV,
    q: QueryV,
    resolution: Option<Resolution>,
)
    ensures
        profile_reply(h, q, resolution) is Some <==> (resolution is Some && resolution->0.profile
            is Some && profile_answer(
            resolution->0.profile->0.local_records@,
            q.domain,
            q.record_type,
        ) is Some),
        profile_reply(h, q, resolution) matches Some(r) ==> {
            let p = resolution->0.profile->0;
            let (records, apex) = profile_answer(p.local_records@, q.domain, q.record_type)->0;
            &&& r.body matches BodyV::Send(x) && x.code == ResponseCode::NoError && x.answers
                == records && x.authority.len() == 0 && plain(x)
            &&& recorded_once(r, q, Outcome::Local) && !r.rows[0].blocked
            &&& !r.alarm && r.audit is None && !r.refused_by_acl
            &&& r.rows[0].client_profile == Some(p.name@)
            &&& r.rows[0].client_name == device_of(resolution)
            &&& h.counts_hits ==> r.local_hit == Some((ScopeV::Profile(p.name@), apex))
            &&& !h.counts_hits ==> r.local_hit is None
        },
{
}

/// What the global records find is sent as it was found, with success; a name
/// that they define without the queried type is told to have no data; and what
/// they do not define, they do not answer.
pub proof fn global_records_are_sent_as_found(
    h: HandlerV,
    q: QueryV,
    resolution: Option<Resolution>,
)
    ensures
        h.local is None ==> global_reply(h, q, resolution) is None,
        h.local matches Some(t) ==> match looked_up(t, q.domain, q.record_type) {
            LookupV::Hit(records, apex) => {
                &&& global_reply(h, q, resolution) matches Some(r) && recorded_once(
                    r,
                    q,
                    Outcome::Local,
                ) && (r.body matches BodyV::Send(x) && x.code == ResponseCode::NoError && x.answers
                    == records && x.authority.len() == 0 && plain(x)) && (h.counts_hits
                    ==> r.local_hit == Some((ScopeV::Global, apex))) && (!h.counts_hits
                    ==> r.local_hit is None) && r.rows[0].client_name == device_of(resolution)
                    && r.rows[0].client_profile is None && !r.rows[0].blocked && !r.alarm
                    && r.audit is None && !r.refused_by_acl
            },
            LookupV::NodataSynthesis(ttl) => {
                &&& global_reply(h, q, resolution) matches Some(r) && recorded_once(
                    r,
                    q,
                    Outcome::Local,
                ) && (r.body matches BodyV::Send(x) && tells_no_data(x, ttl)) && quiet(r)
                    && r.rows[0].client_name == device_of(resolution) && r.rows[0].client_profile
                    is None && !r.rows[0].blocked && !r.alarm
            },
            LookupV::Miss => global_reply(h, q, resolution) is None,
        },
{
}

/// The records of the profile are asked first, and the global ones only where
/// those have no answer.
pub proof fn profiles_are_asked_first(h: HandlerV, q: QueryV, resolution: Option<Resolution>)
    ensures
        profile_reply(h, q, resolution) is Some ==> local_reply(h, q, resolution) == profile_reply(
            h,
            q,
            resolution,
        ),
        profile_reply(h, q, resolution) is None ==> local_reply(h, q, resolution) == global_reply(
            h,
            q,
            resolution,
        ),
{
}

/// A network name keeps to itself: for a resolved client and a name that some
/// device has, every type but A is told to have no data while that is switched
/// on, and is passed on only where it is off.
pub proof fn network_names_have_no_data_of_other_types(
    h: HandlerV,
    q: QueryV,
    resolution: Option<Resolution>,
    network: NetworkName,
)
    requires
        resolution is Some,
        !(network is Unknown),
        q.record_type != RecordType::A,
    ensures
        h.nodata ==> (network_reply(h, q, resolution, network) matches Some(r) && (
        r.body matches BodyV::Send(x) && tells_no_data(x, h.dynamic_ttl)) && recorded_once(
            r,
            q,
            Outcome::Local,
        ) && !r.rows[0].blocked && r.rows[0].client_name == device_of(resolution)
            && r.rows[0].client_profile is None && quiet(r) && !r.alarm),
        !h.nodata ==> network_reply(h, q, resolution, network) is None,
{
}

/// The address of a network name: a device with an IPv4 address is answered by
/// exactly that address under the queried name, one that is offline by a name
/// error, and one that has IPv6 alone by nobody here.
pub proof fn network_names_answer_with_the_address(
    h: HandlerV,
    q: QueryV,
    resolution: Option<Resolution>,
    network: NetworkName,
)
    requires
        resolution is Some,
        q.record_type == RecordType::A,
    ensures
        network matches NetworkName::V4(ip) ==> (network_reply(
            h,
            q,
            resolution,
            network,
        ) matches Some(r) && (r.body matches BodyV::Send(x) && x.code == ResponseCode::NoError
            && x.answers.len() == 1 && x.answers[0].name == q.name && x.answers[0].dns_class
            == DNSClass::IN && x.answers[0].ttl == h.dynamic_ttl && x.answers[0].data == RDataV::A(
            ip@,
        ) && x.authority.len() == 0 && plain(x)) && recorded_once(r, q, Outcome::Local)
            && r.rows[0].client_name == device_of(resolution) && quiet(r) && !r.alarm),
        network is Offline ==> (network_reply(h, q, resolution, network) matches Some(r)
            && sends_bare(r, ResponseCode::NXDomain) && recorded_once(r, q, Outcome::Local)
            && r.rows[0].client_name == device_of(resolution) && quiet(r) && !r.alarm),
        network is V6 || network is Unknown ==> network_reply(h, q, resolution, network) is None,
{
}

/// Nobody's name is nobody's: without a resolver, or for a name that no device
/// has, network names answer nothing, whatever the type.
pub proof fn unknown_network_names_answer_nothing(
    h: HandlerV,
    q: QueryV,
    resolution: Option<Resolution>,
    network: NetworkName,
)
    requires
        resolution is None || network is Unknown,
    ensures
        network_reply(h, q, resolution, network) is None,
{
}

// ── The filter ────────────────────────────────────────────────────────

/// A name passes the filter exactly if its client has a profile and the rules of
/// device and profile do not block it. What passes carries its client, its
/// profile and the way in which that profile blocks.
pub proof fn judgement_passes_what_nothing_blocks(
    q: QueryV,
    resolution: Option<Resolution>,
    ecs: Option<EcsPrefix>,
    verdict: FilterResult,
    source: Option<BlockSource>,
)
    ensures
        ({
            let r = resolution->0;
            let p = r.profile->0;
            let mapped = resolution is Some && r.profile is Some;
            let device_denies = r.overlay matches Some(ov) && covered(ov.deny@, q.domain);
            let device_allows = r.overlay matches Some(ov) && covered(ov.allow@, q.domain);
            let overrides = r.overlay matches Some(ov) && ov.override_profile_deny;
            let blocked = if device_denies {
                true
            } else if device_allows {
                covered(p.deny_domains@, q.domain) && !overrides
            } else {
                verdict == FilterResult::Block
            };
            let out = judged(q, resolution, ecs, verdict, source);
            &&& out is Ok <==> mapped && !blocked
            &&& out matches Ok(x) ==> x.query == q && x.domain == q.domain && x.rewrote_from is None
                && x.ecs == ecs && x.profile == p.name@ && x.client_name == device_of(resolution)
                && x.block_response == p.block_response && x.blocked_ttl == p.blocked_ttl_secs
            &&& !mapped ==> (out matches Err(e) && sends_bare(e, ResponseCode::Refused)
                && recorded_once(e, q, Outcome::Refused) && e.rows[0].client_name == device_of(
                resolution,
            ) && e.rows[0].client_profile is None && quiet(e) && (e.alarm <==> resolution is None))
            &&& mapped && blocked ==> (out matches Err(e) && e.body == BodyV::Send(
                block_view(q.name, q.record_type, p.blocked_ttl_secs, p.block_response),
            ) && recorded_once(e, q, Outcome::Blocked) && e.rows[0].blocked
                && e.rows[0].client_profile == Some(p.name@) && e.rows[0].client_name == device_of(
                resolution,
            ) && quiet(e) && !e.alarm)
            &&& mapped && blocked && !device_denies && !device_allows ==> (out matches Err(e) && (
            source matches Some(BlockSource::List(bit)) ==> e.rows[0].block_list_bit == Some(bit))
                && (!(source matches Some(BlockSource::List(_))) ==> e.rows[0].block_list_bit
                is None))
            &&& mapped && (device_denies || device_allows) && blocked ==> (out matches Err(e)
                && e.rows[0].block_list_bit is None)
        }),
{
}

/// A rewrite gives a query another name and remembers the first; all else is as
/// it was. Without a target nothing changes.
pub proof fn rewrites_change_the_name_alone(p: PassedV, target: Option<Seq<char>>)
    ensures
        target is None ==> rewritten(p, target) == p,
        target matches Some(t) ==> ({
            let x = rewritten(p, target);
            x.domain == t && x.rewrote_from == Some(p.domain) && x.query == p.query && x.ecs
                == p.ecs && x.profile == p.profile && x.client_name == p.client_name
                && x.block_response == p.block_response && x.blocked_ttl == p.blocked_ttl
        }),
{
}

// ── Inspection ────────────────────────────────────────────────────────

/// An answer is blocked over its inspection exactly if that found a blocked
/// target or a blocked address. A target is named on the row and audited where
/// audits are kept; an address is neither.
pub proof fn inspections_block_what_they_find(p: PassedV, found: Inspection, audits: bool)
    ensures
        inspection_block(p, found, audits) is Some <==> found.chain is Some || found.address
            is Some,
        inspection_block(p, found, audits) matches Some(r) ==> {
            &&& r.body == BodyV::Send(
                block_view(p.query.name, p.query.record_type, p.blocked_ttl, p.block_response),
            )
            &&& r.rows.len() == 1 && r.rows[0].outcome == Outcome::Blocked && r.rows[0].blocked
                && attributed(r.rows[0], p)
            &&& found.chain matches Some((o, s)) ==> r.rows[0].cname_chain_via == Some(o@) && (
            s matches BlockSource::List(bit) ==> r.rows[0].block_list_bit == Some(bit)) && (!(
            s is List) ==> r.rows[0].block_list_bit is None)
            &&& r.audit is Some <==> audits && found.chain is Some
            &&& r.audit matches Some(a) ==> a.domain == p.domain && a.offending
                == (found.chain->0).0@ && a.source == (found.chain->0).1 && a.rewrote_from
                == p.rewrote_from
            &&& found.chain is None ==> r.rows[0].cname_chain_via is None
                && r.rows[0].block_list_bit is None
            &&& !r.alarm && r.local_hit is None && !r.refused_by_acl
        },
{
}

/// A fresh entry is served as it is, unless its inspection blocks it.
pub proof fn fresh_entries_are_served_unless_blocked(
    h: HandlerV,
    p: PassedV,
    e: EntryV,
    found: Inspection,
)
    ensures
        found.chain is Some || found.address is Some ==> Some(fresh_reply(h, p, e, found))
            == inspection_block(p, found, h.audits),
        found.chain is None && found.address is None ==> ({
            let r = fresh_reply(h, p, e, found);
            &&& r.body == BodyV::Serve(e, p.rewrote_from is Some)
            &&& r.rows.len() == 1 && r.rows[0].outcome == Outcome::Cached && r.rows[0].cached
                && !r.rows[0].blocked && r.rows[0].cache_negative_hit == negative(e) && attributed(
                r.rows[0],
                p,
            )
            &&& !r.alarm && quiet(r)
        }),
{
}

/// What keeps a query from the upstream: a query for any type is answered here
/// by one host record, and a new name over the tunneling budget is refused. A
/// name that the cache has held, a reverse lookup and an unarmed detector let
/// every query of another type pass.
pub proof fn queries_go_upstream_unless_intercepted(
    h: HandlerV,
    p: PassedV,
    missed: bool,
    over: bool,
)
    ensures
        ({
            let armed = h.security matches Some(l) && l.tunneling is Some;
            let reverse = p.query.record_type == RecordType::PTR
                && crate::security::reverse_zone(p.domain);
            let any = p.query.record_type == RecordType::ANY;
            let r = intercepted(h, p, missed, over);
            &&& r is Some <==> any || (missed && over && armed && !reverse)
            &&& any ==> (r matches Some(x) && (x.body matches BodyV::Send(y) && y.code
                == ResponseCode::NoError && y.answers.len() == 1 && y.answers[0].name
                == p.query.name && y.answers[0].ttl == h.blocked_ttl && y.answers[0].data is HINFO
                && y.authority.len() == 0 && plain(y)) && x.rows.len() == 1 && x.rows[0].outcome
                == Outcome::Hinfo && !x.rows[0].blocked && attributed(x.rows[0], p))
            &&& !any ==> (r matches Some(x) ==> sends_bare(x, ResponseCode::Refused)
                && x.rows.len() == 1 && x.rows[0].outcome == Outcome::Refused && x.rows[0].blocked
                && attributed(x.rows[0], p))
            &&& r matches Some(x) ==> quiet(x) && !x.alarm
        }),
{
}

// ── After a fetch ─────────────────────────────────────────────────────

/// What is inspected after a fetch: a successful answer with records, or the
/// stale entry that stands in for an upstream that failed. An answer that was
/// refused caching is not replaced by a stale entry.
pub proof fn fetches_are_inspected_where_records_are_served(f: FetchV)
    ensures
        f matches FetchV::Got(e) ==> (inspected_entry(f) == if e.records.len() > 0 && e.code
            == ResponseCode::NoError {
            Some(e)
        } else {
            None
        }),
        f matches FetchV::Failed(stale, error) ==> (inspected_entry(f) == if error is Uncacheable {
            None
        } else {
            stale
        }),
{
}

/// How a fetch ends: what was got is served; a code that is not cached is passed
/// on; a failed upstream is replaced by the stale entry, with an alarm; and
/// without one the query fails, with an alarm. The attempt is always recorded
/// first. A block takes the place of what would have been served.
pub proof fn fetches_end_in_one_of_five_ways(
    h: HandlerV,
    p: PassedV,
    f: FetchV,
    found: Inspection,
)
    ensures
        ({
            let r = settled(h, p, f, found);
            let blocked = inspected_entry(f) is Some && (found.chain is Some || found.address
                is Some);
            let rewrote = p.rewrote_from is Some;
            &&& r.rows.len() >= 1 && r.rows[0].outcome == Outcome::Allowed && !r.rows[0].blocked
                && attributed(r.rows[0], p)
            &&& !r.refused_by_acl && r.local_hit is None && (!blocked ==> r.audit is None)
            &&& fetch_block(h, p, f, found) is Some <==> blocked
            &&& blocked ==> ({
                let b = inspection_block(p, found, h.audits)->0;
                r.body == b.body && r.audit == b.audit && r.rows.len() == 2 && r.rows[1]
                    == b.rows[0] && !r.alarm
            })
            &&& !blocked ==> match f {
                FetchV::Got(e) => r.body == BodyV::Serve(e, rewrote) && r.rows.len() == 1
                    && !r.alarm,
                FetchV::Failed(stale, error) => if error is Uncacheable {
                    (r.body matches BodyV::Send(x) && x.code == error->Uncacheable_0
                        && x.answers.len() == 0 && x.authority.len() == 0 && plain(x))
                        && r.rows.len() == 1 && !r.alarm
                } else {
                    match stale {
                        Some(e) => r.body == BodyV::Serve(e, rewrote) && r.rows.len() == 2
                            && r.rows[1].outcome == Outcome::Stale && r.rows[1].cached
                            && r.rows[1].cache_negative_hit == negative(e) && attributed(
                            r.rows[1],
                            p,
                        ) && r.alarm,
                        None => sends_bare(r, ResponseCode::ServFail) && r.rows.len() == 1
                            && r.alarm,
                    }
                },
            }
        }),
{
    if fetch_block(h, p, f, found) is Some {
        let b = inspection_block(p, found, h.audits)->0;
        assert(settled(h, p, f, found).rows =~= seq![
            settled(h, p, f, found).rows[0],
            b.rows[0],
        ]);
    }
}

/// A refresh is taken in only clean: a success with records, none of them
/// blocked by its target or by its address.
pub proof fn refreshes_are_taken_in_clean(
    answer: crate::cache::Fetched,
    blocked_target: bool,
    blocked_address: bool,
)
    ensures
        prefetch_taken(answer, blocked_target, blocked_address) <==> answer.response_code
            == ResponseCode::NoError && answer.records@.len() > 0 && !blocked_target
            && !blocked_address,
{
}

/// A block drops the slot that the answer came from, and that slot alone.
pub proof fn blocks_drop_their_slot_alone(
    c: crate::cache::CacheV,
    p: PassedV,
    key: crate::cache::KeyV,
)
    ensures
        ({
            let after = without_slot(c, p);
            let own = crate::cache::key_for(
                crate::text::lowered(p.domain),
                p.query.record_type,
                p.query.dns_class,
                p.ecs,
            );
            &&& !after.entries.contains_key(own)
            &&& key != own ==> (after.entries.contains_key(key) <==> c.entries.contains_key(key))
                && (c.entries.contains_key(key) ==> after.entries[key] == c.entries[key])
        }),
{
}

/// What is sent for a body: nothing for silence, a finished response as it is,
/// and a served entry under the word of the validator.
pub proof fn bodies_are_sent_as_they_are(
    body: BodyV,
    decision: Option<crate::dnssec_validator::DnssecDecision>,
    query: Option<crate::record::NameV>,
    now: u128,
)
    ensures
        sent(body, decision, query, now) is None <==> body is Silence,
        body matches BodyV::Send(x) ==> sent(body, decision, query, now) == Some(x),
        body matches BodyV::Serve(e, rewrote) ==> sent(body, decision, query, now) == Some(
            validated_view(e, decision, rewrote, query, now),
        ),
{
}

/// The policy of a client allows a name exactly if it has a profile, and that
/// or its device has an exception for the name or for one above it.
pub proof fn policies_allow_by_exception(domain: Seq<char>, resolution: Option<Resolution>)
    ensures
        policy_allows(domain, resolution) <==> resolution is Some && resolution->0.profile is Some
            && (covered(resolution->0.profile->0.allow_domains@, domain) || (
        resolution->0.overlay is Some && covered(resolution->0.overlay->0.allow@, domain))),
{
}

// ── Settings ──────────────────────────────────────────────────────────

/// A new handler has what it was given: it answers network names for 30 seconds
/// and with no data for other types, counts nothing, audits nothing and has warned
/// of nothing. Each setting changes itself and nothing else.
pub proof fn settings_change_themselves_alone(
    cache: crate::cache::CacheV,
    security: Option<crate::security::SecurityLayer>,
    local: Option<crate::local::LocalTables>,
    acl: Option<Seq<crate::cidr::Cidr>>,
    ttl: u32,
    h: HandlerV,
    secs: u32,
    enabled: bool,
)
    ensures
        ({
            let n = new_handler(cache, security, local, acl, ttl);
            &&& n.cache == cache && n.security == security && n.local == local && n.allow_from
                == acl && n.blocked_ttl == ttl
            &&& n.dynamic_ttl == 30 && n.nodata && !n.counts_hits && !n.audits && !n.warned
        }),
        ({
            let c = counting_hits(h);
            let a = auditing(h);
            let d = with_dynamic_ttl(h, secs);
            let n = with_nodata(h, enabled);
            let x = with_access(h, acl);
            &&& c.counts_hits && a.audits && d.dynamic_ttl == secs && n.nodata == enabled
                && x.allow_from == acl
            &&& c.audits == h.audits && c.nodata == h.nodata && c.dynamic_ttl == h.dynamic_ttl
                && c.allow_from == h.allow_from && c.cache == h.cache && c.security == h.security
                && c.local == h.local
            &&& a.counts_hits == h.counts_hits && a.nodata == h.nodata && a.dynamic_ttl
                == h.dynamic_ttl && a.allow_from == h.allow_from && a.cache == h.cache
                && a.security == h.security && a.local == h.local
            &&& d.counts_hits == h.counts_hits && d.audits == h.audits && d.nodata == h.nodata
                && d.allow_from == h.allow_from && d.cache == h.cache && d.security == h.security
                && d.local == h.local && d.blocked_ttl == h.blocked_ttl
            &&& n.counts_hits == h.counts_hits && n.audits == h.audits && n.dynamic_ttl
                == h.dynamic_ttl && n.allow_from == h.allow_from && n.cache == h.cache
                && n.security == h.security && n.local == h.local
            &&& x.counts_hits == h.counts_hits && x.audits == h.audits && x.dynamic_ttl
                == h.dynamic_ttl && x.nodata == h.nodata && x.cache == h.cache && x.security
                == h.security && x.local == h.local && x.warned == h.warned
        }),
{
}

/// The device of a client is the one that the resolver names, and nobody without
/// a resolver or a name.
pub proof fn devices_are_named_by_the_resolver(r: Resolution)
    ensures
        device_of(None) is None,
        r.device_name matches Some(name) ==> device_of(Some(r)) == Some(name@),
        r.device_name is None ==> device_of(Some(r)) is None,
{
}

/// A clean refresh takes the place of what the slot held, as a success of the
/// moment; anything else leaves the handler as it was. Other slots are not touched
/// either way.
pub proof fn refreshes_replace_the_slot(
    h: HandlerV,
    p: PassedV,
    answer: crate::cache::Fetched,
    blocked_target: bool,
    blocked_address: bool,
    now: u128,
    key: crate::cache::KeyV,
)
    ensures
        ({
            let after = refreshed(h, p, answer, blocked_target, blocked_address, now);
            let clean = answer.response_code is NoError && answer.records@.len() > 0
                && !blocked_target && !blocked_address;
            &&& !clean ==> after == h
            &&& clean ==> after.cache.entries.contains_key(slot(p)) && after.cache.entries[slot(
                p,
            )].records == crate::record::record_views(answer.records@) && after.cache.entries[slot(
                p,
            )].code is NoError && after.cache.entries[slot(p)].created_at == now
            &&& key != slot(p) ==> (after.cache.entries.contains_key(key)
                <==> h.cache.entries.contains_key(key)) && (h.cache.entries.contains_key(key)
                ==> after.cache.entries[key] == h.cache.entries[key])
        }),
{
}

/// A resolution is seen as what it is, and a handler with another cache is the
/// same handler in everything else.
pub proof fn resolutions_and_caches_are_taken_as_they_are(
    r: Resolution,
    h: HandlerV,
    cache: crate::cache::CacheV,
)
    ensures
        crate::handler::resolution_view(Some(&r)) == Some(r),
        crate::handler::resolution_view(None) is None,
        ({
            let w = crate::handler::with_cache(h, cache);
            w.cache == cache && w.security == h.security && w.local == h.local && w.allow_from
                == h.allow_from && w.blocked_ttl == h.blocked_ttl && w.dynamic_ttl == h.dynamic_ttl
                && w.nodata == h.nodata && w.counts_hits == h.counts_hits && w.audits == h.audits
                && w.warned == h.warned
        }),
{
}

/// A query counts against the tunneling budget exactly if it is new to the cache,
/// about to go upstream, no reverse lookup, and the detector is armed.
pub proof fn new_names_count_against_the_budget(h: HandlerV, p: PassedV, missed: bool)
    ensures
        rate_counted(h, p, missed) <==> missed && !(p.query.record_type is ANY) && !(
        p.query.record_type is PTR && crate::security::reverse_zone(p.domain)) && (
        h.security matches Some(l) && l.tunneling is Some),
{
}

} // verus!
