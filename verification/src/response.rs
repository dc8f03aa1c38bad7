//! Responses as plain values: what each kind of answer carries.
use vstd::prelude::*;
use crate::cache::{negative, served_ttl, with_ttl, CacheEntry, EntryV, SECOND};
use crate::dnssec_validator::DnssecDecision;
use crate::domain::{valid_label, valid_name};
use crate::net::{Ipv4Addr, Ipv6Addr};
use crate::record::{
    copy_records, dotted_labels, internet_record, names_match, parse_ascii_name, push_record,
    record_views, same_name, DNSClass, Name, NameV, RData, RDataV, Record, RecordType, RecordV, ResponseCode, Soa,
};
use crate::settings::BlockResponse;
use crate::text::{self, split};

verus! {

/// A response: its code, its flags, and its answer and authority sections.
/// The identifier, the question and the flags of the request are echoed by
/// the transport.
#[derive(Clone, Debug, PartialEq, Eq)]
pub struct Response {
    pub code: ResponseCode,
    pub authoritative: bool,
    pub recursion_available: bool,
    pub truncated: bool,
    pub authentic_data: bool,
    pub answers: Vec<Record>,
    pub authority: Vec<Record>,
}

/// A response as mathematical values.
pub struct ResponseV {
    pub code: ResponseCode,
    pub authoritative: bool,
    pub recursion_available: bool,
    pub truncated: bool,
    pub authentic_data: bool,
    pub answers: Seq<RecordV>,
    pub authority: Seq<RecordV>,
}

impl View for Response {
    type V = ResponseV;

    open spec fn view(&self) -> ResponseV {
        ResponseV {
            code: self.code,
            authoritative: self.authoritative,
            recursion_available: self.recursion_available,
            truncated: self.truncated,
            authentic_data: self.authentic_data,
            answers: record_views(self.answers@),
            authority: record_views(self.authority@),
        }
    }
}

/// A bare response: a code and no records. It claims no recursion.
pub open spec fn bare(code: ResponseCode) -> ResponseV {
    ResponseV {
        code,
        authoritative: false,
        recursion_available: false,
        truncated: false,
        authentic_data: false,
        answers: Seq::empty(),
        authority: Seq::empty(),
    }
}

/// A resolver's response with the given sections.
pub open spec fn with_records(
    code: ResponseCode,
    authentic: bool,
    answers: Seq<RecordV>,
    authority: Seq<RecordV>,
) -> ResponseV {
    ResponseV {
        code,
        authoritative: false,
        recursion_available: true,
        truncated: false,
        authentic_data: authentic,
        answers,
        authority,
    }
}

fn bare_response(code: ResponseCode) -> (r: Response)
    ensures
        r@ == bare(code),
{
    let r = Response {
        code,
        authoritative: false,
        recursion_available: false,
        truncated: false,
        authentic_data: false,
        answers: Vec::new(),
        authority: Vec::new(),
    };
    proof {
        assert(r@.answers =~= Seq::<RecordV>::empty());
        assert(r@.authority =~= Seq::<RecordV>::empty());
    }
    r
}

fn full_response(
    code: ResponseCode,
    authentic: bool,
    answers: Vec<Record>,
    authority: Vec<Record>,
) -> (r: Response)
    ensures
        r@ == with_records(code, authentic, record_views(answers@), record_views(authority@)),
{
    Response {
        code,
        authoritative: false,
        recursion_available: true,
        truncated: false,
        authentic_data: authentic,
        answers,
        authority,
    }
}

fn no_records() -> (r: Vec<Record>)
    ensures
        record_views(r@) == Seq::<RecordV>::empty(),
{
    let r: Vec<Record> = Vec::new();
    proof {
        assert(record_views(r@) =~= Seq::<RecordV>::empty());
    }
    r
}

fn one_record(rec: Record) -> (r: Vec<Record>)
    ensures
        record_views(r@) == seq![rec@],
{
    let mut r = no_records();
    push_record(&mut r, rec);
    proof {
        assert(record_views(r@) =~= seq![rec@]);
    }
    r
}

// ── The authority record of synthesized negatives ─────────────────────

/// The zone that synthesized negative answers are attributed to.
pub open spec fn soa_zone() -> NameV {
    (dotted_labels("block.purge-warden.local"@), true)
}

/// The primary server of that zone.
pub open spec fn soa_mname() -> NameV {
    (dotted_labels("ns.purge-warden.local"@), true)
}

/// The mailbox of that zone.
pub open spec fn soa_rname() -> NameV {
    (dotted_labels("admin.purge-warden.local"@), true)
}

/// The authority record of a synthesized negative answer.
pub open spec fn soa_record(ttl: u32) -> RecordV {
    internet_record(
        soa_zone(),
        ttl,
        RDataV::SOA(soa_mname(), soa_rname(), 1, 3600, 600, 86400, ttl),
    )
}

proof fn lemma_three_labels(a: Seq<char>, b: Seq<char>, c: Seq<char>)
    requires
        valid_label(a),
        valid_label(b),
        valid_label(c),
        a.len() + b.len() + c.len() <= 200,
    ensures
        valid_name(a.push('.') + (b.push('.') + c)),
{
    text::lemma_split_single(a, '.');
    text::lemma_split_single(b, '.');
    text::lemma_split_single(c, '.');
    text::lemma_split_append(b, c, '.');
    text::lemma_split_append(a, b.push('.') + c, '.');
    let d = a.push('.') + (b.push('.') + c);
    assert(split(d, '.') =~= seq![a, b, c]);
}

proof fn lemma_soa_names()
    ensures
        valid_name("block.purge-warden.local"@),
        valid_name("ns.purge-warden.local"@),
        valid_name("admin.purge-warden.local"@),
        "block.purge-warden.local."@ == "block.purge-warden.local"@.push('.'),
        "ns.purge-warden.local."@ == "ns.purge-warden.local"@.push('.'),
        "admin.purge-warden.local."@ == "admin.purge-warden.local"@.push('.'),
{
    reveal_strlit("block.purge-warden.local");
    reveal_strlit("ns.purge-warden.local");
    reveal_strlit("admin.purge-warden.local");
    reveal_strlit("block.purge-warden.local.");
    reveal_strlit("ns.purge-warden.local.");
    reveal_strlit("admin.purge-warden.local.");
    let warden = seq!['p', 'u', 'r', 'g', 'e', '-', 'w', 'a', 'r', 'd', 'e', 'n'];
    let local = seq!['l', 'o', 'c', 'a', 'l'];
    let block = seq!['b', 'l', 'o', 'c', 'k'];
    let ns = seq!['n', 's'];
    let admin = seq!['a', 'd', 'm', 'i', 'n'];
    lemma_three_labels(block, warden, local);
    lemma_three_labels(ns, warden, local);
    lemma_three_labels(admin, warden, local);
    assert("block.purge-warden.local"@ =~= block.push('.') + (warden.push('.') + local));
    assert("ns.purge-warden.local"@ =~= ns.push('.') + (warden.push('.') + local));
    assert("admin.purge-warden.local"@ =~= admin.push('.') + (warden.push('.') + local));
    assert("block.purge-warden.local."@ =~= "block.purge-warden.local"@.push('.'));
    assert("ns.purge-warden.local."@ =~= "ns.purge-warden.local"@.push('.'));
    assert("admin.purge-warden.local."@ =~= "admin.purge-warden.local"@.push('.'));
}

fn known_name(spelled: &str, Ghost(d): Ghost<Seq<char>>) -> (r: Name)
    requires
        valid_name(d),
        spelled@ == d.push('.'),
    ensures
        r@ == (dotted_labels(d), true),
{
    match parse_ascii_name(spelled) {
        Some(name) => name,
        None => Name { labels: Vec::new(), fqdn: true },
    }
}

/// The zone that synthesized negative answers are attributed to.
pub fn blocked_soa_zone() -> (r: Name)
    ensures
        r@ == soa_zone(),
{
    proof {
        lemma_soa_names();
    }
    known_name("block.purge-warden.local.", Ghost("block.purge-warden.local"@))
}

/// The primary server of that zone.
pub fn blocked_soa_mname() -> (r: Name)
    ensures
        r@ == soa_mname(),
{
    proof {
        lemma_soa_names();
    }
    known_name("ns.purge-warden.local.", Ghost("ns.purge-warden.local"@))
}

/// The mailbox of that zone.
pub fn blocked_soa_rname() -> (r: Name)
    ensures
        r@ == soa_rname(),
{
    proof {
        lemma_soa_names();
    }
    known_name("admin.purge-warden.local.", Ghost("admin.purge-warden.local"@))
}

/// The authority record of a synthesized negative answer. Its TTL is also
/// the time that the answer may be kept.
pub fn blocked_soa(ttl: u32) -> (r: Record)
    ensures
        r@ == soa_record(ttl),
{
    Record::from_rdata(
        blocked_soa_zone(),
        ttl,
        RData::SOA(
            Soa {
                mname: blocked_soa_mname(),
                rname: blocked_soa_rname(),
                serial: 1,
                refresh: 3600,
                retry: 600,
                expire: 86400,
                minimum: ttl,
            },
        ),
    )
}

// ── Kinds of responses ────────────────────────────────────────────────

/// A server failure.
pub fn servfail() -> (r: Response)
    ensures
        r@ == bare(ResponseCode::ServFail),
{
    bare_response(ResponseCode::ServFail)
}

/// A refusal.
pub fn refused() -> (r: Response)
    ensures
        r@ == bare(ResponseCode::Refused),
{
    bare_response(ResponseCode::Refused)
}

/// A name error.
pub fn nxdomain() -> (r: Response)
    ensures
        r@ == bare(ResponseCode::NXDomain),
{
    bare_response(ResponseCode::NXDomain)
}

/// A truncated response: it invites a retry over TCP.
pub open spec fn truncated_view() -> ResponseV {
    ResponseV {
        code: ResponseCode::NoError,
        authoritative: false,
        recursion_available: true,
        truncated: true,
        authentic_data: false,
        answers: Seq::empty(),
        authority: Seq::empty(),
    }
}

/// A truncated response.
pub fn truncated() -> (r: Response)
    ensures
        r@ == truncated_view(),
{
    let mut r = bare_response(ResponseCode::NoError);
    r.truncated = true;
    r.recursion_available = true;
    r
}

/// No data for the queried type: success without answers, with an authority
/// record.
pub open spec fn nodata_view(ttl: u32) -> ResponseV {
    with_records(ResponseCode::NoError, false, Seq::empty(), seq![soa_record(ttl)])
}

/// No data for the queried type.
pub fn soa_nodata(ttl: u32) -> (r: Response)
    ensures
        r@ == nodata_view(ttl),
{
    full_response(ResponseCode::NoError, false, no_records(), one_record(blocked_soa(ttl)))
}

/// A successful response with the given answers.
pub fn local(records: &Vec<Record>) -> (r: Response)
    ensures
        r@ == with_records(
            ResponseCode::NoError,
            false,
            record_views(records@),
            Seq::empty(),
        ),
{
    full_response(ResponseCode::NoError, false, copy_records(records), no_records())
}

/// The octets of `RFC8482`.
pub open spec fn rfc8482_tag() -> Seq<u8> {
    seq![82u8, 70, 67, 56, 52, 56, 50]
}

/// The answer to a query for any type (RFC 8482): one HINFO record.
pub open spec fn any_view(qname: NameV, ttl: u32) -> ResponseV {
    with_records(
        ResponseCode::NoError,
        false,
        seq![internet_record(qname, ttl, RDataV::HINFO(rfc8482_tag(), Seq::empty()))],
        Seq::empty(),
    )
}

/// The answer to a query for any type.
pub fn rfc8482(qname: &Name, ttl: u32) -> (r: Response)
    ensures
        r@ == any_view(qname@, ttl),
{
    let cpu: Vec<u8> = vec![82, 70, 67, 56, 52, 56, 50];
    let os: Vec<u8> = Vec::new();
    proof {
        assert(cpu@ =~= rfc8482_tag());
        assert(os@ =~= Seq::<u8>::empty());
    }
    let rec = Record::from_rdata(qname.copy(), ttl, RData::HINFO(cpu, os));
    full_response(ResponseCode::NoError, false, one_record(rec), no_records())
}

/// A code that an upstream answered, passed on without records.
pub open spec fn forwarded_view(code: ResponseCode) -> ResponseV {
    with_records(code, false, Seq::empty(), Seq::empty())
}

/// A code that an upstream answered, passed on.
pub fn forwarded(code: ResponseCode) -> (r: Response)
    ensures
        r@ == forwarded_view(code),
{
    full_response(code, false, no_records(), no_records())
}

// ── Blocked names ─────────────────────────────────────────────────────

/// The unspecified address for address queries, and no data for the others.
pub open spec fn sinkhole_view(qname: NameV, record_type: RecordType, ttl: u32) -> ResponseV {
    if record_type == RecordType::A {
        with_records(
            ResponseCode::NoError,
            false,
            seq![internet_record(qname, ttl, RDataV::A(seq![0u8, 0, 0, 0]))],
            Seq::empty(),
        )
    } else if record_type == RecordType::AAAA {
        with_records(
            ResponseCode::NoError,
            false,
            seq![
                internet_record(qname, ttl, RDataV::AAAA(seq![0u16, 0, 0, 0, 0, 0, 0, 0])),
            ],
            Seq::empty(),
        )
    } else {
        nodata_view(ttl)
    }
}

/// The response for a blocked name, by the configured kind.
pub open spec fn block_view(
    qname: NameV,
    record_type: RecordType,
    ttl: u32,
    kind: BlockResponse,
) -> ResponseV {
    match kind {
        BlockResponse::Zero => sinkhole_view(qname, record_type, ttl),
        BlockResponse::Nxdomain => bare(ResponseCode::NXDomain),
        BlockResponse::Refused => bare(ResponseCode::Refused),
        BlockResponse::SoaNodata => nodata_view(ttl),
    }
}

/// The sinkhole response for a blocked name.
pub fn blocked(qname: &Name, record_type: RecordType, ttl: u32) -> (r: Response)
    ensures
        r@ == sinkhole_view(qname@, record_type, ttl),
{
    match record_type {
        RecordType::A => {
            let ip = Ipv4Addr { octets: [0, 0, 0, 0] };
            proof {
                assert(ip@ =~= seq![0u8, 0, 0, 0]);
            }
            let rec = Record::from_rdata(qname.copy(), ttl, RData::A(ip));
            full_response(ResponseCode::NoError, false, one_record(rec), no_records())
        },
        RecordType::AAAA => {
            let ip = Ipv6Addr { groups: [0, 0, 0, 0, 0, 0, 0, 0] };
            proof {
                assert(ip@ =~= seq![0u16, 0, 0, 0, 0, 0, 0, 0]);
            }
            let rec = Record::from_rdata(qname.copy(), ttl, RData::AAAA(ip));
            full_response(ResponseCode::NoError, false, one_record(rec), no_records())
        },
        _ => soa_nodata(ttl),
    }
}

/// The response for a blocked name.
pub fn block_response(
    qname: &Name,
    record_type: RecordType,
    ttl: u32,
    kind: BlockResponse,
) -> (r: Response)
    ensures
        r@ == block_view(qname@, record_type, ttl, kind),
{
    match kind {
        BlockResponse::Zero => blocked(qname, record_type, ttl),
        BlockResponse::Nxdomain => nxdomain(),
        BlockResponse::Refused => refused(),
        BlockResponse::SoaNodata => soa_nodata(ttl),
    }
}

// ── Cached answers ────────────────────────────────────────────────────

/// The longest TTL of the record that leads from a rewritten name to its
/// target.
pub const REWRITE_CNAME_TTL_SECS: u32 = 300;

/// The answer records of a rewritten query: a CNAME from the queried name to
/// the owner of the first record, in front. Nothing is put in front of an
/// answer that is empty or already owned by the queried name.
pub open spec fn bridged(query: Option<NameV>, ttl: u32, records: Seq<RecordV>) -> Seq<RecordV> {
    if records.len() == 0 || query is None || same_name(query->0, records[0].name) {
        records
    } else {
        seq![
            internet_record(
                query->0,
                if ttl < REWRITE_CNAME_TTL_SECS {
                    ttl
                } else {
                    REWRITE_CNAME_TTL_SECS
                },
                RDataV::CNAME(records[0].name),
            ),
        ] + records
    }
}

/// The view of an optional name.
pub open spec fn name_view(name: Option<Name>) -> Option<NameV> {
    match name {
        Some(n) => Some(n@),
        None => None,
    }
}

/// Puts the CNAME of a rewrite in front of the answer.
pub fn prepend_rewrite_cname(
    query: &Option<Name>,
    remaining_ttl_secs: u32,
    records: &mut Vec<Record>,
)
    ensures
        record_views(final(records)@) == bridged(
            name_view(*query),
            remaining_ttl_secs,
            record_views(old(records)@),
        ),
{
    let ghost before = record_views(records@);
    proof {
        assert(before.len() == records.len());
    }
    if records.len() == 0 {
        return;
    }
    let original = match query {
        Some(name) => name,
        None => {
            return;
        },
    };
    let target = records[0].name.copy();
    proof {
        assert(before[0] == records@[0]@);
    }
    if names_match(original, &target) {
        return;
    }
    let ttl: u32 = if remaining_ttl_secs < REWRITE_CNAME_TTL_SECS {
        remaining_ttl_secs
    } else {
        REWRITE_CNAME_TTL_SECS
    };
    let bridge = Record::from_rdata(original.copy(), ttl, RData::CNAME(target));
    let ghost b = bridge@;
    records.insert(0, bridge);
    proof {
        assert(record_views(records@) =~= seq![b] + before);
    }
}

/// The response for a cached entry. A negative one carries an authority
/// record; a rewritten positive one carries the CNAME of the rewrite. The AD
/// bit is never set on a rewritten answer.
pub open spec fn cached_view(
    e: EntryV,
    authentic: bool,
    rewrote: bool,
    query: Option<NameV>,
    now: u128,
) -> ResponseV {
    let ttl = served_ttl(e, now);
    let records = with_ttl(e.records, ttl);
    if negative(e) {
        with_records(e.code, authentic && !rewrote, Seq::empty(), seq![soa_record(ttl)])
    } else {
        with_records(
            ResponseCode::NoError,
            authentic && !rewrote,
            if rewrote {
                bridged(query, ttl, records)
            } else {
                records
            },
            Seq::empty(),
        )
    }
}

/// The response for a cached entry.
pub fn cached(
    entry: &CacheEntry,
    authentic: bool,
    rewrote: bool,
    query: &Option<Name>,
    now: u128,
) -> (r: Response)
    ensures
        r@ == cached_view(entry@, authentic, rewrote, name_view(*query), now),
{
    let secs: u128 = entry.remaining_ttl(now) / SECOND;
    let ttl: u32 = if secs >= 1 {
        #[verifier::truncate]
        (secs as u32)
    } else {
        1
    };
    let ad = authentic && !rewrote;
    if entry.is_negative() {
        return full_response(
            entry.response_code(),
            ad,
            no_records(),
            one_record(blocked_soa(ttl)),
        );
    }
    let mut records = entry.records_with_remaining_ttl(now);
    if rewrote {
        prepend_rewrite_cname(query, ttl, &mut records);
    }
    full_response(ResponseCode::NoError, ad, records, no_records())
}

/// The response for a cached entry under the decision of the validator, where
/// there is one. A rewritten answer is neither failed nor marked.
pub open spec fn validated_view(
    e: EntryV,
    decision: Option<DnssecDecision>,
    rewrote: bool,
    query: Option<NameV>,
    now: u128,
) -> ResponseV {
    if decision == Some(DnssecDecision::Servfail) && !rewrote {
        bare(ResponseCode::ServFail)
    } else {
        cached_view(e, decision == Some(DnssecDecision::SetAd), rewrote, query, now)
    }
}

/// The response for a cached entry under the decision of the validator.
pub fn cached_validated(
    entry: &CacheEntry,
    decision: Option<DnssecDecision>,
    rewrote: bool,
    query: &Option<Name>,
    now: u128,
) -> (r: Response)
    ensures
        r@ == validated_view(entry@, decision, rewrote, name_view(*query), now),
{
    match decision {
        Some(d) => {
            if !rewrote {
                match d {
                    DnssecDecision::Servfail => {
                        return servfail();
                    },
                    DnssecDecision::SetAd => {
                        return cached(entry, true, rewrote, query, now);
                    },
                    DnssecDecision::Serve => {},
                }
            }
        },
        None => {},
    }
    let r = cached(entry, false, rewrote, query, now);
    r
}

// ── Laws ──────────────────────────────────────────────────────────────

/// A blocked name is blocked for every type alike: the response to one type
/// is a success exactly if the response to every other type is, and none of
/// them carries a routable address.
pub proof fn blocks_are_symmetric(
    qname: NameV,
    a: RecordType,
    b: RecordType,
    ttl: u32,
    kind: BlockResponse,
)
    ensures
        block_view(qname, a, ttl, kind).code == block_view(qname, b, ttl, kind).code,
        forall|i: int|
            0 <= i < block_view(qname, a, ttl, kind).answers.len() ==> ((
            #[trigger] block_view(qname, a, ttl, kind).answers[i]).data == RDataV::A(
                seq![0u8, 0, 0, 0],
            ) || block_view(qname, a, ttl, kind).answers[i].data == RDataV::AAAA(
                seq![0u16, 0, 0, 0, 0, 0, 0, 0],
            )),
{
}

/// A sinkhole never denies that the name exists: other types get no data, not
/// a name error.
pub proof fn sinkholes_do_not_deny_the_name(qname: NameV, record_type: RecordType, ttl: u32)
    ensures
        block_view(qname, record_type, ttl, BlockResponse::Zero).code == ResponseCode::NoError,
{
}

/// A rewritten answer never claims to be authentic, and never fails for what
/// the validator says.
pub proof fn rewritten_answers_are_never_validated(
    e: EntryV,
    decision: Option<DnssecDecision>,
    query: Option<NameV>,
    now: u128,
)
    ensures
        !validated_view(e, decision, true, query, now).authentic_data,
        validated_view(e, decision, true, query, now) == validated_view(e, None, true, query, now),
{
}

/// The AD bit is the validator's own: it is set exactly where the validator
/// said so and the answer was not rewritten.
pub proof fn authentic_data_is_the_validators_word(
    e: EntryV,
    decision: Option<DnssecDecision>,
    rewrote: bool,
    query: Option<NameV>,
    now: u128,
)
    ensures
        validated_view(e, decision, rewrote, query, now).authentic_data <==> decision == Some(
            DnssecDecision::SetAd,
        ) && !rewrote,
{
}

/// The responses of a resolver never claim authority.
pub proof fn responses_are_never_authoritative(
    e: EntryV,
    decision: Option<DnssecDecision>,
    rewrote: bool,
    query: Option<NameV>,
    qname: NameV,
    record_type: RecordType,
    ttl: u32,
    kind: BlockResponse,
    code: ResponseCode,
    now: u128,
)
    ensures
        !validated_view(e, decision, rewrote, query, now).authoritative,
        !block_view(qname, record_type, ttl, kind).authoritative,
        !bare(code).authoritative,
        !forwarded_view(code).authoritative,
        !truncated_view().authoritative,
        !any_view(qname, ttl).authoritative,
{
}

/// Every synthesized negative answer says how long it may be kept: a cached
/// negative carries one authority record, whose TTL and minimum are the time
/// that the entry has left, and at least a second.
pub proof fn negatives_carry_their_ttl(
    e: EntryV,
    authentic: bool,
    rewrote: bool,
    query: Option<NameV>,
    now: u128,
)
    requires
        negative(e),
    ensures
        ({
            let r = cached_view(e, authentic, rewrote, query, now);
            &&& r.code == e.code
            &&& r.answers.len() == 0
            &&& r.authority == seq![soa_record(served_ttl(e, now))]
        }),
{
}

/// The bridge of a rewrite never outlives what it leads to, and drains within
/// its ceiling.
pub proof fn bridges_do_not_outlive_their_target(
    query: NameV,
    ttl: u32,
    records: Seq<RecordV>,
)
    requires
        records.len() > 0,
        !same_name(query, records[0].name),
    ensures
        ({
            let out = bridged(Some(query), ttl, records);
            &&& out.len() == records.len() + 1
            &&& out[0].name == query
            &&& out[0].data == RDataV::CNAME(out[1].name)
            &&& out[0].ttl <= ttl
            &&& out[0].ttl <= REWRITE_CNAME_TTL_SECS
            &&& out.skip(1) == records
        }),
{
    let out = bridged(Some(query), ttl, records);
    assert(out.skip(1) =~= records);
}

/// What a client receives for a blocked name, by the configured kind. The zero
/// kind gives exactly one unspecified address of the queried family under the
/// queried name, and no data for a type without addresses; the other kinds give
/// the same to every type.
pub proof fn blocks_answer_by_their_kind(
    qname: NameV,
    record_type: RecordType,
    ttl: u32,
    kind: BlockResponse,
)
    ensures
        ({
            let r = block_view(qname, record_type, ttl, kind);
            let addresses = record_type == RecordType::A || record_type == RecordType::AAAA;
            &&& !r.truncated && !r.authentic_data
            &&& kind == BlockResponse::Nxdomain ==> r.code == ResponseCode::NXDomain
                && r.answers.len() == 0 && r.authority.len() == 0
            &&& kind == BlockResponse::Refused ==> r.code == ResponseCode::Refused
                && r.answers.len() == 0 && r.authority.len() == 0
            &&& kind == BlockResponse::SoaNodata || (kind == BlockResponse::Zero && !addresses)
                ==> r.code == ResponseCode::NoError && r.answers.len() == 0 && r.authority.len()
                == 1 && r.authority[0].ttl == ttl && r.authority[0].data is SOA
            &&& kind == BlockResponse::Zero && addresses ==> r.code == ResponseCode::NoError
                && r.authority.len() == 0 && r.answers.len() == 1 && r.answers[0].name == qname
                && r.answers[0].ttl == ttl && r.answers[0].dns_class == DNSClass::IN
            &&& kind == BlockResponse::Zero && record_type == RecordType::A ==> (
            r.answers[0].data matches RDataV::A(ip) && ip.len() == 4 && forall|i: int|
                0 <= i < 4 ==> #[trigger] ip[i] == 0)
            &&& kind == BlockResponse::Zero && record_type == RecordType::AAAA ==> (
            r.answers[0].data matches RDataV::AAAA(ip) && ip.len() == 8 && forall|i: int|
                0 <= i < 8 ==> #[trigger] ip[i] == 0)
        }),
{
}

/// The authority record of a synthesized negative belongs to the zone of the
/// resolver, names its server and its mailbox, and says by its TTL and its
/// minimum how long the answer may be kept.
pub proof fn synthesized_negatives_name_their_zone(ttl: u32)
    ensures
        nodata_view(ttl).code == ResponseCode::NoError,
        nodata_view(ttl).answers.len() == 0,
        nodata_view(ttl).authority.len() == 1,
        ({
            let soa = nodata_view(ttl).authority[0];
            &&& soa.name.0 == dotted_labels("block.purge-warden.local"@)
            &&& soa.ttl == ttl
            &&& soa.dns_class == DNSClass::IN
            &&& soa.data matches RDataV::SOA(
                mname,
                rname,
                serial,
                refresh,
                retry,
                expire,
                minimum,
            ) && mname.0 == dotted_labels("ns.purge-warden.local"@) && rname.0 == dotted_labels(
                "admin.purge-warden.local"@,
            ) && serial == 1 && refresh == 3600 && retry == 600 && expire == 86400 && minimum
                == ttl
        }),
{
}

/// A cached answer that is not negative is served whole: every record that is
/// kept, in order, with its owner, its class and its data, and none besides,
/// unless a rewrite puts its bridge in front. All of them carry the same TTL, the
/// time that the entry has left.
pub proof fn positives_are_served_whole(
    e: EntryV,
    authentic: bool,
    rewrote: bool,
    query: Option<NameV>,
    now: u128,
)
    requires
        !negative(e),
    ensures
        ({
            let r = cached_view(e, authentic, rewrote, query, now);
            let extra = r.answers.len() - e.records.len();
            &&& r.code == ResponseCode::NoError
            &&& r.authority.len() == 0
            &&& !r.truncated
            &&& extra == 0 || extra == 1
            &&& extra == 1 <==> rewrote && e.records.len() > 0 && query is Some && !same_name(
                query->0,
                e.records[0].name,
            )
            &&& forall|i: int|
                0 <= i < e.records.len() ==> (#[trigger] r.answers[i + extra]).name
                    == e.records[i].name && r.answers[i + extra].data == e.records[i].data
                    && r.answers[i + extra].dns_class == e.records[i].dns_class
                    && r.answers[i + extra].ttl == served_ttl(e, now)
            &&& extra == 1 ==> r.answers[0].name == query->0 && r.answers[0].data
                == RDataV::CNAME(e.records[0].name) && r.answers[0].ttl <= served_ttl(e, now)
                && r.answers[0].ttl <= 300 && (r.answers[0].ttl == served_ttl(e, now)
                || r.answers[0].ttl == 300)
        }),
{
}

/// A negative answer keeps its code and carries no records but its authority.
pub proof fn negatives_keep_their_code(
    e: EntryV,
    authentic: bool,
    rewrote: bool,
    query: Option<NameV>,
    now: u128,
)
    requires
        negative(e),
    ensures
        ({
            let r = cached_view(e, authentic, rewrote, query, now);
            &&& r.code == e.code
            &&& r.answers.len() == 0
            &&& r.authority.len() == 1
            &&& r.authority[0].ttl == served_ttl(e, now)
            &&& r.authority[0].data matches RDataV::SOA(_, _, _, _, _, _, minimum) && minimum
                == served_ttl(e, now)
            &&& !r.truncated
        }),
{
}

/// Nothing is put in front of an empty answer, of an answer without a question,
/// or of an answer that the queried name owns already, in whatever case.
pub proof fn bridges_stand_where_they_lead_somewhere(
    query: Option<NameV>,
    ttl: u32,
    records: Seq<RecordV>,
)
    ensures
        records.len() == 0 || query is None || same_name(query->0, records[0].name)
            <==> bridged(query, ttl, records) == records,
        bridged(query, ttl, records) != records ==> bridged(query, ttl, records)[0].ttl == if ttl
            < 300 {
            ttl
        } else {
            300
        },
{
    if !(records.len() == 0 || query is None || same_name(query->0, records[0].name)) {
        assert(bridged(query, ttl, records).len() == records.len() + 1);
    }
}

/// What the validator says changes the AD bit or fails the answer, and changes
/// nothing else: every record is served as it would be without it.
pub proof fn verdicts_mark_or_fail(
    e: EntryV,
    decision: Option<DnssecDecision>,
    rewrote: bool,
    query: Option<NameV>,
    now: u128,
)
    ensures
        ({
            let plain = validated_view(e, None, rewrote, query, now);
            let r = validated_view(e, decision, rewrote, query, now);
            let fails = decision == Some(DnssecDecision::Servfail) && !rewrote;
            &&& fails ==> r.code == ResponseCode::ServFail && r.answers.len() == 0
                && r.authority.len() == 0
            &&& !fails ==> r.code == plain.code && r.answers == plain.answers && r.authority
                == plain.authority && r.truncated == plain.truncated
            &&& !plain.authentic_data
            &&& plain.answers == cached_view(e, false, rewrote, query, now).answers
        }),
{
}

/// A query for any type gets one host record under its name, which spells the
/// reason.
pub proof fn any_answers_spell_their_reason(qname: NameV, ttl: u32)
    ensures
        ({
            let r = any_view(qname, ttl);
            &&& r.code == ResponseCode::NoError
            &&& r.authority.len() == 0
            &&& r.answers.len() == 1
            &&& r.answers[0].name == qname
            &&& r.answers[0].ttl == ttl
            &&& r.answers[0].dns_class == DNSClass::IN
            &&& r.answers[0].data matches RDataV::HINFO(cpu, os) && os.len() == 0 && cpu.len()
                == "RFC8482"@.len() && forall|i: int|
                0 <= i < cpu.len() ==> #[trigger] cpu[i] as int == "RFC8482"@[i] as int
        }),
{
    reveal_strlit("RFC8482");
}

/// Answers and cut-short responses offer recursion; bare codes do not. Only a
/// cut-short response is marked as one.
pub proof fn flags_go_by_the_kind_of_response(
    e: EntryV,
    code: ResponseCode,
    qname: NameV,
    ttl: u32,
    authentic: bool,
    rewrote: bool,
    now: u128,
)
    ensures
        !bare(code).recursion_available && !bare(code).truncated && bare(code).code == code,
        bare(code).answers.len() == 0 && bare(code).authority.len() == 0,
        forwarded_view(code).recursion_available && forwarded_view(code).code == code,
        forwarded_view(code).answers.len() == 0 && forwarded_view(code).authority.len() == 0,
        truncated_view().recursion_available && truncated_view().truncated,
        truncated_view().code == ResponseCode::NoError && truncated_view().answers.len() == 0,
        any_view(qname, ttl).recursion_available && !any_view(qname, ttl).truncated,
        nodata_view(ttl).recursion_available && !nodata_view(ttl).truncated,
        cached_view(e, authentic, rewrote, Some(qname), now).recursion_available,
        !cached_view(e, authentic, rewrote, Some(qname), now).truncated,
{
}

/// How a kept answer is served, by what was answered: a name error as a name
/// error and an empty success as a success, both with one authority record and no
/// answers; a success with records as those records, without an authority.
pub proof fn kept_answers_are_served_by_what_they_were(
    e: EntryV,
    authentic: bool,
    rewrote: bool,
    query: Option<NameV>,
    now: u128,
)
    ensures
        ({
            let r = cached_view(e, authentic, rewrote, query, now);
            &&& e.code is NXDomain ==> r.code is NXDomain && r.answers.len() == 0
                && r.authority.len() == 1
            &&& e.code is NoError && e.records.len() == 0 ==> r.code is NoError && r.answers.len()
                == 0 && r.authority.len() == 1
            &&& e.code is NoError && e.records.len() > 0 ==> r.code is NoError && r.answers.len()
                >= e.records.len() && r.authority.len() == 0
        }),
{
}

/// An optional name is seen as what it is.
pub proof fn optional_names_are_kept(name: Name)
    ensures
        name_view(Some(name)) == Some(name@),
        name_view(None) is None,
{
}

} // verus!
