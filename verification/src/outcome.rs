//! What is recorded of a query, and what is answered.
use std::sync::Arc;
use vstd::prelude::*;
use crate::cache::{CacheEntry, EntryV};
use crate::filter::BlockSource;
use crate::record::RecordType;
use crate::response::{Response, ResponseV};

verus! {

/// The view of an optional text.
pub open spec fn text_view(text: Option<String>) -> Option<Seq<char>> {
    match text {
        Some(s) => Some(s@),
        None => None,
    }
}

/// A copy of an optional text.
pub fn copy_text(text: &Option<String>) -> (r: Option<String>)
    ensures
        text_view(r) == text_view(*text),
{
    match text {
        Some(s) => Some(s.as_str().to_owned()),
        None => None,
    }
}

/// The name of a record type in the query log. Uncommon types share a name.
pub open spec fn type_label(t: RecordType) -> Seq<char> {
    match t {
        RecordType::A => "A"@,
        RecordType::AAAA => "AAAA"@,
        RecordType::CNAME => "CNAME"@,
        RecordType::MX => "MX"@,
        RecordType::TXT => "TXT"@,
        RecordType::NS => "NS"@,
        RecordType::SRV => "SRV"@,
        RecordType::PTR => "PTR"@,
        RecordType::SOA => "SOA"@,
        RecordType::HTTPS => "HTTPS"@,
        RecordType::SVCB => "SVCB"@,
        RecordType::TLSA => "TLSA"@,
        _ => "OTHER"@,
    }
}

/// The name of a record type in the query log.
pub fn record_type_str(rt: RecordType) -> (r: &'static str)
    ensures
        r@ == type_label(rt),
{
    match rt {
        RecordType::A => "A",
        RecordType::AAAA => "AAAA",
        RecordType::CNAME => "CNAME",
        RecordType::MX => "MX",
        RecordType::TXT => "TXT",
        RecordType::NS => "NS",
        RecordType::SRV => "SRV",
        RecordType::PTR => "PTR",
        RecordType::SOA => "SOA",
        RecordType::HTTPS => "HTTPS",
        RecordType::SVCB => "SVCB",
        RecordType::TLSA => "TLSA",
        _ => "OTHER",
    }
}

/// What became of a query.
#[derive(Clone, Copy, Debug, PartialEq, Eq, Structural)]
pub enum Outcome {
    Refused,
    RrlDrop,
    RrlSlip,
    Local,
    Blocked,
    Cached,
    Hinfo,
    Allowed,
    Stale,
}

/// Whether service was denied.
pub open spec fn denied(outcome: Outcome) -> bool {
    outcome == Outcome::Refused || outcome == Outcome::RrlDrop || outcome == Outcome::Blocked
}

/// Whether the answer came out of the cache.
pub open spec fn from_cache(outcome: Outcome) -> bool {
    outcome == Outcome::Cached || outcome == Outcome::Stale
}

/// The name of an outcome in the query log.
pub open spec fn outcome_label(outcome: Outcome) -> Seq<char> {
    match outcome {
        Outcome::Refused => "REFUSED"@,
        Outcome::RrlDrop => "RRL_DROP"@,
        Outcome::RrlSlip => "RRL_SLIP"@,
        Outcome::Local => "LOCAL"@,
        Outcome::Blocked => "BLOCKED"@,
        Outcome::Cached => "CACHED"@,
        Outcome::Hinfo => "HINFO"@,
        Outcome::Allowed => "ALLOWED"@,
        Outcome::Stale => "STALE"@,
    }
}

impl Outcome {
    /// The name of the outcome in the query log.
    pub fn label(&self) -> (r: &'static str)
        ensures
            r@ == outcome_label(*self),
    {
        match self {
            Outcome::Refused => "REFUSED",
            Outcome::RrlDrop => "RRL_DROP",
            Outcome::RrlSlip => "RRL_SLIP",
            Outcome::Local => "LOCAL",
            Outcome::Blocked => "BLOCKED",
            Outcome::Cached => "CACHED",
            Outcome::Hinfo => "HINFO",
            Outcome::Allowed => "ALLOWED",
            Outcome::Stale => "STALE",
        }
    }
}

/// One row of the query log, and what the counters are fed from.
#[derive(Clone, Debug)]
pub struct QueryDecision {
    pub domain: String,
    pub client_name: Option<String>,
    pub client_profile: Option<String>,
    pub record_type: RecordType,
    pub outcome: Outcome,
    pub blocked: bool,
    pub cached: bool,
    /// The answer is a cached negative one.
    pub cache_negative_hit: bool,
    /// The CNAME target that a block is due to.
    pub cname_chain_via: Option<String>,
    /// The blocklist that a block is due to, by its bit.
    pub block_list_bit: Option<u8>,
    /// The name before a rewrite.
    pub rewrote_from: Option<String>,
}

/// A row of the query log as mathematical values.
pub struct DecisionV {
    pub domain: Seq<char>,
    pub client_name: Option<Seq<char>>,
    pub client_profile: Option<Seq<char>>,
    pub record_type: RecordType,
    pub outcome: Outcome,
    pub blocked: bool,
    pub cached: bool,
    pub cache_negative_hit: bool,
    pub cname_chain_via: Option<Seq<char>>,
    pub block_list_bit: Option<u8>,
    pub rewrote_from: Option<Seq<char>>,
}

impl View for QueryDecision {
    type V = DecisionV;

    open spec fn view(&self) -> DecisionV {
        DecisionV {
            domain: self.domain@,
            client_name: text_view(self.client_name),
            client_profile: text_view(self.client_profile),
            record_type: self.record_type,
            outcome: self.outcome,
            blocked: self.blocked,
            cached: self.cached,
            cache_negative_hit: self.cache_negative_hit,
            cname_chain_via: text_view(self.cname_chain_via),
            block_list_bit: self.block_list_bit,
            rewrote_from: text_view(self.rewrote_from),
        }
    }
}

/// The row of an outcome. The outcome alone says whether service was denied
/// and whether the answer came out of the cache.
pub open spec fn outcome_row(
    domain: Seq<char>,
    client_name: Option<Seq<char>>,
    client_profile: Option<Seq<char>>,
    record_type: RecordType,
    rewrote_from: Option<Seq<char>>,
    outcome: Outcome,
) -> DecisionV {
    DecisionV {
        domain,
        client_name,
        client_profile,
        record_type,
        outcome,
        blocked: denied(outcome),
        cached: from_cache(outcome),
        cache_negative_hit: false,
        cname_chain_via: None,
        block_list_bit: None,
        rewrote_from,
    }
}

/// The row of an outcome.
pub fn outcome_of(
    domain: &str,
    client_name: &Option<String>,
    client_profile: &Option<String>,
    record_type: RecordType,
    rewrote_from: &Option<String>,
    outcome: Outcome,
) -> (r: QueryDecision)
    ensures
        r@ == outcome_row(
            domain@,
            text_view(*client_name),
            text_view(*client_profile),
            record_type,
            text_view(*rewrote_from),
            outcome,
        ),
{
    QueryDecision {
        domain: domain.to_owned(),
        client_name: copy_text(client_name),
        client_profile: copy_text(client_profile),
        record_type,
        outcome,
        blocked: outcome == Outcome::Refused || outcome == Outcome::RrlDrop || outcome
            == Outcome::Blocked,
        cached: outcome == Outcome::Cached || outcome == Outcome::Stale,
        cache_negative_hit: false,
        cname_chain_via: None,
        block_list_bit: None,
        rewrote_from: copy_text(rewrote_from),
    }
}

/// Which counters a row moves besides the query counter.
#[derive(Clone, Copy, Debug, PartialEq, Eq, Structural)]
pub struct Tally {
    pub security_refusal: bool,
    pub cache_negative_hit: bool,
    pub cache_hit: bool,
}

/// The counters of a row. Refusals and drops count as security refusals; a
/// cached answer counts once, as a negative hit or as a hit.
pub open spec fn tallied(d: DecisionV) -> Tally {
    Tally {
        security_refusal: d.outcome == Outcome::Refused || d.outcome == Outcome::RrlDrop,
        cache_negative_hit: d.cache_negative_hit,
        cache_hit: d.cached && !d.cache_negative_hit,
    }
}

/// The counters that a row moves.
pub fn record_outcome(decision: &QueryDecision) -> (r: Tally)
    ensures
        r == tallied(decision@),
{
    Tally {
        security_refusal: decision.outcome == Outcome::Refused || decision.outcome
            == Outcome::RrlDrop,
        cache_negative_hit: decision.cache_negative_hit,
        cache_hit: decision.cached && !decision.cache_negative_hit,
    }
}

// ── Replies ───────────────────────────────────────────────────────────

/// The section that a local record stands in.
#[derive(Clone, Debug)]
pub enum LocalScope {
    Global,
    Profile(String),
}

/// The section as a mathematical value.
pub enum ScopeV {
    Global,
    Profile(Seq<char>),
}

impl View for LocalScope {
    type V = ScopeV;

    open spec fn view(&self) -> ScopeV {
        match self {
            LocalScope::Global => ScopeV::Global,
            LocalScope::Profile(name) => ScopeV::Profile(name@),
        }
    }
}

/// A local record that answered, by its configured name.
#[derive(Clone, Debug)]
pub struct LocalHit {
    pub scope: LocalScope,
    pub apex: String,
}

/// The view of an optional local hit.
pub open spec fn hit_view(hit: Option<LocalHit>) -> Option<(ScopeV, Seq<char>)> {
    match hit {
        Some(h) => Some((h.scope@, h.apex@)),
        None => None,
    }
}

/// The audit record of a block over a CNAME chain.
#[derive(Clone, Debug)]
pub struct CnameBlock {
    pub domain: String,
    pub offending: String,
    pub source: BlockSource,
    pub rewrote_from: Option<String>,
}

/// An audit record as mathematical values.
pub struct CnameBlockV {
    pub domain: Seq<char>,
    pub offending: Seq<char>,
    pub source: BlockSource,
    pub rewrote_from: Option<Seq<char>>,
}

/// The view of an optional audit record.
pub open spec fn audit_view(audit: Option<CnameBlock>) -> Option<CnameBlockV> {
    match audit {
        Some(a) => Some(
            CnameBlockV {
                domain: a.domain@,
                offending: a.offending@,
                source: a.source,
                rewrote_from: text_view(a.rewrote_from),
            },
        ),
        None => None,
    }
}

/// What goes back to the client.
pub enum Body {
    /// Nothing at all.
    Silence,
    /// A finished response.
    Send(Response),
    /// A cached entry, once it has been validated. The flag says whether the
    /// query was rewritten.
    Serve(Arc<CacheEntry>, bool),
}

/// What goes back to the client, as mathematical values.
pub enum BodyV {
    Silence,
    Send(ResponseV),
    Serve(EntryV, bool),
}

impl View for Body {
    type V = BodyV;

    open spec fn view(&self) -> BodyV {
        match self {
            Body::Silence => BodyV::Silence,
            Body::Send(r) => BodyV::Send(r@),
            Body::Serve(e, rewrote) => BodyV::Serve((**e)@, *rewrote),
        }
    }
}

/// How a query is brought to its end.
pub struct Reply {
    pub body: Body,
    /// The rows of the query log, in order.
    pub rows: Vec<QueryDecision>,
    /// The source was turned away at the door.
    pub refused_by_acl: bool,
    /// The local record that answered.
    pub local_hit: Option<LocalHit>,
    /// The audit record to append.
    pub audit: Option<CnameBlock>,
    /// The operator is to be warned.
    pub alarm: bool,
}

/// A reply as mathematical values.
pub struct ReplyV {
    pub body: BodyV,
    pub rows: Seq<DecisionV>,
    pub refused_by_acl: bool,
    pub local_hit: Option<(ScopeV, Seq<char>)>,
    pub audit: Option<CnameBlockV>,
    pub alarm: bool,
}

/// The rows as mathematical values.
pub open spec fn row_views(rows: Seq<QueryDecision>) -> Seq<DecisionV> {
    rows.map_values(|d: QueryDecision| d@)
}

impl View for Reply {
    type V = ReplyV;

    open spec fn view(&self) -> ReplyV {
        ReplyV {
            body: self.body@,
            rows: row_views(self.rows@),
            refused_by_acl: self.refused_by_acl,
            local_hit: hit_view(self.local_hit),
            audit: audit_view(self.audit),
            alarm: self.alarm,
        }
    }
}

/// A reply that records the given rows and does nothing else.
pub open spec fn replied(body: BodyV, rows: Seq<DecisionV>) -> ReplyV {
    ReplyV { body, rows, refused_by_acl: false, local_hit: None, audit: None, alarm: false }
}

/// A reply without rows.
pub fn unrecorded(body: Body) -> (r: Reply)
    ensures
        r@ == replied(body@, Seq::empty()),
{
    let r = Reply {
        body,
        rows: Vec::new(),
        refused_by_acl: false,
        local_hit: None,
        audit: None,
        alarm: false,
    };
    proof {
        assert(r@.rows =~= Seq::<DecisionV>::empty());
    }
    r
}

/// A reply with one row.
pub fn recorded(body: Body, row: QueryDecision) -> (r: Reply)
    ensures
        r@ == replied(body@, seq![row@]),
{
    let mut r = unrecorded(body);
    r.rows.push(row);
    proof {
        assert(r@.rows =~= seq![row@]);
    }
    r
}

/// The row with the name of the client's device.
pub open spec fn named_row(d: DecisionV, device: Option<Seq<char>>) -> DecisionV {
    DecisionV { client_name: device, ..d }
}

/// The reply with the name of the client's device on its only row.
pub open spec fn named(reply: ReplyV, device: Option<Seq<char>>) -> ReplyV {
    ReplyV {
        rows: Seq::new(reply.rows.len(), |i: int| named_row(reply.rows[i], device)),
        ..reply
    }
}

impl Reply {
    /// Puts the name of the client's device on every row.
    pub fn with_client_name(self, device: &Option<String>) -> (r: Reply)
        ensures
            r@ == named(self@, text_view(*device)),
    {
        let mut out = self;
        let ghost before = out@;
        let n = out.rows.len();
        let mut i: usize = 0;
        while i < n
            invariant
                i <= n,
                n == out.rows.len(),
                n == before.rows.len(),
                out@.body == before.body,
                out@.refused_by_acl == before.refused_by_acl,
                out@.local_hit == before.local_hit,
                out@.audit == before.audit,
                out@.alarm == before.alarm,
                forall|j: int|
                    0 <= j < i ==> (#[trigger] out.rows@[j])@ == named_row(
                        before.rows[j],
                        text_view(*device),
                    ),
                forall|j: int| i <= j < n ==> (#[trigger] out.rows@[j])@ == before.rows[j],
            decreases n - i,
        {
            let row = &mut out.rows[i];
            row.client_name = copy_text(device);
            i += 1;
        }
        proof {
            assert(out@.rows =~= named(before, text_view(*device)).rows);
        }
        out
    }
}

// ── Laws ──────────────────────────────────────────────────────────────

/// A row says what it is given, and its outcome says the rest: a refusal, a
/// dropped response and a block deny service, and a cached and a stale answer
/// come out of the cache. It is attributed to nothing.
pub proof fn rows_go_by_their_outcome(
    domain: Seq<char>,
    client_name: Option<Seq<char>>,
    client_profile: Option<Seq<char>>,
    record_type: RecordType,
    rewrote_from: Option<Seq<char>>,
    outcome: Outcome,
)
    ensures
        ({
            let d = outcome_row(
                domain,
                client_name,
                client_profile,
                record_type,
                rewrote_from,
                outcome,
            );
            &&& d.domain == domain && d.client_name == client_name && d.client_profile
                == client_profile && d.record_type == record_type && d.rewrote_from
                == rewrote_from && d.outcome == outcome
            &&& d.blocked <==> outcome is Refused || outcome is RrlDrop || outcome is Blocked
            &&& d.cached <==> outcome is Cached || outcome is Stale
            &&& !(d.blocked && d.cached)
            &&& !d.cache_negative_hit && d.cname_chain_via is None && d.block_list_bit is None
        }),
{
}

/// Every row moves at most one counter of the cache, and exactly one where the
/// answer came out of it. Refusals and drops are security refusals; blocks by the
/// filter are not.
pub proof fn rows_are_counted_once(d: DecisionV)
    requires
        d.cache_negative_hit ==> d.cached,
    ensures
        !(tallied(d).cache_hit && tallied(d).cache_negative_hit),
        tallied(d).cache_hit || tallied(d).cache_negative_hit <==> d.cached,
        tallied(d).cache_negative_hit <==> d.cache_negative_hit,
        tallied(d).security_refusal <==> d.outcome is Refused || d.outcome is RrlDrop,
        d.outcome is Blocked || d.outcome is RrlSlip ==> !tallied(d).security_refusal,
{
}

/// The name of a record type in the log tells it apart from every other type
/// that has a name of its own, and the log spells it as the type is written.
pub proof fn labels_tell_types_apart(a: RecordType, b: RecordType)
    requires
        type_label(a) == type_label(b),
    ensures
        a == b || type_label(a) == "OTHER"@,
        type_label(a) == "OTHER"@ <==> a is HINFO || a is ANY || a is Other,
        type_label(a) == "A"@ ==> a is A,
        type_label(a) == "AAAA"@ ==> a is AAAA,
        type_label(a) == "CNAME"@ ==> a is CNAME,
        type_label(a) == "PTR"@ ==> a is PTR,
        type_label(a) == "MX"@ ==> a is MX,
        type_label(a) == "TXT"@ ==> a is TXT,
        type_label(a) == "NS"@ ==> a is NS,
        type_label(a) == "SRV"@ ==> a is SRV,
        type_label(a) == "SOA"@ ==> a is SOA,
        type_label(a) == "HTTPS"@ ==> a is HTTPS,
        type_label(a) == "SVCB"@ ==> a is SVCB,
        type_label(a) == "TLSA"@ ==> a is TLSA,
{
    lemma_labels_differ();
}

/// The name of an outcome in the log tells it apart from every other.
pub proof fn labels_tell_outcomes_apart(a: Outcome, b: Outcome)
    requires
        outcome_label(a) == outcome_label(b),
    ensures
        a == b,
{
    lemma_outcome_labels_differ();
}

/// No two names of record types are alike: they differ in their length or in
/// one of their first letters.
proof fn lemma_labels_differ()
    ensures
        "A"@.len() == 1,
        "AAAA"@.len() == 4 && "AAAA"@[0] == 'A',
        "CNAME"@.len() == 5 && "CNAME"@[0] == 'C',
        "MX"@.len() == 2 && "MX"@[0] == 'M',
        "TXT"@.len() == 3 && "TXT"@[0] == 'T',
        "NS"@.len() == 2 && "NS"@[0] == 'N',
        "SRV"@.len() == 3 && "SRV"@[0] == 'S' && "SRV"@[1] == 'R',
        "PTR"@.len() == 3 && "PTR"@[0] == 'P',
        "SOA"@.len() == 3 && "SOA"@[0] == 'S' && "SOA"@[1] == 'O',
        "HTTPS"@.len() == 5 && "HTTPS"@[0] == 'H',
        "SVCB"@.len() == 4 && "SVCB"@[0] == 'S',
        "TLSA"@.len() == 4 && "TLSA"@[0] == 'T',
        "OTHER"@.len() == 5 && "OTHER"@[0] == 'O',
{
    reveal_strlit("A");
    reveal_strlit("AAAA");
    reveal_strlit("CNAME");
    reveal_strlit("MX");
    reveal_strlit("TXT");
    reveal_strlit("NS");
    reveal_strlit("SRV");
    reveal_strlit("PTR");
    reveal_strlit("SOA");
    reveal_strlit("HTTPS");
    reveal_strlit("SVCB");
    reveal_strlit("TLSA");
    reveal_strlit("OTHER");
}

/// No two names of outcomes are alike.
proof fn lemma_outcome_labels_differ()
    ensures
        "REFUSED"@.len() == 7 && "REFUSED"@[0] == 'R',
        "RRL_DROP"@.len() == 8 && "RRL_DROP"@[4] == 'D',
        "RRL_SLIP"@.len() == 8 && "RRL_SLIP"@[4] == 'S',
        "LOCAL"@.len() == 5 && "LOCAL"@[0] == 'L',
        "BLOCKED"@.len() == 7 && "BLOCKED"@[0] == 'B',
        "CACHED"@.len() == 6,
        "HINFO"@.len() == 5 && "HINFO"@[0] == 'H',
        "ALLOWED"@.len() == 7 && "ALLOWED"@[0] == 'A',
        "STALE"@.len() == 5 && "STALE"@[0] == 'S',
{
    reveal_strlit("REFUSED");
    reveal_strlit("RRL_DROP");
    reveal_strlit("RRL_SLIP");
    reveal_strlit("LOCAL");
    reveal_strlit("BLOCKED");
    reveal_strlit("CACHED");
    reveal_strlit("HINFO");
    reveal_strlit("ALLOWED");
    reveal_strlit("STALE");
}

/// An optional text is seen as what it is.
pub proof fn optional_texts_are_kept(s: String)
    ensures
        text_view(Some(s)) == Some(s@),
        text_view(None) is None,
{
}

} // verus!
