//! The whole query path in one piece: what a request comes to, given all that
//! the world around the handler says, and the laws that follow.
use vstd::prelude::*;
use crate::cache::{
    answer_outcome, cleared, fetch_ends, seen, stale_of, CacheLookupV, CacheV, EntryV, FetchV,
    Fetched,
};
use crate::cidr::allowed;
use crate::client_subnet::EcsPrefix;
use crate::error::DnsError;
use crate::filter::{covered, BlockSource, FilterResult};
use crate::handler::{
    acl_refusal, admission, fetch_block, forward_name, fresh_reply, inspected_entry,
    inspection_block, intercepted, judged, limited, local_reply, network_reply, policy_allows,
    rewritten, screened, sent, settled, slot, unmapped_refusal, with_cache, without_slot,
    ForwardHandler, HandlerV, Inspection, NetworkName, PassedV, QueryV, Question, Resolution,
};
use crate::net::IpAddr;
use crate::outcome::{denied, named, text_view, BodyV, Outcome, Reply, ReplyV};
use crate::record::{record_views, wire_name, RDataV, RecordType, ResponseCode};
use crate::response::bare;
use crate::security::{reverse_zone, PreQueryFacts, RrlAction};
use crate::stage::{
    advance, begin, begun, clean, fetched, looked_up, next, Event, Stage, StageV, Turn, TurnV,
};

verus! {

/// All that the world says of one request.
pub struct World {
    /// A filter generation is installed.
    pub gate_open: bool,
    pub screening: PreQueryFacts,
    /// The name of the client's device, probed by address.
    pub device: Option<String>,
    pub rrl: RrlAction,
    /// What the resolver says of the client. Nothing without a resolver.
    pub resolution: Option<Resolution>,
    pub ecs: Option<EcsPrefix>,
    pub network: NetworkName,
    /// What the profile evaluator says of the name.
    pub verdict: FilterResult,
    pub source: Option<BlockSource>,
    /// The name that a rewrite rule of the profile gives the query.
    pub rewrite: Option<String>,
    /// What the inspection of the answer finds where the policy has no
    /// exception for the name.
    pub inspection: Inspection,
    /// What it finds where the policy allows the name.
    pub exempted: Inspection,
    /// The client is over its tunneling budget.
    pub rate_exceeded: bool,
    /// What the upstream answers.
    pub fetched: Result<Fetched, DnsError>,
    pub now: u128,
}

/// What the inspection of the answer to a query finds, under the policy on the
/// name that the answer is for.
pub open spec fn inspected(p: PassedV, w: World) -> Inspection {
    if policy_allows(p.domain, w.resolution) {
        w.exempted
    } else {
        w.inspection
    }
}

/// What a query comes to once its name has passed the filter.
pub open spec fn answered(
    h: HandlerV,
    p: PassedV,
    w: World,
    found: CacheLookupV,
    f: FetchV,
) -> ReplyV {
    match found {
        CacheLookupV::Fresh(e) => fresh_reply(h, p, e, inspected(p, w)),
        _ => match intercepted(h, p, found is Miss, w.rate_exceeded) {
            Some(reply) => reply,
            None => settled(h, p, f, inspected(p, w)),
        },
    }
}

/// What an admitted query comes to: the first of these that applies. The
/// security layer, response rate limiting, the local records, the network
/// names, the filter, the cache, the upstream.
pub open spec fn decided(
    h: HandlerV,
    q: QueryV,
    w: World,
    found: CacheLookupV,
    f: FetchV,
) -> ReplyV {
    let judgement = judged(q, w.resolution, w.ecs, w.verdict, w.source);
    if screened(h, q, w.screening) is Some {
        named(screened(h, q, w.screening)->0, text_view(w.device))
    } else if limited(h, q, w.rrl) is Some {
        named(limited(h, q, w.rrl)->0, text_view(w.device))
    } else if local_reply(h, q, w.resolution) is Some {
        local_reply(h, q, w.resolution)->0
    } else if network_reply(h, q, w.resolution, w.network) is Some {
        network_reply(h, q, w.resolution, w.network)->0
    } else {
        match judgement {
            Err(reply) => reply,
            Ok(p) => answered(h, rewritten(p, text_view(w.rewrite)), w, found, f),
        }
    }
}

/// The query goes on to the cache.
pub open spec fn reaches_cache(h: HandlerV, q: QueryV, w: World) -> bool {
    &&& screened(h, q, w.screening) is None
    &&& limited(h, q, w.rrl) is None
    &&& local_reply(h, q, w.resolution) is None
    &&& network_reply(h, q, w.resolution, w.network) is None
    &&& judged(q, w.resolution, w.ecs, w.verdict, w.source) is Ok
}

/// The query as it goes on to the cache.
pub open spec fn cached_query(q: QueryV, w: World) -> PassedV {
    rewritten(judged(q, w.resolution, w.ecs, w.verdict, w.source)->Ok_0, text_view(w.rewrite))
}

/// The query goes on to the upstream.
pub open spec fn reaches_upstream(
    h: HandlerV,
    q: QueryV,
    w: World,
    found: CacheLookupV,
) -> bool {
    &&& reaches_cache(h, q, w)
    &&& !(found is Fresh)
    &&& intercepted(h, cached_query(q, w), found is Miss, w.rate_exceeded) is None
}

/// The cache after a query. `fetched` is the cache after the fetch, where
/// there was one.
pub open spec fn cache_after(
    h: HandlerV,
    q: QueryV,
    w: World,
    found: CacheLookupV,
    f: FetchV,
    fetched: CacheV,
) -> CacheV {
    let p = cached_query(q, w);
    if !reaches_cache(h, q, w) {
        h.cache
    } else if found is Fresh {
        if inspection_block(p, inspected(p, w), h.audits) is Some {
            without_slot(h.cache, p)
        } else {
            h.cache
        }
    } else if !reaches_upstream(h, q, w, found) {
        h.cache
    } else if fetch_block(h, p, f, inspected(p, w)) is Some {
        without_slot(fetched, p)
    } else {
        fetched
    }
}

/// What a request may come to, and the handler after it.
pub open spec fn handled(
    h: HandlerV,
    client: IpAddr,
    question: Option<Question>,
    w: World,
    reply: ReplyV,
    after: HandlerV,
) -> bool {
    match admission(h, client, w.gate_open, question) {
        Err(turned_away) => {
            &&& reply == turned_away
            &&& after == HandlerV {
                warned: h.warned || (allowed(client, h.allow_from) && !w.gate_open),
                ..h
            }
        },
        Ok(q) => concluded(h, q, w, reply, after),
    }
}

/// What an admitted query may come to, and the handler after it.
pub open spec fn concluded(
    h: HandlerV,
    q: QueryV,
    w: World,
    reply: ReplyV,
    after: HandlerV,
) -> bool {
    exists|found: CacheLookupV, f: FetchV, fetched: CacheV|
        {
            &&& reaches_cache(h, q, w) ==> seen(h.cache, slot(cached_query(q, w)), w.now, found)
            &&& reaches_upstream(h, q, w, found) ==> fetch_ends(
                h.cache,
                slot(cached_query(q, w)),
                stale_of(found),
                w.fetched,
                w.now,
                f,
                fetched,
            )
            &&& reply == #[trigger] decided(h, q, w, found, f)
            &&& after == with_cache(h, #[trigger] cache_after(h, q, w, found, f, fetched))
        }
}

// ── The steps of a request ────────────────────────────────────────────

/// What the world says to a query at a stage.
pub open spec fn said(w: World, s: StageV) -> Event {
    match s {
        StageV::Screening(_) => Event::Screened(w.screening),
        StageV::Naming(_) => Event::Named(w.device),
        StageV::Limiting(..) => Event::Limited(w.rrl),
        StageV::Resolving(_) => Event::Resolved(w.resolution, w.ecs),
        StageV::Networking(..) => Event::Networked(w.network),
        StageV::Evaluating(..) => Event::Evaluated(w.verdict, w.source),
        StageV::Rewriting(..) => Event::Rewritten(w.rewrite, w.now),
        StageV::Inspecting(_, _, exempt) => Event::Inspected(
            if exempt {
                w.exempted
            } else {
                w.inspection
            },
        ),
        StageV::Counting(..) => Event::Counted(w.rate_exceeded, w.now),
        StageV::Fetching(..) => Event::Answered(w.fetched, w.now),
        StageV::Settling(_, _, _, exempt) => Event::Inspected(
            if exempt {
                w.exempted
            } else {
                w.inspection
            },
        ),
    }
}

/// The lookup that a query without a fresh entry came from.
pub open spec fn unanswered(stale: Option<EntryV>) -> CacheLookupV {
    match stale {
        Some(e) => CacheLookupV::Stale(e),
        None => CacheLookupV::Miss,
    }
}

/// A query of the handler `h` is at a stage, and `now_h` is the handler by
/// then: all that the query has passed let it pass.
pub open spec fn under_way(h: HandlerV, q: QueryV, w: World, s: StageV, now_h: HandlerV) -> bool {
    let p = cached_query(q, w);
    match s {
        StageV::Screening(x) => now_h == h && x == q,
        StageV::Naming(reply) => {
            &&& now_h == h
            &&& match screened(h, q, w.screening) {
                Some(r) => reply == r,
                None => limited(h, q, w.rrl) == Some(reply),
            }
        },
        StageV::Limiting(x, _) => {
            &&& now_h == h && x == q
            &&& screened(h, q, w.screening) is None
        },
        StageV::Resolving(x) => {
            &&& now_h == h && x == q
            &&& screened(h, q, w.screening) is None
            &&& limited(h, q, w.rrl) is None
        },
        StageV::Networking(x, resolution, ecs) => {
            &&& now_h == h && x == q && resolution == w.resolution && ecs == w.ecs
            &&& screened(h, q, w.screening) is None
            &&& limited(h, q, w.rrl) is None
            &&& local_reply(h, q, w.resolution) is None
        },
        StageV::Evaluating(x, resolution, ecs) => {
            &&& now_h == h && x == q && resolution == w.resolution && ecs == w.ecs
            &&& screened(h, q, w.screening) is None
            &&& limited(h, q, w.rrl) is None
            &&& local_reply(h, q, w.resolution) is None
            &&& network_reply(h, q, w.resolution, w.network) is None
        },
        StageV::Rewriting(x, resolution) => {
            &&& now_h == h && resolution == w.resolution
            &&& reaches_cache(h, q, w)
            &&& judged(q, w.resolution, w.ecs, w.verdict, w.source) == Ok::<PassedV, ReplyV>(x)
        },
        StageV::Inspecting(x, e, exempt) => {
            &&& now_h == h && x == p && exempt == policy_allows(p.domain, w.resolution)
            &&& reaches_cache(h, q, w)
            &&& seen(h.cache, slot(p), w.now, CacheLookupV::Fresh(e))
        },
        StageV::Counting(x, key, stale, exempt, _) => {
            &&& now_h == h && x == p && exempt == policy_allows(p.domain, w.resolution)
            &&& key == slot(p)
            &&& reaches_cache(h, q, w)
            &&& seen(h.cache, slot(p), w.now, unanswered(stale))
        },
        StageV::Fetching(x, key, stale, exempt, _) => {
            &&& x == p && exempt == policy_allows(p.domain, w.resolution)
            &&& key == slot(p)
            &&& reaches_upstream(h, q, w, unanswered(stale))
            &&& seen(h.cache, slot(p), w.now, unanswered(stale))
            &&& now_h == with_cache(h, cleared(h.cache, key, stale))
        },
        StageV::Settling(x, e, f, exempt) => {
            &&& x == p && exempt == policy_allows(p.domain, w.resolution)
            &&& inspected_entry(f) == Some(e)
            &&& now_h == with_cache(h, now_h.cache)
            &&& exists|stale: Option<EntryV>|
                #[trigger] reaches_upstream(h, q, w, unanswered(stale)) && seen(
                    h.cache,
                    slot(p),
                    w.now,
                    unanswered(stale),
                ) && fetch_ends(h.cache, slot(p), stale, w.fetched, w.now, f, now_h.cache)
        },
    }
}

/// Where a query of the handler `h` is after a step.
pub open spec fn arrived(h: HandlerV, q: QueryV, w: World, t: TurnV, now_h: HandlerV) -> bool {
    match t {
        TurnV::Ask(s) => under_way(h, q, w, s, now_h),
        TurnV::Done(reply, _) => concluded(h, q, w, reply, now_h),
    }
}

proof fn lemma_concluded(
    h: HandlerV,
    q: QueryV,
    w: World,
    reply: ReplyV,
    after: HandlerV,
    found: CacheLookupV,
    f: FetchV,
    fetched: CacheV,
)
    requires
        reaches_cache(h, q, w) ==> seen(h.cache, slot(cached_query(q, w)), w.now, found),
        reaches_upstream(h, q, w, found) ==> fetch_ends(
            h.cache,
            slot(cached_query(q, w)),
            stale_of(found),
            w.fetched,
            w.now,
            f,
            fetched,
        ),
        reply == decided(h, q, w, found, f),
        after == with_cache(h, cache_after(h, q, w, found, f, fetched)),
    ensures
        concluded(h, q, w, reply, after),
{
}

/// A fetch that ended leads to the reply, at once or after an inspection.
proof fn lemma_fetched(
    h: HandlerV,
    q: QueryV,
    w: World,
    stale: Option<EntryV>,
    f: FetchV,
    now_h: HandlerV,
)
    requires
        reaches_upstream(h, q, w, unanswered(stale)),
        seen(h.cache, slot(cached_query(q, w)), w.now, unanswered(stale)),
        now_h == with_cache(h, now_h.cache),
        fetch_ends(
            h.cache,
            slot(cached_query(q, w)),
            stale,
            w.fetched,
            w.now,
            f,
            now_h.cache,
        ),
    ensures
        arrived(
            h,
            q,
            w,
            fetched(
                now_h,
                cached_query(q, w),
                f,
                policy_allows(cached_query(q, w).domain, w.resolution),
            ),
            now_h,
        ),
{
    let p = cached_query(q, w);
    let found = unanswered(stale);
    if inspected_entry(f) is None {
        let reply = settled(now_h, p, f, clean());
        assert(reply == decided(h, q, w, found, f));
        lemma_concluded(h, q, w, reply, now_h, found, f, now_h.cache);
    }
}

/// A step keeps a query on its way, or ends it as it is to end.
proof fn lemma_step(
    h: HandlerV,
    q: QueryV,
    w: World,
    s: StageV,
    now_h: HandlerV,
    t: TurnV,
    after: HandlerV,
)
    requires
        under_way(h, q, w, s, now_h),
        next(now_h, s, said(w, s), t, after),
    ensures
        arrived(h, q, w, t, after),
{
    let p = cached_query(q, w);
    let none = CacheLookupV::Miss;
    let failed = FetchV::Failed(None, DnsError::Uncacheable(ResponseCode::ServFail));
    match s {
        StageV::Naming(_)
        | StageV::Resolving(_)
        | StageV::Networking(..)
        | StageV::Evaluating(..) => {
            if let TurnV::Done(reply, _) = t {
                assert(!reaches_cache(h, q, w));
                lemma_concluded(h, q, w, reply, after, none, failed, h.cache);
            }
        },
        StageV::Rewriting(x, resolution) => {
            let found = choose|found: CacheLookupV|
                #[trigger] seen(h.cache, slot(p), w.now, found) && t == looked_up(
                    h,
                    p,
                    policy_allows(p.domain, resolution),
                    found,
                );
            assert(!(found is Fresh) ==> unanswered(stale_of(found)) == found);
        },
        StageV::Inspecting(_, e, _) => {
            let found = CacheLookupV::Fresh(e);
            lemma_concluded(h, q, w, t->Done_0, after, found, failed, h.cache);
        },
        StageV::Counting(_, key, stale, _, _) => {
            let found = unanswered(stale);
            assert(stale_of(found) == stale);
            match intercepted(h, p, stale is None, w.rate_exceeded) {
                Some(reply) => {
                    lemma_concluded(h, q, w, reply, after, found, failed, h.cache);
                },
                None => {
                    assert(reaches_upstream(h, q, w, found));
                    if !(t matches TurnV::Ask(StageV::Fetching(..))) {
                        lemma_fetched(h, q, w, stale, FetchV::Got(h.cache.entries[key]), h);
                    }
                },
            }
        },
        StageV::Fetching(_, _, stale, _, _) => {
            let f = answer_outcome(now_h.cache, stale, w.fetched, w.now);
            lemma_fetched(h, q, w, stale, f, after);
        },
        StageV::Settling(_, _, f, _) => {
            let stale = choose|stale: Option<EntryV>|
                #[trigger] reaches_upstream(h, q, w, unanswered(stale)) && seen(
                    h.cache,
                    slot(p),
                    w.now,
                    unanswered(stale),
                ) && fetch_ends(h.cache, slot(p), stale, w.fetched, w.now, f, now_h.cache);
            let found = unanswered(stale);
            lemma_concluded(h, q, w, t->Done_0, after, found, f, now_h.cache);
        },
        _ => {},
    }
}

/// How many more times a query may have to wait, at most.
pub open spec fn stages_left(s: StageV) -> nat {
    match s {
        StageV::Screening(_) => 10,
        StageV::Limiting(..) => 9,
        StageV::Resolving(_) => 8,
        StageV::Networking(..) => 7,
        StageV::Evaluating(..) => 6,
        StageV::Rewriting(..) => 5,
        StageV::Counting(..) => 4,
        StageV::Fetching(..) => 3,
        StageV::Inspecting(..) => 2,
        StageV::Settling(..) => 2,
        StageV::Naming(_) => 1,
    }
}

/// What the world says to a query that waits. What was said is used up; what
/// later stages wait for is left as it was.
fn hear(w: &mut World, stage: &Stage) -> (r: Event)
    ensures
        r == said(*old(w), stage@),
        forall|s: StageV|
            stages_left(s) < stages_left(stage@) ==> #[trigger] said(*final(w), s) == said(
                *old(w),
                s,
            ),
{
    match stage {
        Stage::Screening { .. } => Event::Screened(w.screening),
        Stage::Naming { .. } => Event::Named(w.device.take()),
        Stage::Limiting { .. } => Event::Limited(w.rrl),
        Stage::Resolving { .. } => Event::Resolved(w.resolution.take(), w.ecs),
        Stage::Networking { .. } => Event::Networked(w.network),
        Stage::Evaluating { .. } => Event::Evaluated(w.verdict, w.source),
        Stage::Rewriting { .. } => Event::Rewritten(w.rewrite.take(), w.now),
        Stage::Inspecting { allowed, .. } | Stage::Settling { allowed, .. } => {
            let found = if *allowed {
                &mut w.exempted
            } else {
                &mut w.inspection
            };
            Event::Inspected(
                Inspection { chain: found.chain.take(), address: found.address.take() },
            )
        },
        Stage::Counting { .. } => Event::Counted(w.rate_exceeded, w.now),
        Stage::Fetching { .. } => {
            let mut answer = Err(DnsError::AllUpstreamsFailed);
            std::mem::swap(&mut answer, &mut w.fetched);
            Event::Answered(answer, w.now)
        },
    }
}

/// Handles one request from end to end, given all that the world says of it:
/// the steps, one after the other.
pub fn handle_inner(
    handler: &mut ForwardHandler,
    client: IpAddr,
    question: Option<Question>,
    w: World,
) -> (r: Reply)
    requires
        old(handler).wf(),
        question matches Some(q) ==> wire_name(q.name@),
        w.resolution matches Some(x) ==> x.wf(),
    ensures
        final(handler).wf(),
        handled(old(handler)@, client, question, w, r@, final(handler)@),
{
    let ghost h = handler@;
    let ghost query = admission(h, client, w.gate_open, question)->Ok_0;
    let ghost world = w;
    let mut stage = match begin(handler, client, w.gate_open, question) {
        Turn::Ask(stage) => stage,
        Turn::Done(reply, _) => {
            return reply;
        },
    };
    let mut rest = w;
    loop
        invariant
            handler.wf(),
            world.resolution matches Some(x) ==> x.wf(),
            h == old(handler)@,
            world == w,
            admission(h, client, world.gate_open, question) == Ok::<QueryV, ReplyV>(query),
            under_way(h, query, world, stage@, handler@),
            forall|s: StageV|
                stages_left(s) <= stages_left(stage@) ==> #[trigger] said(rest, s) == said(world, s),
        decreases stages_left(stage@),
    {
        let ghost s = stage@;
        let ghost before = handler@;
        let event = hear(&mut rest, &stage);
        let turn = advance(handler, stage, event);
        proof {
            lemma_step(h, query, world, s, before, turn@, handler@);
            steps_come_to_an_end(before, s, world, turn@, handler@);
        }
        match turn {
            Turn::Ask(further) => {
                stage = further;
            },
            Turn::Done(reply, _) => {
                return reply;
            },
        }
    }
}

// ── Laws ──────────────────────────────────────────────────────────────

/// Each step takes a query nearer to its reply: it never waits for more than
/// its stages allow.
pub proof fn steps_come_to_an_end(h: HandlerV, s: StageV, w: World, t: TurnV, after: HandlerV)
    requires
        next(h, s, said(w, s), t, after),
    ensures
        t matches TurnV::Ask(further) ==> stages_left(further) < stages_left(s),
{
}

/// The turns that follow a turn end in a reply, within `n` more steps. At each
/// of them the world says what it has to say.
pub open spec fn ends_in(
    h: HandlerV,
    t: TurnV,
    w: World,
    reply: ReplyV,
    after: HandlerV,
    n: nat,
) -> bool
    decreases n,
{
    match t {
        TurnV::Done(r, _) => r == reply && h == after,
        TurnV::Ask(s) => n > 0 && exists|t2: TurnV, h2: HandlerV|
            #[trigger] next(h, s, said(w, s), t2, h2) && ends_in(
                h2,
                t2,
                w,
                reply,
                after,
                (n - 1) as nat,
            ),
    }
}

proof fn lemma_ends(
    h: HandlerV,
    q: QueryV,
    w: World,
    t: TurnV,
    now_h: HandlerV,
    reply: ReplyV,
    after: HandlerV,
    n: nat,
)
    requires
        arrived(h, q, w, t, now_h),
        ends_in(now_h, t, w, reply, after, n),
    ensures
        concluded(h, q, w, reply, after),
    decreases n,
{
    if let TurnV::Ask(s) = t {
        let (t2, h2) = choose|t2: TurnV, h2: HandlerV|
            #[trigger] next(now_h, s, said(w, s), t2, h2) && ends_in(
                h2,
                t2,
                w,
                reply,
                after,
                (n - 1) as nat,
            );
        lemma_step(h, q, w, s, now_h, t2, h2);
        lemma_ends(h, q, w, t2, h2, reply, after, (n - 1) as nat);
    }
}

/// The steps add up: a request that is taken in and taken on step by step, with
/// nothing else happening to the handler in between, comes to what it is to
/// come to, whoever runs the steps.
pub proof fn steps_add_up(
    h: HandlerV,
    client: IpAddr,
    question: Option<Question>,
    w: World,
    first: TurnV,
    begun_h: HandlerV,
    reply: ReplyV,
    after: HandlerV,
    n: nat,
)
    requires
        begun(h, client, w.gate_open, question, first, begun_h),
        ends_in(begun_h, first, w, reply, after, n),
    ensures
        handled(h, client, question, w, reply, after),
{
    match admission(h, client, w.gate_open, question) {
        Ok(q) => {
            assert(begun_h == h);
            lemma_ends(h, q, w, first, begun_h, reply, after, n);
        },
        Err(_) => {},
    }
}

/// A source outside the access list reaches nothing: whatever it asks and
/// whatever the world says, it is refused, nothing is recorded but the
/// refusal, and the handler does not change.
pub proof fn refused_sources_reach_nothing(
    h: HandlerV,
    client: IpAddr,
    question: Option<Question>,
    w: World,
    reply: ReplyV,
    after: HandlerV,
)
    requires
        !allowed(client, h.allow_from),
        handled(h, client, question, w, reply, after),
    ensures
        reply == acl_refusal(),
        after == h,
{
}

/// Until a filter generation is installed no query is answered, not even from
/// the local records. The first refusal alarms, and none after it.
pub proof fn closed_gate_answers_nothing(
    h: HandlerV,
    client: IpAddr,
    question: Option<Question>,
    w: World,
    reply: ReplyV,
    after: HandlerV,
)
    requires
        allowed(client, h.allow_from),
        !w.gate_open,
        handled(h, client, question, w, reply, after),
    ensures
        reply.body == BodyV::Send(bare(ResponseCode::ServFail)),
        reply.rows.len() == 0,
        reply.alarm == !h.warned,
        after.warned,
        after.cache == h.cache,
{
}

/// A query that is answered locally depends on the local records alone: no
/// filter, cache or upstream has a say, and the cache is left alone.
pub proof fn local_answers_stay_local(
    h: HandlerV,
    q: QueryV,
    w: World,
    found: CacheLookupV,
    f: FetchV,
    fetched: CacheV,
)
    requires
        screened(h, q, w.screening) is None,
        limited(h, q, w.rrl) is None,
        local_reply(h, q, w.resolution) is Some,
    ensures
        decided(h, q, w, found, f) == local_reply(h, q, w.resolution)->0,
        !reaches_upstream(h, q, w, found),
        cache_after(h, q, w, found, f, fetched) == h.cache,
{
}

/// The records of a profile shadow the global ones.
pub proof fn profile_records_shadow_global_ones(h: HandlerV, q: QueryV, resolution: Option<Resolution>)
    requires
        crate::handler::profile_reply(h, q, resolution) is Some,
    ensures
        local_reply(h, q, resolution) == crate::handler::profile_reply(h, q, resolution),
{
}

/// A record that the operator wrote wins over a device's network name.
pub proof fn configured_records_win_over_network_names(
    h: HandlerV,
    q: QueryV,
    w: World,
    found: CacheLookupV,
    f: FetchV,
)
    requires
        screened(h, q, w.screening) is None,
        limited(h, q, w.rrl) is None,
        local_reply(h, q, w.resolution) is Some,
    ensures
        forall|network: NetworkName|
            #[trigger] decided(h, q, World { network, ..w }, found, f) == decided(
                h,
                q,
                w,
                found,
                f,
            ),
{
}

/// A rewrite does not get around a block: where the name of the question is
/// blocked, the reply is the same whatever a rewrite rule would make of it,
/// and nothing goes upstream.
pub proof fn rewrites_do_not_bypass_blocks(
    h: HandlerV,
    q: QueryV,
    w: World,
    target: Option<String>,
    found: CacheLookupV,
    f: FetchV,
)
    requires
        judged(q, w.resolution, w.ecs, w.verdict, w.source) is Err,
    ensures
        decided(h, q, w, found, f) == decided(h, q, World { rewrite: target, ..w }, found, f),
        !reaches_upstream(h, q, w, found),
        !reaches_upstream(h, q, World { rewrite: target, ..w }, found),
{
}

/// Whether a name is blocked does not depend on the record type that is asked
/// for: no type of a blocked name slips through.
pub proof fn blocks_cover_every_type(
    a: QueryV,
    b: QueryV,
    resolution: Option<Resolution>,
    ecs: Option<EcsPrefix>,
    verdict: FilterResult,
    source: Option<BlockSource>,
)
    requires
        a.domain == b.domain,
    ensures
        judged(a, resolution, ecs, verdict, source) is Err <==> judged(
            b,
            resolution,
            ecs,
            verdict,
            source,
        ) is Err,
{
}

/// What an inspection calls blocked is not served, neither from the cache nor
/// after a fetch nor in place of a failed upstream. The one answer that is
/// served without an inspection is a fetched one that is empty or an error.
pub proof fn blocked_answers_are_not_served(
    h: HandlerV,
    q: QueryV,
    w: World,
    found: CacheLookupV,
    f: FetchV,
    e: EntryV,
    rewrote: bool,
)
    requires
        inspected(cached_query(q, w), w).chain is Some || inspected(
            cached_query(q, w),
            w,
        ).address is Some,
        decided(h, q, w, found, f).body == BodyV::Serve(e, rewrote),
    ensures
        reaches_upstream(h, q, w, found),
        f == FetchV::Got(e),
        e.records.len() == 0 || e.code != ResponseCode::NoError,
{
}

/// What an inspection calls blocked does not stay in the cache: the slot of
/// the query is empty afterwards.
pub proof fn blocked_answers_leave_the_cache(
    h: HandlerV,
    q: QueryV,
    w: World,
    found: CacheLookupV,
    f: FetchV,
    fetched: CacheV,
)
    requires
        reaches_cache(h, q, w),
        inspected(cached_query(q, w), w).chain is Some || inspected(
            cached_query(q, w),
            w,
        ).address is Some,
        found is Fresh || (reaches_upstream(h, q, w, found) && inspected_entry(f) is Some),
    ensures
        ({
            let p = cached_query(q, w);
            !cache_after(h, q, w, found, f, fetched).entries.contains_key(
                crate::cache::key_for(
                    crate::text::lowered(p.domain),
                    p.query.record_type,
                    p.query.dns_class,
                    p.ecs,
                ),
            )
        }),
{
}

/// An exception for a name reaches the inspection of its answer, whichever
/// layer it stands in: one that the device has counts like one of the profile.
/// The name is the one after a rewrite.
pub proof fn exceptions_reach_the_answer(q: QueryV, w: World)
    requires
        judged(q, w.resolution, w.ecs, w.verdict, w.source) is Ok,
        ({
            let r = w.resolution->0;
            let name = cached_query(q, w).domain;
            covered(r.profile->0.allow_domains@, name) || (r.overlay is Some && covered(
                r.overlay->0.allow@,
                name,
            ))
        }),
    ensures
        inspected(cached_query(q, w), w) == w.exempted,
{
}

/// A name that was merely not blocked stays open to inspection: without an
/// exception for the name after a rewrite, the answer is inspected in full,
/// whatever exceptions the name of the question has.
pub proof fn unblocked_names_stay_inspected(q: QueryV, w: World)
    requires
        judged(q, w.resolution, w.ecs, w.verdict, w.source) is Ok,
        ({
            let r = w.resolution->0;
            let name = cached_query(q, w).domain;
            !covered(r.profile->0.allow_domains@, name) && (r.overlay is None || !covered(
                r.overlay->0.allow@,
                name,
            ))
        }),
    ensures
        inspected(cached_query(q, w), w) == w.inspection,
{
}

/// A client without a profile is refused outright. The kind of response that
/// some profile has for blocked names plays no part, and what is refused does
/// not depend on the name.
pub proof fn unmapped_clients_are_refused(
    q: QueryV,
    resolution: Option<Resolution>,
    ecs: Option<EcsPrefix>,
    verdict: FilterResult,
    source: Option<BlockSource>,
)
    requires
        resolution is None || resolution->0.profile is None,
    ensures
        judged(q, resolution, ecs, verdict, source) == Err::<PassedV, ReplyV>(
            unmapped_refusal(q, resolution),
        ),
        unmapped_refusal(q, resolution).body == BodyV::Send(bare(ResponseCode::Refused)),
{
}

/// A query for any type never goes upstream.
pub proof fn any_queries_stay_here(h: HandlerV, q: QueryV, w: World, found: CacheLookupV)
    requires
        q.record_type == RecordType::ANY,
    ensures
        !reaches_upstream(h, q, w, found),
{
}

/// Only a name that the cache has never held counts against the tunneling
/// budget, and no reverse lookup in the reverse zones does.
pub proof fn repetition_is_no_tunneling(
    h: HandlerV,
    p: PassedV,
    missed: bool,
    rate_exceeded: bool,
)
    requires
        !missed || (p.query.record_type == RecordType::PTR && reverse_zone(p.domain)),
    ensures
        intercepted(h, p, missed, rate_exceeded) == intercepted(h, p, missed, false),
{
}

/// Every admitted query is recorded, and every row says of itself truly
/// whether service was denied.
pub proof fn admitted_queries_are_recorded(
    h: HandlerV,
    q: QueryV,
    w: World,
    found: CacheLookupV,
    f: FetchV,
)
    ensures
        decided(h, q, w, found, f).rows.len() >= 1,
        forall|i: int|
            0 <= i < decided(h, q, w, found, f).rows.len() ==> (#[trigger] decided(
                h,
                q,
                w,
                found,
                f,
            ).rows[i]).blocked == denied(decided(h, q, w, found, f).rows[i].outcome),
{
}

/// Silence is the answer to nothing but an exhausted response budget.
pub proof fn only_rate_limiting_is_silent(
    h: HandlerV,
    q: QueryV,
    w: World,
    found: CacheLookupV,
    f: FetchV,
)
    requires
        decided(h, q, w, found, f).body is Silence,
    ensures
        w.rrl == RrlAction::Drop,
        decided(h, q, w, found, f).rows[0].outcome == Outcome::RrlDrop,
{
}

/// Stale answers are served only where the upstream failed.
pub proof fn stale_answers_need_a_failure(
    h: HandlerV,
    q: QueryV,
    w: World,
    found: CacheLookupV,
    f: FetchV,
    i: int,
)
    requires
        0 <= i < decided(h, q, w, found, f).rows.len(),
        decided(h, q, w, found, f).rows[i].outcome == Outcome::Stale,
    ensures
        f matches FetchV::Failed(stale, error) && stale is Some && !(error is Uncacheable),
{
}

/// No answer claims authority.
pub proof fn answers_are_never_authoritative(
    h: HandlerV,
    q: QueryV,
    w: World,
    found: CacheLookupV,
    f: FetchV,
    decision: Option<crate::dnssec_validator::DnssecDecision>,
)
    ensures
        sent(decided(h, q, w, found, f).body, decision, Some(q.name), w.now) matches Some(r)
            ==> !r.authoritative,
{
}

/// The upstream is asked for the rewritten name, and for the name of the
/// question where nothing was rewritten or the target does not read as a name.
pub proof fn upstream_is_asked_for_the_effective_name(q: QueryV, w: World)
    requires
        judged(q, w.resolution, w.ecs, w.verdict, w.source) is Ok,
    ensures
        ({
            let p = cached_query(q, w);
            let asked = forward_name(p.domain, p.rewrote_from is Some, p.query.name);
            match w.rewrite {
                None => asked == q.name,
                Some(t) => p.domain == t@ && p.rewrote_from == Some(q.domain) && (
                crate::record::parsed_ascii_name(t@.push('.')) matches Some(n) ==> asked == n) && (
                crate::record::parsed_ascii_name(t@.push('.')) is None ==> asked == q.name),
            }
        }),
{
}

/// A network name is answered here, whatever the type: for every resolved
/// client and every name that some device has, a query of another type than A is
/// answered by success without answers and with one authority record while that
/// is switched on. It is recorded as local, nothing goes upstream, and the cache
/// is left alone.
pub proof fn network_names_without_data_stay_here(
    h: HandlerV,
    q: QueryV,
    w: World,
    found: CacheLookupV,
    f: FetchV,
    fetched: CacheV,
)
    requires
        screened(h, q, w.screening) is None,
        limited(h, q, w.rrl) is None,
        local_reply(h, q, w.resolution) is None,
        w.resolution is Some,
        !(w.network is Unknown),
        q.record_type != RecordType::A,
        h.nodata,
    ensures
        decided(h, q, w, found, f).body matches BodyV::Send(x) && x.code == ResponseCode::NoError
            && x.answers.len() == 0 && x.authority.len() == 1 && x.authority[0].data is SOA
            && x.authority[0].ttl == h.dynamic_ttl && !x.truncated,
        decided(h, q, w, found, f).rows.len() == 1,
        decided(h, q, w, found, f).rows[0].outcome == Outcome::Local,
        decided(h, q, w, found, f).rows[0].record_type == q.record_type,
        !decided(h, q, w, found, f).alarm,
        !reaches_cache(h, q, w),
        !reaches_upstream(h, q, w, found),
        cache_after(h, q, w, found, f, fetched) == h.cache,
{
}

/// An address query for a network name is answered here where the device has an
/// IPv4 address, by that address alone, and where it is offline, by a name error.
pub proof fn network_addresses_stay_here(
    h: HandlerV,
    q: QueryV,
    w: World,
    found: CacheLookupV,
    f: FetchV,
    fetched: CacheV,
)
    requires
        screened(h, q, w.screening) is None,
        limited(h, q, w.rrl) is None,
        local_reply(h, q, w.resolution) is None,
        w.resolution is Some,
        w.network is V4 || w.network is Offline,
        q.record_type == RecordType::A,
    ensures
        w.network matches NetworkName::V4(ip) ==> (decided(h, q, w, found, f).body matches
            BodyV::Send(x) && x.code == ResponseCode::NoError && x.answers.len() == 1
            && x.answers[0].name == q.name && x.answers[0].data == RDataV::A(ip@)
            && x.answers[0].ttl == h.dynamic_ttl && x.authority.len() == 0),
        w.network is Offline ==> (decided(h, q, w, found, f).body matches BodyV::Send(x)
            && x.code == ResponseCode::NXDomain && x.answers.len() == 0),
        decided(h, q, w, found, f).rows.len() == 1,
        decided(h, q, w, found, f).rows[0].outcome == Outcome::Local,
        !reaches_upstream(h, q, w, found),
        cache_after(h, q, w, found, f, fetched) == h.cache,
{
}

/// Network names have no say over the rest: a name that no device has, the name
/// of an IPv6 device asked for an A record, and every other type where that is
/// switched off, fare as if there were no network names.
pub proof fn other_names_pass_by_the_network(
    h: HandlerV,
    q: QueryV,
    w: World,
    found: CacheLookupV,
    f: FetchV,
)
    requires
        w.network is Unknown || (w.network is V6 && q.record_type == RecordType::A) || (!h.nodata
            && q.record_type != RecordType::A),
    ensures
        decided(h, q, w, found, f) == decided(
            h,
            q,
            World { network: NetworkName::Unknown, ..w },
            found,
            f,
        ),
        reaches_upstream(h, q, w, found) <==> reaches_upstream(
            h,
            q,
            World { network: NetworkName::Unknown, ..w },
            found,
        ),
{
}

/// What is screened is refused before anything else is asked: the reply is the
/// same whatever the rest of the world says, and nothing is looked up.
pub proof fn screening_comes_first(
    h: HandlerV,
    q: QueryV,
    w: World,
    v: World,
    found: CacheLookupV,
    f: FetchV,
)
    requires
        screened(h, q, w.screening) is Some,
        v.screening == w.screening,
        v.device == w.device,
    ensures
        decided(h, q, w, found, f) == decided(h, q, v, found, f),
        decided(h, q, w, found, f).body matches BodyV::Send(x) && x.code == ResponseCode::Refused
            && x.answers.len() == 0,
        decided(h, q, w, found, f).rows[0].client_name == text_view(w.device),
        !reaches_cache(h, q, w),
        !reaches_upstream(h, q, w, found),
{
}

/// An exhausted response budget is settled before any answer is looked for: the
/// reply is the same whatever records, filters or upstreams would say.
pub proof fn response_limits_come_second(
    h: HandlerV,
    q: QueryV,
    w: World,
    v: World,
    found: CacheLookupV,
    f: FetchV,
)
    requires
        screened(h, q, w.screening) is None,
        h.security is Some,
        h.security->0.rrl is Some,
        w.rrl != RrlAction::Allow,
        v.screening == w.screening,
        v.device == w.device,
        v.rrl == w.rrl,
    ensures
        decided(h, q, w, found, f) == decided(h, q, v, found, f),
        w.rrl == RrlAction::Drop ==> decided(h, q, w, found, f).body is Silence,
        w.rrl == RrlAction::Slip ==> (decided(h, q, w, found, f).body matches BodyV::Send(x)
            && x.truncated && x.answers.len() == 0),
        decided(h, q, w, found, f).rows[0].client_name == text_view(w.device),
        !reaches_cache(h, q, w),
        !reaches_upstream(h, q, w, found),
{
}

/// Where the answer to a passed query comes from: a fresh entry is served as it
/// is; without one the upstream is asked, and what it gave is served, whether or
/// not there was a stale entry; and the stale entry is served where the upstream
/// failed. All of this holds of a query whose inspection found nothing and that
/// nothing keeps from going upstream.
pub proof fn passed_queries_are_served(
    h: HandlerV,
    q: QueryV,
    w: World,
    found: CacheLookupV,
    f: FetchV,
)
    requires
        reaches_cache(h, q, w),
        inspected(cached_query(q, w), w).chain is None,
        inspected(cached_query(q, w), w).address is None,
    ensures
        ({
            let r = decided(h, q, w, found, f);
            let rewrote = w.rewrite is Some;
            let sought = q.record_type != RecordType::ANY && !w.rate_exceeded;
            &&& found matches CacheLookupV::Fresh(e) ==> r.body == BodyV::Serve(e, rewrote)
                && r.rows.len() == 1 && r.rows[0].outcome == Outcome::Cached && !reaches_upstream(
                h,
                q,
                w,
                found,
            )
            &&& !(found is Fresh) && sought ==> reaches_upstream(h, q, w, found)
            &&& !(found is Fresh) && sought && f is Got ==> r.body == BodyV::Serve(
                f->Got_0,
                rewrote,
            ) && r.rows.len() == 1 && r.rows[0].outcome == Outcome::Allowed
            &&& !(found is Fresh) && sought && f is Failed ==> match f->Failed_1 {
                DnsError::Uncacheable(code) => r.body matches BodyV::Send(x) && x.code == code
                    && x.answers.len() == 0,
                _ => match f->Failed_0 {
                    Some(e) => r.body == BodyV::Serve(e, rewrote) && r.alarm,
                    None => (r.body matches BodyV::Send(x) && x.code == ResponseCode::ServFail)
                        && r.alarm,
                },
            }
        }),
{
}

/// The name that a passed query is answered for is the target of the rewrite
/// where there is one, and the name of the question otherwise; the slot of the
/// cache goes by that name, by the type and the class of the question, and by
/// the subnet of the client.
pub proof fn slots_go_by_the_effective_name(q: QueryV, w: World)
    requires
        judged(q, w.resolution, w.ecs, w.verdict, w.source) is Ok,
    ensures
        ({
            let p = cached_query(q, w);
            &&& w.rewrite matches Some(t) ==> p.domain == t@ && p.rewrote_from == Some(q.domain)
            &&& w.rewrite is None ==> p.domain == q.domain && p.rewrote_from is None
            &&& p.query == q
            &&& p.ecs == w.ecs
            &&& slot(p) == crate::cache::key_for(p.domain, q.record_type, q.dns_class, w.ecs)
        }),
{
}

/// A query leaves every slot of the cache alone but its own: neither serving nor
/// fetching nor blocking touches another.
pub proof fn queries_touch_their_own_slot(
    h: HandlerV,
    q: QueryV,
    w: World,
    found: CacheLookupV,
    f: FetchV,
    fetched: CacheV,
    key: crate::cache::KeyV,
)
    requires
        reaches_upstream(h, q, w, found) ==> fetch_ends(
            h.cache,
            slot(cached_query(q, w)),
            stale_of(found),
            w.fetched,
            w.now,
            f,
            fetched,
        ),
        key != slot(cached_query(q, w)),
        ({
            let p = cached_query(q, w);
            key != crate::cache::key_for(
                crate::text::lowered(p.domain),
                p.query.record_type,
                p.query.dns_class,
                p.ecs,
            )
        }),
    ensures
        ({
            let after = cache_after(h, q, w, found, f, fetched);
            &&& after.entries.contains_key(key) <==> h.cache.entries.contains_key(key)
            &&& h.cache.entries.contains_key(key) ==> after.entries[key] == h.cache.entries[key]
        }),
{
}

/// What the upstream answered is kept: after a fetch whose answer succeeded or
/// said that there is no such name, and that no inspection blocks, the slot of
/// the query holds the records, the code and the time of the answer, and what is
/// served is that entry.
pub proof fn fetched_answers_are_kept(
    h: HandlerV,
    q: QueryV,
    w: World,
    found: CacheLookupV,
    f: FetchV,
    fetched: CacheV,
)
    requires
        reaches_upstream(h, q, w, found),
        crate::cache::answer_taken(
            cleared(h.cache, slot(cached_query(q, w)), stale_of(found)),
            slot(cached_query(q, w)),
            stale_of(found),
            w.fetched,
            w.now,
            f,
            fetched,
        ),
        w.fetched matches Ok(a) && (a.response_code == ResponseCode::NoError || a.response_code
            == ResponseCode::NXDomain),
        inspected(cached_query(q, w), w).chain is None,
        inspected(cached_query(q, w), w).address is None,
    ensures
        ({
            let after = cache_after(h, q, w, found, f, fetched);
            let key = slot(cached_query(q, w));
            let a = w.fetched->Ok_0;
            &&& after.entries.contains_key(key)
            &&& after.entries[key].records == record_views(a.records@)
            &&& after.entries[key].code == a.response_code
            &&& after.entries[key].created_at == w.now
            &&& decided(h, q, w, found, f).body == BodyV::Serve(
                after.entries[key],
                w.rewrite is Some,
            )
        }),
{
}

/// Nothing that is decided before the cache changes it.
pub proof fn early_replies_leave_the_cache(
    h: HandlerV,
    q: QueryV,
    w: World,
    found: CacheLookupV,
    f: FetchV,
    fetched: CacheV,
)
    requires
        screened(h, q, w.screening) is Some || limited(h, q, w.rrl) is Some || local_reply(
            h,
            q,
            w.resolution,
        ) is Some || network_reply(h, q, w.resolution, w.network) is Some || judged(
            q,
            w.resolution,
            w.ecs,
            w.verdict,
            w.source,
        ) is Err || q.record_type == RecordType::ANY && !(found is Fresh),
    ensures
        cache_after(h, q, w, found, f, fetched) == h.cache,
        !reaches_upstream(h, q, w, found),
{
}

} // verus!
