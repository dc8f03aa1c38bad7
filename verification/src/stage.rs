//! The query path step by step: what a query waits for, and what the answer to
//! that leads to. Whoever runs the steps asks the world and hands back what it
//! said.
use std::sync::Arc;
use vstd::prelude::*;
use crate::cache::{
    answer_kept, answer_outcome, classified, cleared, fetch_view, key_view, seen, stale_of, stale_view,
    CacheEntry, CacheKey, CacheLookup, CacheLookupV, EntryV, FetchFailure, FetchV, Fetched, KeyV,
};
use crate::cidr::{allowed, vouched};
use crate::client_subnet::EcsPrefix;
use crate::error::DnsError;
use crate::filter::{BlockSource, FilterResult};
use crate::handler::{
    admission, fetch_block, forward_name, fresh_reply, inspected_entry, inspection_block,
    intercepted, judged, limited, local_reply, name_policy, network_reply, policy_allows,
    rate_counted, resolution_view, rewrite, rewritten, screened, settled, slot, to_inspect,
    with_cache, without_slot, ForwardHandler, HandlerV, Inspection, NetworkName, Passed, PassedV,
    Query, QueryV, Question, Resolution,
};
use crate::net::IpAddr;
use crate::outcome::{named, text_view, Reply, ReplyV};
use crate::record::{wire_name, Name, NameV, RecordType};
use crate::security::{PreQueryFacts, RrlAction};

verus! {

// ── Stages ────────────────────────────────────────────────────────────

/// What a query waits for, and what it has come by so far.
pub enum Stage {
    /// The checks on the shape and the rate of the query.
    Screening { query: Query },
    /// A reply is ready but for the name of the client's device.
    Naming { reply: Reply },
    /// Response rate limiting. Some clients have a budget of their own.
    Limiting { query: Query, per_client: bool },
    /// The profile of the client.
    Resolving { query: Query },
    /// A device of that name on the network.
    Networking { query: Query, resolution: Option<Resolution>, ecs: Option<EcsPrefix> },
    /// The verdict of the profile on the name.
    Evaluating { query: Query, resolution: Option<Resolution>, ecs: Option<EcsPrefix> },
    /// The name that a rewrite rule gives the query.
    Rewriting { passed: Passed, resolution: Option<Resolution> },
    /// The inspection of a cached answer. The policy may allow the name.
    Inspecting { passed: Passed, entry: Arc<CacheEntry>, allowed: bool },
    /// The tunneling budget, where the query counts against it.
    Counting {
        passed: Passed,
        key: CacheKey,
        stale: Option<Arc<CacheEntry>>,
        allowed: bool,
        counted: bool,
    },
    /// The answer of the upstream to a name.
    Fetching {
        passed: Passed,
        key: CacheKey,
        stale: Option<Arc<CacheEntry>>,
        allowed: bool,
        name: Name,
    },
    /// The inspection of the entry that a fetch ended with.
    Settling {
        passed: Passed,
        entry: Arc<CacheEntry>,
        result: Result<Arc<CacheEntry>, FetchFailure>,
        allowed: bool,
    },
}

/// What the world says to a query that waits. The times are those at which it
/// said so.
pub enum Event {
    Screened(PreQueryFacts),
    Named(Option<String>),
    Limited(RrlAction),
    Resolved(Option<Resolution>, Option<EcsPrefix>),
    Networked(NetworkName),
    Evaluated(FilterResult, Option<BlockSource>),
    Rewritten(Option<String>, u128),
    Inspected(Inspection),
    Counted(bool, u128),
    Answered(Result<Fetched, DnsError>, u128),
}

/// Where a query is after a step.
pub enum Turn {
    /// It waits.
    Ask(Stage),
    /// It has its reply. A query that was served out of the cache comes along,
    /// so that its entry can be refreshed.
    Done(Reply, Option<Passed>),
}

/// A stage as mathematical values.
pub enum StageV {
    Screening(QueryV),
    Naming(ReplyV),
    Limiting(QueryV, bool),
    Resolving(QueryV),
    Networking(QueryV, Option<Resolution>, Option<EcsPrefix>),
    Evaluating(QueryV, Option<Resolution>, Option<EcsPrefix>),
    Rewriting(PassedV, Option<Resolution>),
    Inspecting(PassedV, EntryV, bool),
    Counting(PassedV, KeyV, Option<EntryV>, bool, bool),
    Fetching(PassedV, KeyV, Option<EntryV>, bool, NameV),
    Settling(PassedV, EntryV, FetchV, bool),
}

/// A turn as mathematical values.
pub enum TurnV {
    Ask(StageV),
    Done(ReplyV, Option<PassedV>),
}

impl View for Stage {
    type V = StageV;

    open spec fn view(&self) -> StageV {
        match *self {
            Stage::Screening { query } => StageV::Screening(query@),
            Stage::Naming { reply } => StageV::Naming(reply@),
            Stage::Limiting { query, per_client } => StageV::Limiting(query@, per_client),
            Stage::Resolving { query } => StageV::Resolving(query@),
            Stage::Networking { query, resolution, ecs } => StageV::Networking(
                query@,
                resolution,
                ecs,
            ),
            Stage::Evaluating { query, resolution, ecs } => StageV::Evaluating(
                query@,
                resolution,
                ecs,
            ),
            Stage::Rewriting { passed, resolution } => StageV::Rewriting(passed@, resolution),
            Stage::Inspecting { passed, entry, allowed } => StageV::Inspecting(
                passed@,
                (*entry)@,
                allowed,
            ),
            Stage::Counting { passed, key, stale, allowed, counted } => StageV::Counting(
                passed@,
                key_view(key),
                stale_view(stale),
                allowed,
                counted,
            ),
            Stage::Fetching { passed, key, stale, allowed, name } => StageV::Fetching(
                passed@,
                key_view(key),
                stale_view(stale),
                allowed,
                name@,
            ),
            Stage::Settling { passed, entry, result, allowed } => StageV::Settling(
                passed@,
                (*entry)@,
                fetch_view(result),
                allowed,
            ),
        }
    }
}

impl View for Turn {
    type V = TurnV;

    open spec fn view(&self) -> TurnV {
        match *self {
            Turn::Ask(stage) => TurnV::Ask(stage@),
            Turn::Done(reply, served) => TurnV::Done(
                reply@,
                match served {
                    Some(p) => Some(p@),
                    None => None,
                },
            ),
        }
    }
}

// ── Steps ─────────────────────────────────────────────────────────────

/// The first turn of a request, and the handler after it.
pub open spec fn begun(
    h: HandlerV,
    client: IpAddr,
    gate_open: bool,
    question: Option<Question>,
    t: TurnV,
    after: HandlerV,
) -> bool {
    &&& t == match admission(h, client, gate_open, question) {
        Ok(q) => TurnV::Ask(StageV::Screening(q)),
        Err(reply) => TurnV::Done(reply, None),
    }
    &&& after == HandlerV { warned: h.warned || (allowed(client, h.allow_from) && !gate_open), ..h }
}

/// A reply, or the stage that goes on without one.
pub open spec fn replied_or(reply: Option<ReplyV>, otherwise: StageV) -> TurnV {
    match reply {
        Some(r) => TurnV::Done(r, None),
        None => TurnV::Ask(otherwise),
    }
}

/// A reply that waits for the client's name, or the stage that goes on without.
pub open spec fn named_or(reply: Option<ReplyV>, otherwise: StageV) -> TurnV {
    match reply {
        Some(r) => TurnV::Ask(StageV::Naming(r)),
        None => TurnV::Ask(otherwise),
    }
}

/// The turn after a lookup in the cache.
pub open spec fn looked_up(h: HandlerV, p: PassedV, allowed: bool, found: CacheLookupV) -> TurnV {
    match found {
        CacheLookupV::Fresh(e) => TurnV::Ask(StageV::Inspecting(p, e, allowed)),
        _ => TurnV::Ask(
            StageV::Counting(
                p,
                slot(p),
                stale_of(found),
                allowed,
                rate_counted(h, p, found is Miss),
            ),
        ),
    }
}

/// An inspection that found nothing.
pub open spec fn clean() -> Inspection {
    Inspection { chain: None, address: None }
}

/// The turn after a fetch: what it ended with is inspected first where there
/// is something to inspect.
pub open spec fn fetched(h: HandlerV, p: PassedV, f: FetchV, allowed: bool) -> TurnV {
    match inspected_entry(f) {
        Some(e) => TurnV::Ask(StageV::Settling(p, e, f, allowed)),
        None => TurnV::Done(settled(h, p, f, clean()), None),
    }
}

/// The turn that an event leads to, and the handler after it. An event that a
/// query does not wait for leaves everything as it was.
pub open spec fn next(h: HandlerV, s: StageV, e: Event, t: TurnV, after: HandlerV) -> bool {
    match (s, e) {
        (StageV::Screening(q), Event::Screened(facts)) => {
            &&& after == h
            &&& t == named_or(
                screened(h, q, facts),
                StageV::Limiting(q, vouched(q.client, h.allow_from)),
            )
        },
        (StageV::Naming(reply), Event::Named(device)) => {
            &&& after == h
            &&& t == TurnV::Done(named(reply, text_view(device)), None)
        },
        (StageV::Limiting(q, _), Event::Limited(action)) => {
            &&& after == h
            &&& t == named_or(limited(h, q, action), StageV::Resolving(q))
        },
        (StageV::Resolving(q), Event::Resolved(resolution, ecs)) => {
            &&& after == h
            &&& t == replied_or(
                local_reply(h, q, resolution),
                StageV::Networking(q, resolution, ecs),
            )
        },
        (StageV::Networking(q, resolution, ecs), Event::Networked(network)) => {
            &&& after == h
            &&& t == replied_or(
                network_reply(h, q, resolution, network),
                StageV::Evaluating(q, resolution, ecs),
            )
        },
        (StageV::Evaluating(q, resolution, ecs), Event::Evaluated(verdict, source)) => {
            &&& after == h
            &&& t == match judged(q, resolution, ecs, verdict, source) {
                Ok(p) => TurnV::Ask(StageV::Rewriting(p, resolution)),
                Err(reply) => TurnV::Done(reply, None),
            }
        },
        (StageV::Rewriting(judged_query, resolution), Event::Rewritten(target, now)) => {
            let p = rewritten(judged_query, text_view(target));
            &&& after == h
            &&& exists|found: CacheLookupV|
                #[trigger] seen(h.cache, slot(p), now, found) && t == looked_up(
                    h,
                    p,
                    policy_allows(p.domain, resolution),
                    found,
                )
        },
        (StageV::Inspecting(p, entry, _), Event::Inspected(found)) => {
            let blocked = inspection_block(p, found, h.audits) is Some;
            &&& after == if blocked {
                with_cache(h, without_slot(h.cache, p))
            } else {
                h
            }
            &&& t == TurnV::Done(
                fresh_reply(h, p, entry, found),
                if blocked {
                    None
                } else {
                    Some(p)
                },
            )
        },
        (StageV::Counting(p, key, stale, allowed, _), Event::Counted(over, now)) => {
            match intercepted(h, p, stale is None, over) {
                Some(reply) => after == h && t == TurnV::Done(reply, None),
                None => {
                    ||| {
                        &&& stale is None
                        &&& h.cache.entries.contains_key(key)
                        &&& !(classified(h.cache.entries[key], h.cache.stale_secs, now) is Miss)
                        &&& after == h
                        &&& t == fetched(h, p, FetchV::Got(h.cache.entries[key]), allowed)
                    }
                    ||| {
                        &&& after == with_cache(h, cleared(h.cache, key, stale))
                        &&& t == TurnV::Ask(
                            StageV::Fetching(
                                p,
                                key,
                                stale,
                                allowed,
                                forward_name(p.domain, p.rewrote_from is Some, p.query.name),
                            ),
                        )
                    }
                },
            }
        },
        (StageV::Fetching(p, key, stale, allowed, _), Event::Answered(answer, now)) => {
            &&& after == with_cache(h, answer_kept(h.cache, key, answer, now))
            &&& t == fetched(after, p, answer_outcome(h.cache, stale, answer, now), allowed)
        },
        (StageV::Settling(p, _, f, _), Event::Inspected(found)) => {
            &&& after == if fetch_block(h, p, f, found) is Some {
                with_cache(h, without_slot(h.cache, p))
            } else {
                h
            }
            &&& t == TurnV::Done(settled(h, p, f, found), None)
        },
        _ => after == h && t == TurnV::Ask(s),
    }
}

/// Takes in a request.
pub fn begin(
    handler: &mut ForwardHandler,
    client: IpAddr,
    gate_open: bool,
    question: Option<Question>,
) -> (r: Turn)
    requires
        old(handler).wf(),
        question matches Some(q) ==> wire_name(q.name@),
    ensures
        final(handler).wf(),
        begun(old(handler)@, client, gate_open, question, r@, final(handler)@),
{
    match handler.receive(client, gate_open, question) {
        Ok(query) => Turn::Ask(Stage::Screening { query }),
        Err(reply) => Turn::Done(reply, None),
    }
}

/// Goes on from what a fetch ended with.
fn after_fetch(
    handler: &mut ForwardHandler,
    passed: Passed,
    result: Result<Arc<CacheEntry>, FetchFailure>,
    allowed: bool,
) -> (r: Turn)
    requires
        old(handler).wf(),
    ensures
        final(handler).wf(),
        final(handler)@ == old(handler)@,
        r@ == fetched(old(handler)@, passed@, fetch_view(result), allowed),
{
    match to_inspect(&result) {
        Some(entry) => Turn::Ask(Stage::Settling { passed, entry, result, allowed }),
        None => {
            let nothing = Inspection { chain: None, address: None };
            Turn::Done(handler.settle(&passed, result, &nothing), None)
        },
    }
}

/// Takes a query on by one step.
pub fn advance(handler: &mut ForwardHandler, stage: Stage, event: Event) -> (r: Turn)
    requires
        old(handler).wf(),
        event matches Event::Resolved(Some(x), _) ==> x.wf(),
    ensures
        final(handler).wf(),
        next(old(handler)@, stage@, event, r@, final(handler)@),
{
    let ghost h = handler@;
    match (stage, event) {
        (Stage::Screening { query }, Event::Screened(facts)) => match handler.screen(
            &query,
            facts,
        ) {
            Some(reply) => Turn::Ask(Stage::Naming { reply }),
            None => {
                let per_client = handler.rrl_per_client(&query);
                Turn::Ask(Stage::Limiting { query, per_client })
            },
        },
        (Stage::Naming { reply }, Event::Named(device)) => Turn::Done(
            reply.with_client_name(&device),
            None,
        ),
        (Stage::Limiting { query, per_client: _ }, Event::Limited(action)) => match handler.limit(
            &query,
            action,
        ) {
            Some(reply) => Turn::Ask(Stage::Naming { reply }),
            None => Turn::Ask(Stage::Resolving { query }),
        },
        (Stage::Resolving { query }, Event::Resolved(resolution, ecs)) => {
            match handler.answer_locally(&query, borrowed(&resolution)) {
                Some(reply) => Turn::Done(reply, None),
                None => Turn::Ask(Stage::Networking { query, resolution, ecs }),
            }
        },
        (Stage::Networking { query, resolution, ecs }, Event::Networked(network)) => {
            match handler.answer_network_name(&query, borrowed(&resolution), network) {
                Some(reply) => Turn::Done(reply, None),
                None => Turn::Ask(Stage::Evaluating { query, resolution, ecs }),
            }
        },
        (Stage::Evaluating { query, resolution, ecs }, Event::Evaluated(verdict, source)) => {
            match handler.judge(query, borrowed(&resolution), ecs, verdict, source) {
                Ok(passed) => Turn::Ask(Stage::Rewriting { passed, resolution }),
                Err(reply) => Turn::Done(reply, None),
            }
        },
        (Stage::Rewriting { passed, resolution }, Event::Rewritten(target, now)) => {
            let passed = rewrite(passed, target);
            let allowed = name_policy(&passed, borrowed(&resolution));
            let (key, lookup) = handler.look_up(&passed, now);
            let ghost found = lookup@;
            proof {
                assert(seen(handler@.cache, slot(passed@), now, found));
            }
            let stale = match lookup {
                CacheLookup::Fresh(entry) => {
                    let turn = Turn::Ask(Stage::Inspecting { passed, entry, allowed });
                    proof {
                        assert(turn@ == looked_up(h, passed@, allowed, found));
                    }
                    return turn;
                },
                CacheLookup::Stale(entry) => Some(entry),
                CacheLookup::Miss => None,
            };
            let counted = handler.counts_rate(&passed, stale.is_none());
            let turn = Turn::Ask(Stage::Counting { passed, key, stale, allowed, counted });
            proof {
                assert(turn@ == looked_up(h, passed@, allowed, found));
            }
            turn
        },
        (Stage::Inspecting { passed, entry, allowed: _ }, Event::Inspected(found)) => {
            let blocked = found.chain.is_some() || found.address.is_some();
            let reply = handler.serve_fresh(&passed, entry, &found);
            let served = if blocked {
                None
            } else {
                Some(passed)
            };
            Turn::Done(reply, served)
        },
        (
            Stage::Counting { passed, key, stale, allowed, counted: _ },
            Event::Counted(over, now),
        ) => {
            match handler.intercept(&passed, stale.is_none(), over) {
                Some(reply) => {
                    return Turn::Done(reply, None);
                },
                None => {},
            }
            match handler.begin_fetch(&key, stale.is_some(), now) {
                Some(entry) => {
                    after_fetch(handler, passed, Ok(entry), allowed)
                },
                None => {
                    let name = handler.upstream_name(&passed);
                    Turn::Ask(Stage::Fetching { passed, key, stale, allowed, name })
                },
            }
        },
        (
            Stage::Fetching { passed, key, stale, allowed, name: _ },
            Event::Answered(answer, now),
        ) => {
            let result = handler.end_fetch(key, stale, answer, now);
            after_fetch(handler, passed, result, allowed)
        },
        (Stage::Settling { passed, entry: _, result, allowed: _ }, Event::Inspected(found)) => {
            Turn::Done(handler.settle(&passed, result, &found), None)
        },
        (stage, _) => Turn::Ask(stage),
    }
}

fn borrowed(resolution: &Option<Resolution>) -> (r: Option<&Resolution>)
    ensures
        resolution_view(r) == *resolution,
        r is Some == resolution is Some,
{
    match resolution {
        Some(x) => Some(x),
        None => None,
    }
}

// ── Laws ──────────────────────────────────────────────────────────────

/// The event is the one that a query at the stage waits for.
pub open spec fn awaited(s: StageV, e: Event) -> bool {
    match s {
        StageV::Screening(_) => e is Screened,
        StageV::Naming(_) => e is Named,
        StageV::Limiting(..) => e is Limited,
        StageV::Resolving(_) => e is Resolved,
        StageV::Networking(..) => e is Networked,
        StageV::Evaluating(..) => e is Evaluated,
        StageV::Rewriting(..) => e is Rewritten,
        StageV::Inspecting(..) => e is Inspected,
        StageV::Counting(..) => e is Counted,
        StageV::Fetching(..) => e is Answered,
        StageV::Settling(..) => e is Inspected,
    }
}

/// An event that a query does not wait for changes nothing.
pub proof fn stray_events_change_nothing(
    h: HandlerV,
    s: StageV,
    e: Event,
    t: TurnV,
    after: HandlerV,
)
    requires
        next(h, s, e, t, after),
        !awaited(s, e),
    ensures
        t == TurnV::Ask(s),
        after == h,
{
}

/// A query goes through the stages in one order, and none is passed over: each
/// stage leads to a reply or to the next one.
pub proof fn stages_come_in_order(h: HandlerV, s: StageV, e: Event, t: TurnV, after: HandlerV)
    requires
        next(h, s, e, t, after),
        awaited(s, e),
    ensures
        match s {
            StageV::Screening(q) => t is Ask && (t->Ask_0 is Naming || (t->Ask_0 matches
                StageV::Limiting(x, _) && x == q)),
            StageV::Naming(_) => t is Done,
            StageV::Limiting(q, _) => t is Ask && (t->Ask_0 is Naming || t->Ask_0
                == StageV::Resolving(q)),
            StageV::Resolving(q) => t is Done || (t->Ask_0 matches StageV::Networking(x, _, _) && x
                == q),
            StageV::Networking(q, r, c) => t is Done || t->Ask_0 == StageV::Evaluating(q, r, c),
            StageV::Evaluating(q, r, _) => t is Done || (t->Ask_0 matches StageV::Rewriting(x, y)
                && x.query == q && y == r),
            StageV::Rewriting(..) => t is Ask && (t->Ask_0 is Inspecting || t->Ask_0 is Counting),
            StageV::Inspecting(..) => t is Done,
            StageV::Counting(..) => t is Done || t->Ask_0 is Fetching || t->Ask_0 is Settling,
            StageV::Fetching(..) => t is Done || t->Ask_0 is Settling,
            StageV::Settling(..) => t is Done,
        },
        s is Screening || s is Naming || s is Limiting || s is Resolving || s is Networking || s
            is Evaluating || s is Rewriting ==> after == h,
{
}

/// What the world is asked is what the query needs: a client has a response
/// budget of its own exactly if the access list names it; the upstream is asked
/// for the name after a rewrite, where that reads as one; a query counts against
/// the tunneling budget only where it is new to the cache; and the exception of
/// the policy that goes with an inspection is that of the name after a rewrite.
pub proof fn stages_carry_what_is_asked(
    h: HandlerV,
    s: StageV,
    e: Event,
    t: TurnV,
    after: HandlerV,
)
    requires
        next(h, s, e, t, after),
        awaited(s, e),
        t is Ask,
    ensures
        s is Screening ==> (t->Ask_0 matches StageV::Limiting(q, own) ==> own == vouched(
            q.client,
            h.allow_from,
        )),
        (s is Rewriting && t->Ask_0 is Counting) ==> ({
            let p = t->Ask_0->Counting_0;
            let stale = t->Ask_0->Counting_2;
            let counted = t->Ask_0->Counting_4;
            &&& counted ==> stale is None && p.query.record_type != RecordType::ANY
                && h.security is Some
            &&& t->Ask_0->Counting_1 == slot(p)
            &&& t->Ask_0->Counting_3 == policy_allows(p.domain, s->Rewriting_1)
        }),
        (s is Rewriting && t->Ask_0 is Inspecting) ==> t->Ask_0->Inspecting_2 == policy_allows(
            t->Ask_0->Inspecting_0.domain,
            s->Rewriting_1,
        ),
        (s is Counting && t->Ask_0 is Fetching) ==> ({
            let p = s->Counting_0;
            &&& t->Ask_0->Fetching_0 == p
            &&& t->Ask_0->Fetching_1 == s->Counting_1
            &&& t->Ask_0->Fetching_2 == s->Counting_2
            &&& t->Ask_0->Fetching_3 == s->Counting_3
            &&& p.rewrote_from is None ==> t->Ask_0->Fetching_4 == p.query.name
            &&& s->Counting_2 is Some ==> !after.cache.entries.contains_key(s->Counting_1)
        }),
        (s is Fetching && t->Ask_0 is Settling) ==> t->Ask_0->Settling_0 == s->Fetching_0
            && t->Ask_0->Settling_3 == s->Fetching_3,
{
}

/// A query that was served out of the cache comes along with its reply, so that
/// its entry can be refreshed; no other does, and a blocked one does not either.
pub proof fn served_queries_may_be_refreshed(
    h: HandlerV,
    s: StageV,
    e: Event,
    t: TurnV,
    after: HandlerV,
)
    requires
        next(h, s, e, t, after),
        awaited(s, e),
        t is Done,
    ensures
        t->Done_1 is Some <==> s is Inspecting && (e matches Event::Inspected(found) && found.chain
            is None && found.address is None),
        t->Done_1 matches Some(p) ==> p == s->Inspecting_0 && after == h,
{
}

} // verus!
