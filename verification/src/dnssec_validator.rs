//! What a DNSSEC verdict does to a response.
//!
//! The validator decides step by step: each step names the work that is left
//! (a cached verdict to look up, a signed answer to fetch, a chain to walk),
//! and takes what that work found.
use vstd::prelude::*;
use crate::settings::{DnssecConfig, DnssecMode};

verus! {

/// What the response path does with one answer.
#[derive(Clone, Copy, Debug, PartialEq, Eq, Structural)]
pub enum DnssecDecision {
    /// Serve the answer without the AD bit.
    Serve,
    /// Serve the answer with the AD bit.
    SetAd,
    /// Answer SERVFAIL instead.
    Servfail,
}

/// Why a chain of trust ends unsigned.
#[derive(Clone, Copy, Debug, PartialEq, Eq, Structural)]
pub enum InsecureReason {
    UnsignedDelegation,
    OutOfScopeAlgorithm,
}

/// Why a chain of trust is broken.
#[derive(Clone, Copy, Debug, PartialEq, Eq, Structural)]
pub enum ChainBogus {
    DsCoversNoKey,
    DnskeyMissing,
    /// Any other defect, by its number.
    Other(u16),
}

/// Why a chain of trust could not be judged.
#[derive(Clone, Copy, Debug, PartialEq, Eq, Structural)]
pub enum Indeterminate {
    MaxChainDepthExceeded,
    MaxQueriesExceeded,
    MaxNsec3IterationsExceeded,
    MaxSignatureVerificationsExceeded,
    DenialProofRequired,
    FetchFailed,
    NoAnchorMatch,
}

/// The verdict of a walk along the chain of trust.
#[derive(Clone, Copy, Debug, PartialEq, Eq, Structural)]
pub enum ChainResult {
    Secure,
    Insecure(InsecureReason),
    Bogus(ChainBogus),
    Indeterminate(Indeterminate),
}

/// The level that a verdict is logged at.
#[derive(Clone, Copy, Debug, PartialEq, Eq, Structural)]
pub enum Level {
    WARN,
    DEBUG,
}

/// The reason is a failure to obtain material, not a property of the zone.
pub open spec fn transient(reason: Indeterminate) -> bool {
    reason is FetchFailed || reason is NoAnchorMatch
}

/// The policy table of validation.
pub open spec fn decision_for(verdict: ChainResult, mode: DnssecMode) -> DnssecDecision {
    if mode != DnssecMode::Validate {
        DnssecDecision::Serve
    } else {
        match verdict {
            ChainResult::Secure => DnssecDecision::SetAd,
            ChainResult::Insecure(_) => DnssecDecision::Serve,
            ChainResult::Bogus(_) => DnssecDecision::Servfail,
            ChainResult::Indeterminate(reason) => if transient(reason) {
                DnssecDecision::Serve
            } else {
                DnssecDecision::Servfail
            },
        }
    }
}

/// A verdict raises an alarm: a broken chain, a tripped limit, or anchors
/// that match no root key. A failed fetch alone does not.
pub open spec fn alarming(verdict: ChainResult) -> bool {
    match verdict {
        ChainResult::Bogus(_) => true,
        ChainResult::Indeterminate(reason) => !(reason is FetchFailed),
        _ => false,
    }
}

/// The level that a verdict is logged at.
pub open spec fn level_for(verdict: ChainResult) -> Level {
    if alarming(verdict) {
        Level::WARN
    } else {
        Level::DEBUG
    }
}

/// The verdict is stable enough to be kept.
pub open spec fn kept_verdict(verdict: ChainResult) -> bool {
    !(verdict is Indeterminate)
}

/// Whether a reason is transient.
pub fn is_transient(reason: Indeterminate) -> (r: bool)
    ensures
        r == transient(reason),
{
    match reason {
        Indeterminate::FetchFailed => true,
        Indeterminate::NoAnchorMatch => true,
        _ => false,
    }
}

/// The level that a verdict is logged at.
pub fn log_level(verdict: ChainResult) -> (r: Level)
    ensures
        r == level_for(verdict),
{
    match verdict {
        ChainResult::Bogus(_) => Level::WARN,
        ChainResult::Indeterminate(reason) => match reason {
            Indeterminate::NoAnchorMatch => Level::WARN,
            _ => {
                if is_transient(reason) {
                    Level::DEBUG
                } else {
                    Level::WARN
                }
            },
        },
        ChainResult::Secure => Level::DEBUG,
        ChainResult::Insecure(_) => Level::DEBUG,
    }
}

/// Whether a verdict is stable enough to be kept.
pub fn is_cacheable(verdict: ChainResult) -> (r: bool)
    ensures
        r == kept_verdict(verdict),
{
    match verdict {
        ChainResult::Indeterminate(_) => false,
        _ => true,
    }
}

/// The decision for a verdict.
pub fn map_verdict(verdict: ChainResult, mode: DnssecMode) -> (r: DnssecDecision)
    ensures
        r == decision_for(verdict, mode),
{
    match mode {
        DnssecMode::LogOnly => DnssecDecision::Serve,
        DnssecMode::Off => DnssecDecision::Serve,
        DnssecMode::Validate => match verdict {
            ChainResult::Secure => DnssecDecision::SetAd,
            ChainResult::Insecure(_) => DnssecDecision::Serve,
            ChainResult::Bogus(_) => DnssecDecision::Servfail,
            ChainResult::Indeterminate(reason) => {
                if is_transient(reason) {
                    DnssecDecision::Serve
                } else {
                    DnssecDecision::Servfail
                }
            },
        },
    }
}

/// The clock of the validator.
pub open spec fn unix_clock(since_epoch: Option<u64>) -> u32 {
    match since_epoch {
        Some(secs) => secs as u32,
        None => 0,
    }
}

/// The validator's clock in Unix seconds, from the seconds since the epoch
/// that the system clock shows; zero for a clock before the epoch.
pub fn now_unix_secs(since_epoch: Option<u64>) -> (r: u32)
    ensures
        r == unix_clock(since_epoch),
{
    match since_epoch {
        Some(secs) => #[verifier::truncate]
        (secs as u32),
        None => 0,
    }
}

/// What the validator reads of a query and of the answer about to be served.
#[derive(Clone, Copy, Debug, PartialEq, Eq, Structural)]
pub struct AnswerFacts {
    /// The client set the CD bit.
    pub checking_disabled: bool,
    /// A rewrite fired on the query.
    pub rewrote: bool,
    /// The answer is negative.
    pub is_negative: bool,
    /// The request holds a query.
    pub has_query: bool,
}

/// What the fetch of a signed answer brought.
#[derive(Clone, Copy, Debug, PartialEq, Eq, Structural)]
pub enum SignedFetch {
    /// The fetch failed.
    Failed,
    /// An answer without a signature.
    Unsigned,
    /// An answer with a signature.
    Signed,
}

/// What is left to do for a decision.
#[derive(Clone, Copy, Debug, PartialEq, Eq, Structural)]
pub enum DnssecStep {
    /// Nothing: no verdict is needed.
    Done(DnssecDecision),
    /// Look up a kept verdict for the queried name and type.
    LookUp,
    /// Fetch the signed answer.
    Fetch,
    /// Walk the chain of trust from the signer of the answer.
    Walk,
    /// Log the verdict, keep it where `keep` is set, and act on the decision.
    Conclude { verdict: ChainResult, keep: bool, decision: DnssecDecision },
}

/// Validation is bypassed: the client opted out, the answer is not for the
/// queried name, or there is nothing to validate.
pub open spec fn bypassed(facts: AnswerFacts) -> bool {
    facts.checking_disabled || facts.rewrote || facts.is_negative || !facts.has_query
}

/// The verdict that a fetch settles by itself.
pub open spec fn settled_by_fetch(fetched: SignedFetch) -> Option<ChainResult> {
    match fetched {
        SignedFetch::Failed => Some(ChainResult::Indeterminate(Indeterminate::FetchFailed)),
        SignedFetch::Unsigned => Some(ChainResult::Insecure(InsecureReason::UnsignedDelegation)),
        SignedFetch::Signed => None,
    }
}

/// The verdict for a query, given what is kept, what a fetch would bring and
/// what a walk would find.
pub open spec fn verdict_for(
    kept: Option<ChainResult>,
    fetched: SignedFetch,
    walked: ChainResult,
) -> ChainResult {
    match kept {
        Some(v) => v,
        None => match settled_by_fetch(fetched) {
            Some(v) => v,
            None => walked,
        },
    }
}

/// The first step for an answer.
pub open spec fn first_step(facts: AnswerFacts) -> DnssecStep {
    if bypassed(facts) {
        DnssecStep::Done(DnssecDecision::Serve)
    } else {
        DnssecStep::LookUp
    }
}

/// The step after a fresh verdict was reached.
pub open spec fn after_walk(verdict: ChainResult, mode: DnssecMode) -> DnssecStep {
    DnssecStep::Conclude {
        verdict,
        keep: kept_verdict(verdict),
        decision: decision_for(verdict, mode),
    }
}

/// The step after the lookup of a kept verdict.
pub open spec fn after_lookup(kept: Option<ChainResult>, mode: DnssecMode) -> DnssecStep {
    match kept {
        Some(verdict) => DnssecStep::Conclude {
            verdict,
            keep: false,
            decision: decision_for(verdict, mode),
        },
        None => DnssecStep::Fetch,
    }
}

/// The step after the fetch of the signed answer.
pub open spec fn after_fetch(fetched: SignedFetch, mode: DnssecMode) -> DnssecStep {
    match settled_by_fetch(fetched) {
        Some(verdict) => after_walk(verdict, mode),
        None => DnssecStep::Walk,
    }
}

/// The decision for an answer, given what every step would bring.
pub open spec fn judged_answer(
    facts: AnswerFacts,
    kept: Option<ChainResult>,
    fetched: SignedFetch,
    walked: ChainResult,
    mode: DnssecMode,
) -> DnssecDecision {
    if bypassed(facts) {
        DnssecDecision::Serve
    } else {
        decision_for(verdict_for(kept, fetched, walked), mode)
    }
}

/// The response-path validator.
pub struct DnssecValidator {
    cfg: DnssecConfig,
}

impl View for DnssecValidator {
    type V = DnssecConfig;

    closed spec fn view(&self) -> DnssecConfig {
        self.cfg
    }
}

impl DnssecValidator {
    /// A validator with the given configuration.
    pub fn new(cfg: &DnssecConfig) -> (r: DnssecValidator)
        ensures
            r@ == *cfg,
    {
        DnssecValidator { cfg: *cfg }
    }

    /// The first step for an answer.
    pub fn begin(&self, facts: AnswerFacts) -> (r: DnssecStep)
        ensures
            r == first_step(facts),
    {
        if facts.checking_disabled {
            return DnssecStep::Done(DnssecDecision::Serve);
        }
        if facts.rewrote {
            return DnssecStep::Done(DnssecDecision::Serve);
        }
        if facts.is_negative {
            return DnssecStep::Done(DnssecDecision::Serve);
        }
        if !facts.has_query {
            return DnssecStep::Done(DnssecDecision::Serve);
        }
        DnssecStep::LookUp
    }

    /// The step after the lookup of a kept verdict. A kept verdict needs no
    /// fetch and is not kept again.
    pub fn on_lookup(&self, kept: Option<ChainResult>) -> (r: DnssecStep)
        ensures
            r == after_lookup(kept, self@.mode),
    {
        match kept {
            Some(verdict) => DnssecStep::Conclude {
                verdict,
                keep: false,
                decision: map_verdict(verdict, self.cfg.mode),
            },
            None => DnssecStep::Fetch,
        }
    }

    /// The step after the fetch of the signed answer.
    pub fn on_fetch(&self, fetched: SignedFetch) -> (r: DnssecStep)
        ensures
            r == after_fetch(fetched, self@.mode),
    {
        match fetched {
            SignedFetch::Failed => self.on_walk(
                ChainResult::Indeterminate(Indeterminate::FetchFailed),
            ),
            SignedFetch::Unsigned => self.on_walk(
                ChainResult::Insecure(InsecureReason::UnsignedDelegation),
            ),
            SignedFetch::Signed => DnssecStep::Walk,
        }
    }

    /// The step after a fresh verdict was reached.
    pub fn on_walk(&self, verdict: ChainResult) -> (r: DnssecStep)
        ensures
            r == after_walk(verdict, self@.mode),
    {
        DnssecStep::Conclude {
            verdict,
            keep: is_cacheable(verdict),
            decision: map_verdict(verdict, self.cfg.mode),
        }
    }

    /// The decision for an answer, given what every step would bring.
    pub fn decide(
        &self,
        facts: AnswerFacts,
        kept: Option<ChainResult>,
        fetched: SignedFetch,
        walked: ChainResult,
    ) -> (r: DnssecDecision)
        ensures
            r == judged_answer(facts, kept, fetched, walked, self@.mode),
    {
        match self.begin(facts) {
            DnssecStep::Done(decision) => {
                return decision;
            },
            _ => {},
        }
        match self.on_lookup(kept) {
            DnssecStep::Conclude { decision, .. } => {
                return decision;
            },
            _ => {},
        }
        match self.on_fetch(fetched) {
            DnssecStep::Conclude { decision, .. } => {
                return decision;
            },
            _ => {},
        }
        match self.on_walk(walked) {
            DnssecStep::Conclude { decision, .. } => decision,
            _ => DnssecDecision::Serve,
        }
    }
}

// ── Laws ──────────────────────────────────────────────────────────────

/// Logging alone never alters a response, whatever the verdict.
pub proof fn log_only_never_alters_a_response(verdict: ChainResult)
    ensures
        decision_for(verdict, DnssecMode::LogOnly) == DnssecDecision::Serve,
        decision_for(verdict, DnssecMode::Off) == DnssecDecision::Serve,
{
}

/// The AD bit is set for a secure chain alone, and only where verdicts act.
pub proof fn ad_means_secure(verdict: ChainResult, mode: DnssecMode)
    ensures
        decision_for(verdict, mode) == DnssecDecision::SetAd <==> verdict == ChainResult::Secure
            && mode == DnssecMode::Validate,
{
}

/// A failure to obtain material never becomes an outage, and a broken chain
/// is never served once verdicts act.
pub proof fn outages_serve_and_forgeries_fail(reason: Indeterminate, defect: ChainBogus)
    ensures
        transient(reason) ==> decision_for(
            ChainResult::Indeterminate(reason),
            DnssecMode::Validate,
        ) == DnssecDecision::Serve,
        decision_for(ChainResult::Bogus(defect), DnssecMode::Validate) == DnssecDecision::Servfail,
{
}

/// Whatever refuses an answer raises an alarm.
pub proof fn refusals_are_alarming(verdict: ChainResult, mode: DnssecMode)
    ensures
        decision_for(verdict, mode) == DnssecDecision::Servfail ==> alarming(verdict),
{
}

/// What verdicts do once they act: a secure chain is marked, an unsigned one is
/// served, a broken one fails, and so does one that tripped a limit or lacks a
/// proof. Only a failed fetch and anchors that match nothing are let through.
pub proof fn verdicts_act_by_their_kind(verdict: ChainResult)
    ensures
        ({
            let d = decision_for(verdict, DnssecMode::Validate);
            &&& d == DnssecDecision::SetAd <==> verdict is Secure
            &&& d == DnssecDecision::Servfail <==> verdict is Bogus || (verdict is Indeterminate
                && (verdict->Indeterminate_0 is MaxChainDepthExceeded || verdict->Indeterminate_0
                is MaxQueriesExceeded || verdict->Indeterminate_0 is MaxNsec3IterationsExceeded
                || verdict->Indeterminate_0 is MaxSignatureVerificationsExceeded
                || verdict->Indeterminate_0 is DenialProofRequired))
            &&& d == DnssecDecision::Serve <==> verdict is Insecure || (verdict is Indeterminate
                && (verdict->Indeterminate_0 is FetchFailed || verdict->Indeterminate_0
                is NoAnchorMatch))
        }),
{
}

/// What is logged as a warning: a broken chain, and every chain that could not be
/// judged but for a failed fetch.
pub proof fn warnings_go_by_the_verdict(verdict: ChainResult)
    ensures
        level_for(verdict) == Level::WARN <==> verdict is Bogus || (verdict is Indeterminate
            && !(verdict->Indeterminate_0 is FetchFailed)),
{
}

/// Only stable verdicts are kept: every secure, unsigned or broken chain, and
/// none that could not be judged.
pub proof fn verdicts_are_kept_when_stable(verdict: ChainResult)
    ensures
        kept_verdict(verdict) <==> verdict is Secure || verdict is Insecure || verdict is Bogus,
{
}

/// The steps of a decision: an answer that is bypassed is served without any
/// work; a kept verdict is acted on without a fetch and is not kept again; a
/// failed fetch and an unsigned answer settle the verdict without a walk; and a
/// walk is acted on as it ends. Each verdict is acted on under the configured mode.
pub proof fn steps_do_no_more_than_they_must(
    facts: AnswerFacts,
    kept: Option<ChainResult>,
    fetched: SignedFetch,
    walked: ChainResult,
    mode: DnssecMode,
)
    ensures
        facts.checking_disabled || facts.rewrote || facts.is_negative || !facts.has_query
            ==> first_step(facts) == DnssecStep::Done(DnssecDecision::Serve),
        !facts.checking_disabled && !facts.rewrote && !facts.is_negative && facts.has_query
            ==> first_step(facts) is LookUp,
        kept is None ==> after_lookup(kept, mode) is Fetch,
        kept matches Some(v) ==> (after_lookup(kept, mode) matches DnssecStep::Conclude {
            verdict,
            keep,
            decision,
        } && verdict == v && !keep && decision == decision_for(v, mode)),
        fetched is Signed <==> after_fetch(fetched, mode) is Walk,
        fetched is Failed ==> (after_fetch(fetched, mode) matches DnssecStep::Conclude {
            verdict,
            keep,
            decision,
        } && verdict == ChainResult::Indeterminate(Indeterminate::FetchFailed) && !keep && decision
            == DnssecDecision::Serve),
        fetched is Unsigned ==> (after_fetch(fetched, mode) matches DnssecStep::Conclude {
            verdict,
            keep,
            decision,
        } && verdict == ChainResult::Insecure(InsecureReason::UnsignedDelegation) && keep
            && decision == DnssecDecision::Serve),
        after_walk(walked, mode) matches DnssecStep::Conclude { verdict, keep, decision }
            && verdict == walked && (keep <==> !(walked is Indeterminate)) && decision
            == decision_for(walked, mode),
{
}

/// What an answer comes to: served as it is where validation is bypassed or does
/// not act; else decided by the kept verdict if there is one, by the walk where
/// the answer is signed, and served where it is unsigned or could not be fetched.
pub proof fn answers_are_judged_by_the_first_verdict(
    facts: AnswerFacts,
    kept: Option<ChainResult>,
    fetched: SignedFetch,
    walked: ChainResult,
    mode: DnssecMode,
)
    ensures
        ({
            let d = judged_answer(facts, kept, fetched, walked, mode);
            let skipped = facts.checking_disabled || facts.rewrote || facts.is_negative
                || !facts.has_query;
            &&& skipped || mode != DnssecMode::Validate ==> d == DnssecDecision::Serve
            &&& !skipped && kept is Some ==> d == decision_for(kept->0, mode)
            &&& !skipped && kept is None && fetched is Signed ==> d == decision_for(walked, mode)
            &&& !skipped && kept is None && !(fetched is Signed) ==> d == DnssecDecision::Serve
            &&& d == DnssecDecision::SetAd ==> !skipped && mode == DnssecMode::Validate && (kept
                == Some(ChainResult::Secure) || (kept is None && fetched is Signed && walked
                is Secure))
        }),
{
}

/// The clock shows the seconds since the epoch as long as they fit, and zero
/// before it.
pub proof fn clocks_show_the_seconds(since_epoch: Option<u64>)
    ensures
        since_epoch is None ==> unix_clock(since_epoch) == 0,
        since_epoch matches Some(secs) ==> (secs <= u32::MAX ==> unix_clock(since_epoch) == secs),
{
}

} // verus!
