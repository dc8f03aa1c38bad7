//! Verdicts on the chain of trust, and what they do to a response.
use std::collections::HashMap;

use purge_warden::dnssec_validator::{
    is_cacheable, is_transient, log_level, map_verdict, now_unix_secs, AnswerFacts, ChainBogus,
    ChainResult, DnssecDecision, DnssecStep, DnssecValidator, Indeterminate, InsecureReason, Level,
    SignedFetch,
};
use purge_warden::settings::{DnssecConfig, DnssecMode};

const ALL_INDETERMINATE: [Indeterminate; 7] = [
    Indeterminate::MaxChainDepthExceeded,
    Indeterminate::MaxQueriesExceeded,
    Indeterminate::MaxNsec3IterationsExceeded,
    Indeterminate::MaxSignatureVerificationsExceeded,
    Indeterminate::DenialProofRequired,
    Indeterminate::FetchFailed,
    Indeterminate::NoAnchorMatch,
];

/// A validator with its verdict cache and a counting upstream.
struct Harness {
    validator: DnssecValidator,
    kept: HashMap<String, ChainResult>,
    upstream: SignedFetch,
    walked: ChainResult,
    fetches: usize,
}

impl Harness {
    fn new(upstream: SignedFetch, mode: DnssecMode) -> Harness {
        Harness {
            validator: DnssecValidator::new(&DnssecConfig { mode, cache_ttl_secs: 300 }),
            kept: HashMap::new(),
            upstream,
            walked: ChainResult::Secure,
            fetches: 0,
        }
    }

    fn conclude(&mut self, name: &str, step: DnssecStep) -> (ChainResult, DnssecDecision) {
        match step {
            DnssecStep::Conclude { verdict, keep, decision } => {
                if keep {
                    self.kept.insert(name.to_string(), verdict);
                }
                (verdict, decision)
            }
            other => panic!("not a conclusion: {other:?}"),
        }
    }

    fn classify(&mut self, name: &str) -> (ChainResult, DnssecDecision) {
        let kept = self.kept.get(name).copied();
        let step = self.validator.on_lookup(kept);
        if step != DnssecStep::Fetch {
            return self.conclude(name, step);
        }
        self.fetches += 1;
        let step = self.validator.on_fetch(self.upstream);
        if step != DnssecStep::Walk {
            return self.conclude(name, step);
        }
        let step = self.validator.on_walk(self.walked);
        self.conclude(name, step)
    }

    fn decide(&mut self, name: &str, facts: AnswerFacts) -> DnssecDecision {
        match self.validator.begin(facts) {
            DnssecStep::Done(decision) => decision,
            _ => self.classify(name).1,
        }
    }
}

fn plain() -> AnswerFacts {
    AnswerFacts { checking_disabled: false, rewrote: false, is_negative: false, has_query: true }
}

#[test]
fn map_verdict_validate_table() {
    let v = DnssecMode::Validate;
    assert_eq!(map_verdict(ChainResult::Secure, v), DnssecDecision::SetAd);
    assert_eq!(
        map_verdict(ChainResult::Insecure(InsecureReason::UnsignedDelegation), v),
        DnssecDecision::Serve
    );
    assert_eq!(
        map_verdict(ChainResult::Insecure(InsecureReason::OutOfScopeAlgorithm), v),
        DnssecDecision::Serve
    );
    assert_eq!(
        map_verdict(ChainResult::Bogus(ChainBogus::DsCoversNoKey), v),
        DnssecDecision::Servfail
    );
    assert_eq!(
        map_verdict(ChainResult::Indeterminate(Indeterminate::FetchFailed), v),
        DnssecDecision::Serve
    );
    assert_eq!(
        map_verdict(ChainResult::Indeterminate(Indeterminate::NoAnchorMatch), v),
        DnssecDecision::Serve
    );
    for reason in [
        Indeterminate::MaxChainDepthExceeded,
        Indeterminate::MaxQueriesExceeded,
        Indeterminate::MaxNsec3IterationsExceeded,
        Indeterminate::MaxSignatureVerificationsExceeded,
        Indeterminate::DenialProofRequired,
    ] {
        assert_eq!(
            map_verdict(ChainResult::Indeterminate(reason), v),
            DnssecDecision::Servfail,
            "{reason:?} must SERVFAIL under validate"
        );
    }
}

#[test]
fn map_verdict_log_only_never_alters() {
    let m = DnssecMode::LogOnly;
    for found in [
        ChainResult::Secure,
        ChainResult::Insecure(InsecureReason::UnsignedDelegation),
        ChainResult::Bogus(ChainBogus::DsCoversNoKey),
        ChainResult::Indeterminate(Indeterminate::FetchFailed),
        ChainResult::Indeterminate(Indeterminate::DenialProofRequired),
        ChainResult::Indeterminate(Indeterminate::MaxQueriesExceeded),
        ChainResult::Indeterminate(Indeterminate::MaxSignatureVerificationsExceeded),
    ] {
        assert_eq!(
            map_verdict(found, m),
            DnssecDecision::Serve,
            "log-only alters nothing: {found:?}"
        );
    }
}

#[test]
fn log_level_decouples_alarm_from_serve_decision() {
    let na = ChainResult::Indeterminate(Indeterminate::NoAnchorMatch);
    let ff = ChainResult::Indeterminate(Indeterminate::FetchFailed);
    assert_eq!(map_verdict(na, DnssecMode::Validate), DnssecDecision::Serve);
    assert_eq!(map_verdict(ff, DnssecMode::Validate), DnssecDecision::Serve);
    assert_eq!(log_level(na), Level::WARN);
    assert_eq!(log_level(ff), Level::DEBUG);
    assert_eq!(
        log_level(ChainResult::Indeterminate(Indeterminate::MaxSignatureVerificationsExceeded)),
        Level::WARN
    );
    assert_eq!(log_level(ChainResult::Bogus(ChainBogus::DsCoversNoKey)), Level::WARN);
    assert_eq!(log_level(ChainResult::Secure), Level::DEBUG);
    assert_eq!(
        log_level(ChainResult::Insecure(InsecureReason::UnsignedDelegation)),
        Level::DEBUG
    );
}

#[test]
fn is_cacheable_excludes_all_indeterminate() {
    assert!(is_cacheable(ChainResult::Secure));
    assert!(is_cacheable(ChainResult::Insecure(InsecureReason::UnsignedDelegation)));
    assert!(is_cacheable(ChainResult::Bogus(ChainBogus::DnskeyMissing)));
    for reason in ALL_INDETERMINATE {
        assert!(
            !is_cacheable(ChainResult::Indeterminate(reason)),
            "{reason:?} must not be cached"
        );
    }
}

#[test]
fn client_cd_bypasses_validation() {
    let mut h = Harness::new(SignedFetch::Unsigned, DnssecMode::Validate);
    let facts = AnswerFacts { checking_disabled: true, ..plain() };
    assert_eq!(h.decide("example.com.", facts), DnssecDecision::Serve);
    assert_eq!(h.fetches, 0, "CD must skip the fetch");
}

#[test]
fn a_rewritten_answer_skips_validation_without_fetching() {
    let mut h = Harness::new(SignedFetch::Unsigned, DnssecMode::Validate);
    let rewritten = AnswerFacts { rewrote: true, ..plain() };
    assert_eq!(
        h.decide("www.example.", rewritten),
        DnssecDecision::Serve,
        "a rewritten answer is served, never AD and never SERVFAIL"
    );
    assert_eq!(h.fetches, 0, "a rewrite must short-circuit before the fetch");

    let mut control = Harness::new(SignedFetch::Unsigned, DnssecMode::Validate);
    assert_eq!(control.decide("www.example.", plain()), DnssecDecision::Serve);
    assert!(control.fetches > 0, "without a rewrite the validator must still fetch");
}

#[test]
fn negative_answer_is_served_unvalidated() {
    let mut h = Harness::new(SignedFetch::Unsigned, DnssecMode::Validate);
    let facts = AnswerFacts { is_negative: true, ..plain() };
    assert_eq!(h.decide("example.com.", facts), DnssecDecision::Serve);
    assert_eq!(h.fetches, 0, "negatives skip the fetch");
}

#[test]
fn unsigned_answer_no_rrsig_is_insecure_served() {
    let mut h = Harness::new(SignedFetch::Unsigned, DnssecMode::Validate);
    assert_eq!(h.decide("plain.example.", plain()), DnssecDecision::Serve);
    assert_eq!(
        h.classify("plain.example.").0,
        ChainResult::Insecure(InsecureReason::UnsignedDelegation)
    );
}

#[test]
fn fetch_failure_is_transient_served_and_not_cached() {
    let mut h = Harness::new(SignedFetch::Failed, DnssecMode::Validate);
    let (first, _) = h.classify("down.example.");
    assert_eq!(first, ChainResult::Indeterminate(Indeterminate::FetchFailed));
    assert_eq!(map_verdict(first, DnssecMode::Validate), DnssecDecision::Serve);
    let _ = h.classify("down.example.");
    assert_eq!(h.fetches, 2, "transient verdict must not be cached");
}

#[test]
fn stable_verdict_is_cached_skipping_refetch() {
    let mut h = Harness::new(SignedFetch::Unsigned, DnssecMode::Validate);
    assert_eq!(h.decide("cacheme.example.", plain()), DnssecDecision::Serve);
    assert_eq!(h.decide("cacheme.example.", plain()), DnssecDecision::Serve);
    assert_eq!(h.fetches, 1, "a cached stable verdict must skip the second fetch");
}

#[test]
fn a_signed_answer_takes_the_verdict_of_the_walk() {
    let mut h = Harness::new(SignedFetch::Signed, DnssecMode::Validate);
    assert_eq!(h.decide("good.example.", plain()), DnssecDecision::SetAd);
    h.walked = ChainResult::Bogus(ChainBogus::Other(7));
    assert_eq!(h.decide("bad.example.", plain()), DnssecDecision::Servfail);
    assert_eq!(h.decide("good.example.", plain()), DnssecDecision::SetAd);
    assert_eq!(h.fetches, 2);
}

#[test]
fn a_request_without_a_query_is_served() {
    let mut h = Harness::new(SignedFetch::Signed, DnssecMode::Validate);
    let facts = AnswerFacts { has_query: false, ..plain() };
    assert_eq!(h.decide("example.", facts), DnssecDecision::Serve);
    assert_eq!(h.fetches, 0);
}

#[test]
fn decide_agrees_with_the_steps() {
    for mode in [DnssecMode::Off, DnssecMode::LogOnly, DnssecMode::Validate] {
        for upstream in [SignedFetch::Failed, SignedFetch::Unsigned, SignedFetch::Signed] {
            for walked in [ChainResult::Secure, ChainResult::Bogus(ChainBogus::DnskeyMissing)] {
                let mut h = Harness::new(upstream, mode);
                h.walked = walked;
                let whole = h.validator.decide(plain(), None, upstream, walked);
                assert_eq!(h.decide("any.example.", plain()), whole);
            }
        }
    }
}

#[test]
fn only_a_lack_of_material_is_transient() {
    for reason in ALL_INDETERMINATE {
        let lacking = reason == Indeterminate::FetchFailed || reason == Indeterminate::NoAnchorMatch;
        assert_eq!(is_transient(reason), lacking, "{reason:?}");
    }
}

#[test]
fn the_clock_wraps_at_thirty_two_bits() {
    assert_eq!(now_unix_secs(None), 0);
    assert_eq!(now_unix_secs(Some(1_700_000_000)), 1_700_000_000);
    assert_eq!(now_unix_secs(Some(0x1_0000_0005)), 5);
}
