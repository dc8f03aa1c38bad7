//! The request path: screening, overlays, responses, and whole queries.
use std::cell::Cell;

use purge_warden::audit_ecs::{profile_tag, AUDIT_ECS_INJECT_EVENT, AUDIT_TARGET};
use purge_warden::cache::{CacheEntry, CacheLookup, DnsCache, Fetched};
use purge_warden::cidr::{source_allowed, Cidr};
use purge_warden::client_subnet::EcsPrefix;
use purge_warden::dispatch::{handle_inner, World};
use purge_warden::dnssec_validator::DnssecDecision;
use purge_warden::error::DnsError;
use purge_warden::filter::{
    apply_overlay, cname_chain_blocked, evaluate_with_overlay, name_allowed, source_label,
    AttribSource, BlockSource, DeviceOverlay, DomainSet, FilterResult, LayerHits, OverlayDecision,
    ResolvedProfile,
};
use purge_warden::handler::{
    fwd_name_for, name_policy, rewrite, send_body, ForwardHandler, Inspection, NetworkName, Passed,
    Question, Resolution, DEFAULT_DYNAMIC_TTL_SECS,
};
use purge_warden::local::LocalRecords;
use purge_warden::local_profile::ProfileLocalRecords;
use purge_warden::net::{parse_v4, parse_v6, IpAddr, Ipv4Addr, Ipv6Addr};
use purge_warden::outcome::{record_outcome, record_type_str, Body, LocalScope, Outcome, Reply};
use purge_warden::record::{
    names_match, DNSClass, Name, RData, Record, RecordType, ResponseCode,
};
use purge_warden::response::{
    block_response, blocked_soa, blocked_soa_mname, blocked_soa_rname, blocked_soa_zone, cached,
    cached_validated, nxdomain, refused, rfc8482, Response, REWRITE_CNAME_TTL_SECS,
};
use purge_warden::security::{
    tunneling_rate_gate_applies, PreQueryFacts, Refusal, RrlAction, SecurityLayer,
};
use purge_warden::stage::{advance, begin, Event, Stage, Turn};
use purge_warden::settings::{
    AntiBypassConfig, BlockResponse, CacheConfig, LocalDnsConfig, LocalDnsRecord,
    LocalDnsRecordType, SecurityConfig,
};

const NOW: u128 = 1_000_000_000_000;
const SECOND: u128 = 1_000_000_000;

fn name(text: &str) -> Name {
    let trimmed = text.trim_end_matches('.');
    Name {
        labels: trimmed.split('.').map(|l| l.as_bytes().to_vec()).collect(),
        fqdn: true,
    }
}

fn v4(a: u8, b: u8, c: u8, d: u8) -> Ipv4Addr {
    Ipv4Addr { octets: [a, b, c, d] }
}

fn a_record(domain: &str, ttl: u32) -> Record {
    Record::from_rdata(name(domain), ttl, RData::A(v4(1, 2, 3, 4)))
}

fn cname_record(alias: &str, target: &str, ttl: u32) -> Record {
    Record::from_rdata(name(alias), ttl, RData::CNAME(name(target)))
}

/// A flat filter: a name is blocked where it or a name above it is listed.
struct Filter(DomainSet);

impl Filter {
    fn is_blocked(&self, domain: &str) -> bool {
        self.0.matches(domain)
    }
}

fn filter_with_blocked(domains: &[&str]) -> Filter {
    let mut set = DomainSet::new();
    for d in domains {
        set.insert(d);
    }
    Filter(set)
}

#[test]
fn fwd_name_for_rewrite_vs_passthrough() {
    let original = name("api.old.example.");

    let passthrough = fwd_name_for("api.old.example", false, &original);
    assert_eq!(passthrough, original);

    let rewritten = fwd_name_for("api.new.example", true, &original);
    assert_eq!(rewritten, name("api.new.example."));
    assert_ne!(rewritten, original);
}

#[test]
fn an_unreadable_rewrite_target_keeps_the_original_name() {
    let original = name("api.old.example.");
    let too_long = "a".repeat(64);
    assert_eq!(fwd_name_for(&too_long, true, &original), original);
}

#[test]
fn cname_to_blocked_domain_detected() {
    let filter = filter_with_blocked(&["tracker.evil.com"]);
    let records = vec![
        cname_record("alias.example.com.", "tracker.evil.com.", 300),
        a_record("tracker.evil.com.", 300),
    ];
    let result = cname_chain_blocked(&records, 16, |t: &str| filter.is_blocked(t));
    assert_eq!(result.as_deref(), Some("tracker.evil.com"));
}

#[test]
fn cname_to_allowed_domain_passes() {
    let filter = filter_with_blocked(&["tracker.evil.com"]);
    let records = vec![
        cname_record("alias.example.com.", "cdn.cloudflare.net.", 300),
        a_record("cdn.cloudflare.net.", 300),
    ];
    assert!(cname_chain_blocked(&records, 16, |t: &str| filter.is_blocked(t)).is_none());
}

#[test]
fn no_cname_records_returns_none() {
    let filter = filter_with_blocked(&["tracker.evil.com"]);
    let records = vec![a_record("example.com.", 300)];
    assert!(cname_chain_blocked(&records, 16, |t: &str| filter.is_blocked(t)).is_none());
}

#[test]
fn empty_records_returns_none() {
    let filter = filter_with_blocked(&["tracker.evil.com"]);
    assert!(cname_chain_blocked(&[], 16, |t: &str| filter.is_blocked(t)).is_none());
}

// ── The security layer ────────────────────────────────────────────────

fn default_security_layer() -> SecurityLayer {
    SecurityLayer::from_config(&SecurityConfig::default(), &AntiBypassConfig::default())
}

fn quiet() -> PreQueryFacts {
    PreQueryFacts {
        rate_exceeded: false,
        bad_characters: false,
        rebinding_pattern: false,
        tunneling_shape: false,
    }
}

/// What the detectors say of the names in these tests: four numeric labels in
/// a row look like an address, and a label of 63 characters or fourteen
/// distinct nibbles look like a payload.
fn facts_for(domain: &str) -> PreQueryFacts {
    let labels: Vec<&str> = domain.split('.').collect();
    let numeric: Vec<bool> = labels.iter().map(|l| l.parse::<u8>().is_ok()).collect();
    let rebinding = numeric.windows(4).any(|w| w.iter().all(|n| *n));
    let long = labels.iter().any(|l| l.len() >= 63);
    let nibbles = labels.iter().filter(|l| l.len() == 1).count() >= 14;
    PreQueryFacts {
        rebinding_pattern: rebinding,
        tunneling_shape: long || nibbles,
        ..quiet()
    }
}

#[test]
fn neutrality01_default_config_builds_no_anti_bypass_checker() {
    let layer = default_security_layer();
    assert!(
        layer.anti_bypass.is_none(),
        "an empty domain set must not become a per-query check"
    );
}

#[test]
fn neutrality01_operator_supplied_domain_still_builds_the_checker() {
    let layer = SecurityLayer::from_config(
        &SecurityConfig::default(),
        &AntiBypassConfig {
            enabled: true,
            extra_domains: vec!["doh.example.net".to_string()],
        },
    );
    let ab = layer
        .anti_bypass
        .as_ref()
        .expect("an operator-listed domain must produce a checker");
    assert!(ab.is_bypass_domain("foo.doh.example.net"));
}

#[test]
fn ipv4_ptr_passes_pre_query_under_default_config() {
    let sec = default_security_layer();
    let domain = "94.1.10.10.in-addr.arpa";
    assert!(sec.check_pre_query(facts_for(domain), domain, RecordType::PTR).is_ok());
}

#[test]
fn ipv6_ptr_nibbles_skip_tunneling_shape() {
    let sec = default_security_layer();
    let nibbles: Vec<String> = "0123456789abcd".chars().map(|c| c.to_string()).collect();
    let domain = format!("{}.ip6.arpa", nibbles.join("."));
    assert!(sec.check_pre_query(facts_for(&domain), &domain, RecordType::PTR).is_ok());
    assert!(
        sec.check_pre_query(facts_for(&domain), &domain, RecordType::A).is_err(),
        "same name as a forward type must still be refused"
    );
    let full: Vec<String> =
        "0123456789abcdef0123456789abcdef".chars().map(|c| c.to_string()).collect();
    let full_domain = format!("{}.ip6.arpa", full.join("."));
    assert!(sec.check_pre_query(facts_for(&full_domain), &full_domain, RecordType::PTR).is_ok());
}

#[test]
fn rebinding_still_refused_for_address_types() {
    let sec = default_security_layer();
    let domain = "192.168.1.1.evil.com";
    for rt in [RecordType::A, RecordType::AAAA, RecordType::HTTPS] {
        assert_eq!(
            sec.check_pre_query(facts_for(domain), domain, rt).map_err(|e| e.reason()),
            Err("DNS rebinding pattern detected"),
            "qtype {rt:?}"
        );
    }
}

#[test]
fn rebinding_not_checked_for_non_address_types() {
    let sec = default_security_layer();
    let domain = "192.168.1.1.evil.com";
    assert!(sec.check_pre_query(facts_for(domain), domain, RecordType::TXT).is_ok());
}

#[test]
fn txt_payload_shape_still_trips_tunneling_but_ptr_rides_the_exemption() {
    let sec = default_security_layer();
    let domain = format!("{}.tunnel.example.com", "0".repeat(63));

    assert_eq!(
        sec.check_pre_query(facts_for(&domain), &domain, RecordType::TXT).map_err(|e| e.reason()),
        Err("tunneling detected"),
        "TXT must not inherit the PTR exemption"
    );
    assert!(
        sec.check_pre_query(facts_for(&domain), &domain, RecordType::PTR).is_ok(),
        "PTR skips the shape gate"
    );
}

#[test]
fn every_refusal_has_its_reason() {
    let sec = SecurityLayer::from_config(
        &SecurityConfig::default(),
        &AntiBypassConfig {
            enabled: true,
            extra_domains: vec!["doh.example.net".to_string()],
        },
    );
    let limited = PreQueryFacts { rate_exceeded: true, ..quiet() };
    assert_eq!(
        sec.check_pre_query(limited, "a.example", RecordType::A),
        Err(Refusal::RateLimited)
    );
    assert_eq!(Refusal::RateLimited.reason(), "rate limited");
    let odd = PreQueryFacts { bad_characters: true, ..quiet() };
    assert_eq!(
        sec.check_pre_query(odd, "a.example", RecordType::PTR),
        Err(Refusal::InvalidCharacters)
    );
    assert_eq!(Refusal::InvalidCharacters.reason(), "invalid domain characters");
    assert_eq!(
        sec.check_pre_query(quiet(), "doh.example.net", RecordType::A),
        Err(Refusal::BypassDomain)
    );
    assert_eq!(Refusal::BypassDomain.reason(), "bypass domain blocked");
}

#[test]
fn disabled_security_arms_nothing() {
    let layer = SecurityLayer::from_config(
        &SecurityConfig { enabled: false, ..SecurityConfig::default() },
        &AntiBypassConfig {
            enabled: true,
            extra_domains: vec!["doh.example.net".to_string()],
        },
    );
    assert!(layer.rate_limiter.is_none() && layer.rrl.is_none());
    assert!(layer.tunneling.is_none() && layer.anti_bypass.is_none());
    assert_eq!(layer.check_response(RrlAction::Drop), RrlAction::Allow);
    let sweep = layer.cleanup();
    assert!(!sweep.rate_limiter && !sweep.rrl && !sweep.tunneling);
    let armed = default_security_layer().cleanup();
    assert!(armed.rate_limiter && armed.rrl && armed.tunneling);
}

#[test]
fn ptr_outside_the_reverse_zones_counts_against_the_rate_gate() {
    for domain in [
        "94.1.10.10.in-addr.arpa",
        "50.1.168.192.in-addr.arpa",
        "1.0.0.0.0.0.0.0.0.0.0.0.0.0.0.0.0.0.0.0.0.0.0.0.0.0.0.0.0.0.d.f.ip6.arpa",
        "in-addr.arpa",
        "ip6.arpa",
    ] {
        assert!(
            !tunneling_rate_gate_applies(RecordType::PTR, domain),
            "{domain} is a genuine reverse lookup and must create no bucket"
        );
    }

    for domain in [
        "aGVsbG8td29ybGQ.tun.example.com",
        "home.arpa",
        "example.com",
        "evil-in-addr.arpa",
        "notip6.arpa",
    ] {
        assert!(
            tunneling_rate_gate_applies(RecordType::PTR, domain),
            "{domain} is not a reverse zone"
        );
    }

    assert!(tunneling_rate_gate_applies(RecordType::A, "94.1.10.10.in-addr.arpa"));
    assert!(tunneling_rate_gate_applies(RecordType::TXT, "x.tun.example.com"));
}

#[test]
fn ptr_payload_skips_the_shape_gate_but_not_the_rate_gate() {
    let sec = default_security_layer();
    let domain = format!("{}.tunnel.example.com", "0".repeat(63));

    assert!(
        sec.check_pre_query(facts_for(&domain), &domain, RecordType::PTR).is_ok(),
        "the shape gate's PTR exemption is unchanged"
    );
    assert!(
        tunneling_rate_gate_applies(RecordType::PTR, &domain),
        "the same name is not in a reverse zone, so the rate gate applies"
    );
}

#[test]
fn ptr_flood_trips_the_rate_gate_while_reverse_lookups_never_create_a_bucket() {
    let sec = default_security_layer();
    let budget = sec.tunneling.expect("default config builds the tunneling detector").subdomain_rate;
    let seen = Cell::new(0u32);

    for i in 0..400u32 {
        let domain = format!("{}.{}.168.192.in-addr.arpa", i % 256, i / 256);
        assert!(!tunneling_rate_gate_applies(RecordType::PTR, &domain));
    }
    assert_eq!(seen.get(), 0, "reverse lookups must never reach the detector");

    let mut refused_at = None;
    for i in 0..200u32 {
        let domain = format!("p{i}.tun.example.com");
        assert!(tunneling_rate_gate_applies(RecordType::PTR, &domain));
        seen.set(seen.get() + 1);
        if sec.check_tunneling_rate(seen.get() > budget) {
            refused_at = Some(i);
            break;
        }
    }
    assert_eq!(
        refused_at,
        Some(50),
        "default subdomain_rate is 50: names 0..=49 fit, the 51st trips"
    );
}

// ── CNAME chains ──────────────────────────────────────────────────────

fn hops(n: usize) -> Vec<Record> {
    (0..n)
        .map(|i| {
            cname_record(
                &format!("hop{i}.example.com."),
                &format!("hop{}.example.com.", i + 1),
                300,
            )
        })
        .collect()
}

#[test]
fn cname_chain_depth_exceeded_fails_closed() {
    let filter = filter_with_blocked(&["blocked.com"]);
    let records = hops(20);

    assert!(cname_chain_blocked(&records, 16, |t: &str| filter.is_blocked(t)).is_some());
    assert!(cname_chain_blocked(&records[..10], 16, |t: &str| filter.is_blocked(t)).is_none());

    let mut with_blocked = records;
    with_blocked[16] = cname_record("hop16.example.com.", "blocked.com.", 300);
    assert!(cname_chain_blocked(&with_blocked, 17, |t: &str| filter.is_blocked(t)).is_some());
}

#[test]
fn cname_subdomain_walk_works() {
    let filter = filter_with_blocked(&["tracker.evil.com"]);
    let records = vec![cname_record("alias.example.com.", "sub.tracker.evil.com.", 300)];
    let result = cname_chain_blocked(&records, 16, |t: &str| filter.is_blocked(t));
    assert_eq!(result.as_deref(), Some("sub.tracker.evil.com"));
}

#[test]
fn cname_trailing_dot_stripped() {
    let filter = filter_with_blocked(&["tracker.evil.com"]);
    let records = vec![cname_record("alias.example.com.", "tracker.evil.com.", 300)];
    let result = cname_chain_blocked(&records, 16, |t: &str| filter.is_blocked(t));
    assert_eq!(result.as_deref(), Some("tracker.evil.com"));
}

#[test]
fn cname_mixed_case_target_is_lowercased_before_lookup() {
    let filter = filter_with_blocked(&["tracker.evil.com"]);
    let records = vec![cname_record("alias.example.com.", "Tracker.Evil.COM.", 300)];
    let result = cname_chain_blocked(&records, 16, |t: &str| filter.is_blocked(t));
    assert_eq!(result.as_deref(), Some("tracker.evil.com"));
}

#[test]
fn multiple_cnames_first_allowed_second_blocked() {
    let filter = filter_with_blocked(&["tracker.evil.com"]);
    let records = vec![
        cname_record("alias1.example.com.", "cdn.cloudflare.net.", 300),
        cname_record("alias2.example.com.", "tracker.evil.com.", 300),
        a_record("tracker.evil.com.", 300),
    ];
    let result = cname_chain_blocked(&records, 16, |t: &str| filter.is_blocked(t));
    assert_eq!(result.as_deref(), Some("tracker.evil.com"));
}

#[test]
fn prefetch_helper_blocked_cname_short_chain() {
    let filter = filter_with_blocked(&["bad.example.com"]);
    let records = vec![cname_record("alias.example.com.", "bad.example.com.", 300)];
    let blocked = cname_chain_blocked(&records, 16, |t: &str| filter.is_blocked(t));
    assert_eq!(blocked.as_deref(), Some("bad.example.com"));
}

#[test]
fn prefetch_helper_unblocked_cname_short_chain() {
    let filter = filter_with_blocked(&["bad.example.com"]);
    let records = vec![cname_record("alias.example.com.", "good.example.net.", 300)];
    assert!(cname_chain_blocked(&records, 16, |t: &str| filter.is_blocked(t)).is_none());
}

#[test]
fn prefetch_helper_depth_capped_at_configured_limit() {
    let filter = filter_with_blocked(&["blocked.example.com"]);
    let mut records = hops(20);
    records[16] = cname_record("hop16.example.com.", "blocked.example.com.", 300);
    let probes = Cell::new(0usize);
    let result = cname_chain_blocked(&records, 16, |t: &str| {
        probes.set(probes.get() + 1);
        filter.is_blocked(t)
    });
    assert!(result.is_some());
    assert!(probes.get() <= 16, "scan must stop at the cap, ran {}", probes.get());
    assert_eq!(
        cname_chain_blocked(&records, 17, |t: &str| filter.is_blocked(t)).as_deref(),
        Some("blocked.example.com")
    );
}

#[test]
fn check_cname_chain_blocks_via_resolved_profile() {
    let filter = filter_with_blocked(&["evil.example.com"]);
    let records = vec![
        cname_record("alias.example.com.", "hop1.example.com.", 300),
        cname_record("hop1.example.com.", "evil.example.com.", 300),
    ];
    let blocked = cname_chain_blocked(&records, 16, |t: &str| filter.is_blocked(t));
    assert_eq!(blocked.as_deref(), Some("evil.example.com"));
}

// ── Access lists ──────────────────────────────────────────────────────

fn cidr(s: &str) -> Cidr {
    Cidr::parse(s).unwrap()
}

const V6_LOCALHOST: IpAddr = IpAddr::V6(Ipv6Addr { groups: [0, 0, 0, 0, 0, 0, 0, 1] });

#[test]
fn source_allowed_none_acl_accepts_all() {
    assert!(source_allowed(&IpAddr::V4(v4(8, 8, 8, 8)), None));
    assert!(source_allowed(&V6_LOCALHOST, None));
}

#[test]
fn source_allowed_empty_acl_accepts_all() {
    let empty: Vec<Cidr> = vec![];
    assert!(source_allowed(&IpAddr::V4(v4(8, 8, 8, 8)), Some(&empty)));
}

#[test]
fn source_allowed_inside_cidr() {
    let acl = vec![cidr("10.0.0.0/8"), cidr("192.168.0.0/16")];
    assert!(source_allowed(&IpAddr::V4(v4(10, 1, 2, 3)), Some(&acl)));
    assert!(source_allowed(&IpAddr::V4(v4(192, 168, 50, 1)), Some(&acl)));
}

#[test]
fn source_allowed_outside_cidr_refused() {
    let acl = vec![cidr("10.0.0.0/8")];
    assert!(!source_allowed(&IpAddr::V4(v4(8, 8, 8, 8)), Some(&acl)));
    assert!(!source_allowed(&IpAddr::V4(v4(192, 168, 1, 1)), Some(&acl)));
}

#[test]
fn source_allowed_v6_inside_cidr() {
    let acl = vec![cidr("fd00::/8")];
    let ip = IpAddr::V6(Ipv6Addr { groups: [0xfd00, 0, 0, 0, 0, 0, 0, 1] });
    assert!(source_allowed(&ip, Some(&acl)));
}

#[test]
fn source_allowed_ipv4_mapped_source_matches_v4_acl() {
    let acl = vec![cidr("10.10.1.0/24")];
    let inside = IpAddr::V6(parse_v6("::ffff:10.10.1.5").unwrap());
    let outside = IpAddr::V6(parse_v6("::ffff:10.10.2.5").unwrap());
    assert!(source_allowed(&inside, Some(&acl)));
    assert!(
        !source_allowed(&outside, Some(&acl)),
        "a mapped address outside the ACL stays refused"
    );
}

#[test]
fn source_allowed_family_mismatch_refused() {
    let acl = vec![cidr("10.0.0.0/8")];
    assert!(!source_allowed(&V6_LOCALHOST, Some(&acl)));
}

// ── Responses ─────────────────────────────────────────────────────────

fn one_a_entry() -> CacheEntry {
    let rec = Record::from_rdata(name("a.example.com."), 300, RData::A(v4(192, 0, 2, 1)));
    CacheEntry::new(vec![rec], ResponseCode::NoError, NOW, 300)
}

#[test]
fn send_cached_sets_ad_when_authentic() {
    let r = cached(&one_a_entry(), true, false, &None, NOW);
    assert!(r.authentic_data, "authentic=true must set the AD bit");
    assert_eq!(r.code, ResponseCode::NoError);
    assert_eq!(r.answers.len(), 1);
}

#[test]
fn send_cached_clears_ad_when_not_authentic() {
    let r = cached(&one_a_entry(), false, false, &None, NOW);
    assert!(!r.authentic_data, "authentic=false must leave AD clear");
    assert_eq!(r.code, ResponseCode::NoError);
}

#[test]
fn send_cached_rewritten_never_sets_ad() {
    let r = cached(&one_a_entry(), true, true, &None, NOW);
    assert!(!r.authentic_data, "a rewritten answer must never carry AD");
}

#[test]
fn rewritten_answers_are_bridged_from_the_question() {
    let query = Some(name("old.example.com."));
    let r = cached(&one_a_entry(), false, true, &query, NOW + 100 * SECOND);
    assert_eq!(r.answers.len(), 2);
    assert_eq!(r.answers[0].name, name("old.example.com."));
    assert_eq!(r.answers[0].data, RData::CNAME(name("a.example.com.")));
    assert_eq!(r.answers[0].ttl, 200);
    assert_eq!(r.answers[1].ttl, 200);

    let fresh = cached(&one_a_entry(), false, true, &query, NOW);
    assert_eq!(fresh.answers[0].ttl, REWRITE_CNAME_TTL_SECS);

    let own = Some(name("A.Example.COM."));
    assert_eq!(cached(&one_a_entry(), false, true, &own, NOW).answers.len(), 1);
}

#[test]
fn validator_decisions_reach_the_response() {
    let entry = one_a_entry();
    let failed = cached_validated(&entry, Some(DnssecDecision::Servfail), false, &None, NOW);
    assert_eq!(failed.code, ResponseCode::ServFail);
    let marked = cached_validated(&entry, Some(DnssecDecision::SetAd), false, &None, NOW);
    assert!(marked.authentic_data);
    let served = cached_validated(&entry, Some(DnssecDecision::Serve), false, &None, NOW);
    assert!(!served.authentic_data && served.code == ResponseCode::NoError);
    let rewritten = cached_validated(&entry, Some(DnssecDecision::Servfail), true, &None, NOW);
    assert_eq!(rewritten.code, ResponseCode::NoError);
    assert!(!rewritten.authentic_data);
}

fn ads(record_type: RecordType, kind: BlockResponse) -> Response {
    block_response(&name("ads.example.com"), record_type, 60, kind)
}

#[test]
fn send_block_response_zero_returns_noerror_and_canned_record() {
    let r = ads(RecordType::A, BlockResponse::Zero);
    assert_eq!(r.code, ResponseCode::NoError);
    assert_eq!(r.answers[0].data, RData::A(v4(0, 0, 0, 0)));
    assert_eq!(r.answers[0].ttl, 60);
}

#[test]
fn send_block_response_zero_aaaa_returns_noerror_and_canned_record() {
    let r = ads(RecordType::AAAA, BlockResponse::Zero);
    assert_eq!(r.code, ResponseCode::NoError);
    assert_eq!(r.answers[0].data, RData::AAAA(Ipv6Addr { groups: [0; 8] }));
}

#[test]
fn send_block_response_zero_other_type_returns_nodata() {
    let r = ads(RecordType::TXT, BlockResponse::Zero);
    assert_eq!(r.code, ResponseCode::NoError);
    assert!(r.answers.is_empty());
    assert_eq!(r.authority.len(), 1);
}

#[test]
fn send_block_response_nxdomain_returns_nxdomain_rcode() {
    assert_eq!(ads(RecordType::A, BlockResponse::Nxdomain).code, ResponseCode::NXDomain);
}

#[test]
fn send_block_response_refused_returns_refused_rcode() {
    assert_eq!(ads(RecordType::A, BlockResponse::Refused).code, ResponseCode::Refused);
}

#[test]
fn block_response_soa_nodata_covers_addresses_too() {
    let r = ads(RecordType::A, BlockResponse::SoaNodata);
    assert_eq!(r.code, ResponseCode::NoError);
    assert!(r.answers.is_empty() && r.recursion_available);
    assert_eq!(r.authority[0], blocked_soa(60));
}

#[test]
fn send_rfc8482_returns_noerror_with_single_hinfo_answer() {
    let r = rfc8482(&name("example.com"), 60);
    assert_eq!(r.code, ResponseCode::NoError);
    assert_eq!(r.answers.len(), 1);
    assert_eq!(r.answers[0].data, RData::HINFO(b"RFC8482".to_vec(), Vec::new()));
}

#[test]
fn send_nxdomain_helper_sets_nxdomain_directly() {
    assert_eq!(nxdomain().code, ResponseCode::NXDomain);
}

#[test]
fn send_refused_emits_refused_rcode() {
    assert_eq!(refused().code, ResponseCode::Refused);
}

#[test]
fn aa_bit_cleared_on_blocked_response_even_when_request_had_it_set() {
    assert!(!ads(RecordType::A, BlockResponse::Zero).authoritative);
}

#[test]
fn aa_bit_cleared_on_nxdomain_response_even_when_request_had_it_set() {
    assert!(!nxdomain().authoritative);
}

fn cache_test_config() -> CacheConfig {
    CacheConfig {
        max_entries: 100,
        max_ttl_secs: 3600,
        min_ttl_secs: 5,
        negative_ttl_secs: 60,
        stale_buffer_secs: 300,
    }
}

#[test]
fn cached_nxdomain_response_includes_soa_in_authority() {
    let mut cache = DnsCache::new(&cache_test_config());
    cache.insert(
        "nxdomain.example.com",
        RecordType::A,
        DNSClass::IN,
        Vec::new(),
        ResponseCode::NXDomain,
        None,
        None,
        NOW,
    );
    let entry = match cache.lookup("nxdomain.example.com", RecordType::A, DNSClass::IN, None, NOW) {
        CacheLookup::Fresh(e) => e,
        other => panic!("freshly inserted entry must be Fresh, got {other:?}"),
    };
    let r = cached(&entry, false, false, &None, NOW);
    assert_eq!(r.code, ResponseCode::NXDomain);
    assert_eq!(r.authority.len(), 1, "cached NXDOMAIN must carry SOA in authority section");
    assert_eq!(r.authority[0].ttl, 60);
    assert_eq!(r.answers.len(), 0);
}

#[test]
fn cached_nodata_response_includes_soa_in_authority() {
    let mut cache = DnsCache::new(&cache_test_config());
    cache.insert(
        "nodata.example.com",
        RecordType::AAAA,
        DNSClass::IN,
        Vec::new(),
        ResponseCode::NoError,
        None,
        None,
        NOW,
    );
    let entry = match cache.lookup("nodata.example.com", RecordType::AAAA, DNSClass::IN, None, NOW) {
        CacheLookup::Fresh(e) => e,
        other => panic!("freshly inserted entry must be Fresh, got {other:?}"),
    };
    let r = cached(&entry, false, false, &None, NOW);
    assert_eq!(r.code, ResponseCode::NoError);
    assert_eq!(r.authority.len(), 1, "cached NODATA must carry SOA in authority section");
    assert_eq!(r.answers.len(), 0);
}

fn labels_of(text: &str) -> Name {
    let parsed = hickory_proto::rr::Name::from_ascii(text).unwrap();
    Name {
        labels: parsed.iter().map(|l| l.to_vec()).collect(),
        fqdn: parsed.is_fqdn(),
    }
}

#[test]
fn blocked_soa_static_names_match_from_ascii_parse() {
    let zone_expected = labels_of("block.purge-warden.local.");
    let mname_expected = labels_of("ns.purge-warden.local.");
    let rname_expected = labels_of("admin.purge-warden.local.");
    assert_eq!(blocked_soa_zone(), zone_expected);
    assert_eq!(blocked_soa_mname(), mname_expected);
    assert_eq!(blocked_soa_rname(), rname_expected);

    let record = blocked_soa(60);
    assert_eq!(record.name, zone_expected);
    let RData::SOA(soa) = record.data else {
        panic!("blocked_soa must produce an SOA record");
    };
    assert_eq!(soa.mname, mname_expected);
    assert_eq!(soa.rname, rname_expected);
    assert_eq!(soa.minimum, 60);
    assert_eq!((soa.serial, soa.refresh, soa.retry, soa.expire), (1, 3600, 600, 86400));
}

// ── The per-device overlay ────────────────────────────────────────────

fn empty_profile() -> ResolvedProfile {
    ResolvedProfile {
        name: "default".to_string(),
        allow_domains: DomainSet::new(),
        deny_domains: DomainSet::new(),
        local_records: ProfileLocalRecords::default(),
        block_response: BlockResponse::Zero,
        blocked_ttl_secs: 60,
    }
}

fn profile_denying(domain: &str) -> ResolvedProfile {
    let mut profile = empty_profile();
    profile.deny_domains.insert(domain);
    profile
}

fn set_of(domains: &[&str]) -> DomainSet {
    let mut set = DomainSet::new();
    for d in domains {
        set.insert(d);
    }
    set
}

fn overlay_with(allow: &[&str], deny: &[&str], override_flag: bool) -> DeviceOverlay {
    DeviceOverlay {
        device_id: "dev-test".to_string(),
        allow: set_of(allow),
        deny: set_of(deny),
        override_profile_deny: override_flag,
    }
}

/// The profile evaluator of these tests: it knows the denials of the profile.
fn evaluate(domain: &str, profile: &ResolvedProfile) -> (FilterResult, Option<BlockSource>) {
    if profile.deny_domains.matches(domain) {
        (FilterResult::Block, Some(BlockSource::AdminBlock))
    } else {
        (FilterResult::Forward, None)
    }
}

fn judge(
    domain: &str,
    profile: &ResolvedProfile,
    overlay: Option<&DeviceOverlay>,
) -> (bool, Option<BlockSource>) {
    let (verdict, source) = evaluate(domain, profile);
    evaluate_with_overlay(domain, profile, overlay, verdict, source)
}

#[test]
fn evaluate_with_overlay_none_overlay_is_byte_identical_baseline() {
    let profile = profile_denying("evil.com");

    let (blocked, _) = judge("evil.com", &profile, None);
    let baseline = evaluate("evil.com", &profile).0 == FilterResult::Block;
    assert_eq!(blocked, baseline, "no overlay must match the profile evaluator");
    assert!(blocked, "evil.com is in profile.deny_domains");

    let (blocked, _) = judge("good.com", &profile, None);
    let baseline = evaluate("good.com", &profile).0 == FilterResult::Block;
    assert_eq!(blocked, baseline);
    assert!(!blocked);
}

#[test]
fn evaluate_with_overlay_device_deny_blocks() {
    let overlay = overlay_with(&[], &["tiktok.com"], false);
    let (blocked, _) = judge("tiktok.com", &empty_profile(), Some(&overlay));
    assert!(blocked, "device.deny → BLOCK");
}

#[test]
fn evaluate_with_overlay_returns_admin_block_source() {
    let overlay = overlay_with(&[], &["evil.com"], false);
    let (blocked, source) = judge("evil.com", &empty_profile(), Some(&overlay));
    assert!(blocked, "device.deny → BLOCK");
    assert_eq!(
        source,
        Some(BlockSource::AdminBlock),
        "overlay-deny is admin-grade, not a list bit"
    );
}

#[test]
fn evaluate_with_overlay_device_allow_lets_through() {
    let overlay = overlay_with(&["bank.example"], &[], false);
    let (blocked, _) = judge("bank.example", &empty_profile(), Some(&overlay));
    assert!(!blocked, "device.allow → FORWARD");
}

#[test]
fn evaluate_with_overlay_device_deny_wins_over_profile_allow() {
    let mut profile = empty_profile();
    profile.allow_domains.insert("bank.example");
    let overlay = overlay_with(&[], &["bank.example"], false);
    let (blocked, _) = judge("bank.example", &profile, Some(&overlay));
    assert!(blocked, "additive deny: device.deny over profile.allow");
}

#[test]
fn evaluate_with_overlay_override_unblocks_profile_deny() {
    let profile = profile_denying("youtube.com");
    let overlay = overlay_with(&["youtube.com"], &[], true);
    let (blocked, _) = judge("youtube.com", &profile, Some(&overlay));
    assert!(!blocked, "override flag must allow past profile.deny");
}

#[test]
fn evaluate_with_overlay_drift_falls_back_to_profile_deny() {
    let profile = profile_denying("youtube.com");
    let overlay = overlay_with(&["youtube.com"], &[], false);
    let (blocked, _) = judge("youtube.com", &profile, Some(&overlay));
    assert!(blocked, "without override flag, profile.deny wins on drift");
}

#[test]
fn evaluate_with_overlay_both_deny_blocks() {
    let profile = profile_denying("evil.com");
    let overlay = overlay_with(&[], &["evil.com"], false);
    let (blocked, _) = judge("evil.com", &profile, Some(&overlay));
    assert!(blocked);
}

#[test]
fn evaluate_with_overlay_fall_through_uses_profile_evaluator() {
    let profile = profile_denying("blocked.example");
    let overlay = overlay_with(&["bank.example"], &["tiktok.com"], false);
    let (blocked, _) = judge("blocked.example", &profile, Some(&overlay));
    assert!(blocked, "profile.deny takes effect on FallThrough");
    let (blocked, _) = judge("nothing.example", &profile, Some(&overlay));
    assert!(!blocked, "domain not in any layer → forward");
}

#[test]
fn evaluate_with_overlay_is_qtype_agnostic_n7() {
    let profile = profile_denying("c.example");
    let overlay = overlay_with(&["x.example"], &["d.example"], false);
    for domain in ["a.example", "b.example", "c.example", "d.example", "x.example", "z.example"] {
        let (r1, _) = judge(domain, &profile, Some(&overlay));
        let (r2, _) = judge(domain, &profile, Some(&overlay));
        assert_eq!(r1, r2, "qtype-agnostic for {domain}");
    }
}

#[test]
fn overlay_decisions_name_their_layer() {
    let both = LayerHits {
        profile_deny_hit: true,
        device_allow_hit: false,
        device_deny_hit: true,
    };
    assert_eq!(
        apply_overlay(both, false),
        OverlayDecision::Block { source: AttribSource::Profile }
    );
    let overridden = LayerHits {
        profile_deny_hit: true,
        device_allow_hit: true,
        device_deny_hit: false,
    };
    assert_eq!(
        apply_overlay(overridden, true),
        OverlayDecision::Allow { source: AttribSource::Device, override_used: true }
    );
    assert_eq!(source_label(AttribSource::Profile), "profile");
    assert_eq!(source_label(AttribSource::Device), "device");
}

// ── Whole queries ─────────────────────────────────────────────────────

fn client() -> IpAddr {
    IpAddr::V4(v4(10, 0, 0, 7))
}

fn question(qname: &str, record_type: RecordType) -> Option<Question> {
    Some(Question {
        name: name(qname),
        record_type,
        dns_class: DNSClass::IN,
        valid: true,
    })
}

/// A client of an empty profile, and an upstream that answers every name.
fn world(qname: &str) -> World {
    World {
        gate_open: true,
        screening: quiet(),
        device: None,
        rrl: RrlAction::Allow,
        resolution: Some(Resolution {
            device_name: Some("desk".to_string()),
            profile: Some(empty_profile()),
            overlay: None,
        }),
        ecs: None,
        network: NetworkName::Unknown,
        verdict: FilterResult::Forward,
        source: None,
        rewrite: None,
        inspection: Inspection { chain: None, address: None },
        exempted: Inspection { chain: None, address: None },
        rate_exceeded: false,
        fetched: Ok(Fetched {
            records: vec![Record::from_rdata(name(qname), 60, RData::A(v4(203, 0, 113, 9)))],
            response_code: ResponseCode::NoError,
            soa_minimum_ttl: None,
        }),
        now: NOW,
    }
}

fn bare_handler(local: Option<LocalRecords>) -> ForwardHandler {
    ForwardHandler::new(DnsCache::new(&cache_test_config()), None, local, None, 60)
}

fn secured_handler() -> ForwardHandler {
    ForwardHandler::new(
        DnsCache::new(&cache_test_config()),
        Some(default_security_layer()),
        None,
        None,
        60,
    )
}

fn drive(handler: &mut ForwardHandler, qname: &str, record_type: RecordType, w: World) -> Reply {
    handle_inner(handler, client(), question(qname, record_type), w)
}

fn response_to(reply: Reply, qname: &str) -> Response {
    send_body(reply.body, None, &Some(name(qname)), NOW).expect("a response is sent")
}

fn went_upstream(reply: &Reply) -> bool {
    reply.rows.iter().any(|r| r.outcome == Outcome::Allowed)
}

fn with_network(qname: &str, network: NetworkName) -> World {
    World { network, ..world(qname) }
}

#[test]
fn default_dynamic_ttl_matches_config_default() {
    assert_eq!(DEFAULT_DYNAMIC_TTL_SECS, LocalDnsConfig::default().dynamic_ttl_secs);
}

#[test]
fn network_name_exact_hit_answers_a_record() {
    let mut handler = bare_handler(None).with_dynamic_ttl_secs(77);
    let w = with_network("desktop-1", NetworkName::V4(v4(10, 10, 1, 50)));
    let reply = drive(&mut handler, "desktop-1", RecordType::A, w);
    assert!(!went_upstream(&reply), "a locally-answered name must never reach upstream");
    let r = response_to(reply, "desktop-1");
    assert_eq!(r.code, ResponseCode::NoError);
    assert_eq!(r.answers.len(), 1);
    assert_eq!(r.answers[0].data, RData::A(v4(10, 10, 1, 50)));
    assert_eq!(r.answers[0].ttl, 77);
    assert_eq!(r.answers[0].name, name("desktop-1."), "the answer must be owned by the QNAME");
}

#[test]
fn network_name_unknown_device_falls_through_to_nxdomain_path() {
    let mut handler = bare_handler(None).with_dynamic_ttl_secs(77);
    let w = with_network("not-a-device", NetworkName::Unknown);
    let reply = drive(&mut handler, "not-a-device", RecordType::A, w);
    assert!(went_upstream(&reply), "an unrecognised name must take the normal query path");
    assert_eq!(reply.rows[0].domain, "not-a-device");
    assert_eq!(response_to(reply, "not-a-device").code, ResponseCode::NoError);
}

#[test]
fn network_name_configured_but_device_offline_answers_nxdomain() {
    let mut handler = bare_handler(None).with_dynamic_ttl_secs(77);
    let w = with_network("offline-box", NetworkName::Offline);
    let reply = drive(&mut handler, "offline-box", RecordType::A, w);
    assert!(!went_upstream(&reply), "a name of ours must not leak upstream");
    let r = response_to(reply, "offline-box");
    assert_eq!(r.code, ResponseCode::NXDomain);
    assert_eq!(r.answers.len(), 0);
}

#[test]
fn network_name_v6_pinned_device_a_query_falls_through() {
    let mut handler = bare_handler(None).with_dynamic_ttl_secs(77);
    let reply =
        drive(&mut handler, "v6-only", RecordType::A, with_network("v6-only", NetworkName::V6));
    assert!(went_upstream(&reply));
    assert_eq!(reply.rows[0].domain, "v6-only");
    assert_ne!(response_to(reply, "v6-only").code, ResponseCode::NXDomain);
}

#[test]
fn network_name_wildcard_descendant_is_owned_by_the_qname() {
    let mut handler = bare_handler(None).with_dynamic_ttl_secs(77);
    let w = with_network("app.casamia", NetworkName::V4(v4(10, 10, 10, 10)));
    let reply = drive(&mut handler, "app.casamia", RecordType::A, w);
    assert!(!went_upstream(&reply));
    let r = response_to(reply, "app.casamia");
    assert_eq!(r.answers.len(), 1);
    assert_eq!(r.answers[0].data, RData::A(v4(10, 10, 10, 10)));
    assert_eq!(r.answers[0].name, name("app.casamia."));
}

#[test]
fn network_name_aaaa_query_answers_nodata_by_default() {
    let mut handler = bare_handler(None).with_dynamic_ttl_secs(77);
    let w = with_network("desktop-1", NetworkName::V4(v4(10, 10, 1, 50)));
    let reply = drive(&mut handler, "desktop-1", RecordType::AAAA, w);
    assert!(!went_upstream(&reply), "an AAAA query must never leak upstream");
    let r = response_to(reply, "desktop-1");
    assert_eq!(r.code, ResponseCode::NoError);
    assert_eq!(r.answers.len(), 0);
    assert!(!r.authority.is_empty(), "NODATA must carry a SOA");
    assert_eq!(r.authority[0].ttl, 77);
}

#[test]
fn network_name_aaaa_query_falls_through_when_nodata_disabled() {
    let mut handler = bare_handler(None)
        .with_dynamic_ttl_secs(77)
        .with_nodata_for_missing_types_network_name(false);
    let w = with_network("desktop-1", NetworkName::V4(v4(10, 10, 1, 50)));
    let reply = drive(&mut handler, "desktop-1", RecordType::AAAA, w);
    assert!(went_upstream(&reply));
    assert_eq!(reply.rows[0].domain, "desktop-1");
    assert_ne!(response_to(reply, "desktop-1").code, ResponseCode::NXDomain);
}

fn desktop_record() -> LocalDnsRecord {
    LocalDnsRecord {
        domain: "desktop-1".to_string(),
        record_type: LocalDnsRecordType::A,
        value: "192.0.2.1".to_string(),
        match_subdomains: false,
        ttl_secs: None,
    }
}

fn static_table() -> LocalRecords {
    LocalRecords::build(&LocalDnsConfig {
        ttl_secs: 3600,
        dynamic_ttl_secs: 30,
        nodata_for_missing_types: true,
        records: vec![desktop_record()],
    })
}

#[test]
fn static_local_dns_record_wins_over_a_colliding_network_name() {
    let mut handler = bare_handler(Some(static_table())).with_dynamic_ttl_secs(77);
    let w = with_network("desktop-1", NetworkName::V4(v4(10, 10, 1, 50)));
    let reply = drive(&mut handler, "desktop-1", RecordType::A, w);
    assert!(!went_upstream(&reply));
    let r = response_to(reply, "desktop-1");
    assert_eq!(r.answers.len(), 1);
    assert_eq!(r.answers[0].data, RData::A(v4(192, 0, 2, 1)));
    assert_eq!(r.answers[0].ttl, 3600, "TTL must come from the static table");
}

#[test]
fn local_hits_are_counted_once_attached() {
    let mut quiet_handler = bare_handler(Some(static_table()));
    let reply = drive(&mut quiet_handler, "desktop-1", RecordType::A, world("desktop-1"));
    assert!(reply.local_hit.is_none());

    let mut counting = bare_handler(Some(static_table())).with_local_records_hits();
    let reply = drive(&mut counting, "desktop-1", RecordType::A, world("desktop-1"));
    let hit = reply.local_hit.expect("the hit is counted");
    assert!(matches!(hit.scope, LocalScope::Global));
    assert_eq!(hit.apex, "desktop-1");
    assert_eq!(reply.rows[0].outcome, Outcome::Local);
    assert_eq!(reply.rows[0].client_name.as_deref(), Some("desk"));
    assert!(reply.rows[0].client_profile.is_none());
}

#[test]
fn profile_records_shadow_the_global_ones() {
    let mut handler = bare_handler(Some(static_table())).with_local_records_hits();
    let mut w = world("desktop-1");
    let mut mine = desktop_record();
    mine.value = "192.0.2.7".to_string();
    let mut profile = empty_profile();
    profile.local_records = ProfileLocalRecords::build(&[mine], 5);
    w.resolution = Some(Resolution {
        device_name: None,
        profile: Some(profile),
        overlay: None,
    });
    let reply = drive(&mut handler, "desktop-1", RecordType::A, w);
    assert_eq!(reply.rows[0].client_profile.as_deref(), Some("default"));
    match &reply.local_hit.as_ref().unwrap().scope {
        LocalScope::Profile(p) => assert_eq!(p, "default"),
        LocalScope::Global => panic!("the profile answers first"),
    }
    let r = response_to(reply, "desktop-1");
    assert_eq!(r.answers[0].data, RData::A(v4(192, 0, 2, 7)));
    assert_eq!(r.answers[0].ttl, 5);
}

#[test]
fn local_names_have_no_data_for_other_types() {
    let mut handler = bare_handler(Some(static_table()));
    let reply = drive(&mut handler, "desktop-1", RecordType::MX, world("desktop-1"));
    assert_eq!(reply.rows[0].outcome, Outcome::Local);
    let r = response_to(reply, "desktop-1");
    assert_eq!(r.code, ResponseCode::NoError);
    assert!(r.answers.is_empty());
    assert_eq!(r.authority[0].ttl, 3600);
}

#[test]
fn closed_readiness_gate_servfails_every_query() {
    let mut handler = bare_handler(None);
    let w = World { gate_open: false, ..world("example.com") };
    let reply = drive(&mut handler, "example.com", RecordType::A, w);
    assert!(!went_upstream(&reply));
    assert!(reply.rows.is_empty());
    assert_eq!(response_to(reply, "example.com").code, ResponseCode::ServFail);
}

#[test]
fn readiness_gate_defaults_open() {
    let mut handler = bare_handler(None);
    let reply = drive(&mut handler, "example.com", RecordType::A, world("example.com"));
    assert!(went_upstream(&reply));
    assert_eq!(response_to(reply, "example.com").code, ResponseCode::NoError);
}

#[test]
fn closed_gate_warns_once_then_stays_quiet() {
    let mut handler = bare_handler(None);
    let closed = |q: &str| World { gate_open: false, ..world(q) };
    let first = drive(&mut handler, "example.com", RecordType::A, closed("example.com"));
    assert!(first.alarm, "the first refusal warns");
    let second = drive(&mut handler, "example.org", RecordType::A, closed("example.org"));
    assert!(!second.alarm, "a second refusal stays quiet");
    let third = drive(&mut handler, "example.net", RecordType::A, closed("example.net"));
    assert!(!third.alarm, "the latch never resets");
    assert_eq!(response_to(third, "example.net").code, ResponseCode::ServFail);
}

#[test]
fn closed_gate_logs_warn_first_then_debug() {
    let mut handler = bare_handler(None);
    let closed = |q: &str| World { gate_open: false, ..world(q) };
    let first = drive(&mut handler, "example.com", RecordType::A, closed("example.com"));
    let second = drive(&mut handler, "example.org", RecordType::A, closed("example.org"));
    assert_eq!(
        vec![first.alarm, second.alarm],
        vec![true, false],
        "the first refusal must warn and every one after must drop to debug"
    );
    assert_eq!(response_to(first, "example.com").code, ResponseCode::ServFail);
    assert_eq!(response_to(second, "example.org").code, ResponseCode::ServFail);
}

#[test]
fn refused_sources_are_counted_and_not_recorded() {
    let mut handler = bare_handler(None);
    handler.set_allow_from(Some(vec![cidr("192.168.0.0/16")]));
    let reply = drive(&mut handler, "example.com", RecordType::A, world("example.com"));
    assert!(reply.refused_by_acl);
    assert!(reply.rows.is_empty());
    assert_eq!(response_to(reply, "example.com").code, ResponseCode::Refused);
    handler.set_allow_from(Some(vec![cidr("10.0.0.0/8")]));
    let reply = drive(&mut handler, "example.com", RecordType::A, world("example.com"));
    assert!(!reply.refused_by_acl);
}

#[test]
fn requests_without_a_valid_question_fail() {
    let mut handler = bare_handler(None);
    let none = handle_inner(&mut handler, client(), None, world("x.example"));
    assert_eq!(response_to(none, "x.example").code, ResponseCode::ServFail);
    let invalid = Some(Question { valid: false, ..question("x.example", RecordType::A).unwrap() });
    let reply = handle_inner(&mut handler, client(), invalid, world("x.example"));
    assert!(reply.rows.is_empty());
    assert_eq!(response_to(reply, "x.example").code, ResponseCode::ServFail);
}

#[test]
fn security_refusals_name_the_device() {
    let mut handler = secured_handler();
    let w = World {
        screening: PreQueryFacts { rate_exceeded: true, ..quiet() },
        device: Some("laptop".to_string()),
        ..world("x.example")
    };
    let reply = drive(&mut handler, "x.example", RecordType::A, w);
    assert_eq!(reply.rows.len(), 1);
    assert_eq!(reply.rows[0].outcome, Outcome::Refused);
    assert_eq!(reply.rows[0].client_name.as_deref(), Some("laptop"));
    assert!(reply.rows[0].blocked);
    let tally = record_outcome(&reply.rows[0]);
    assert!(tally.security_refusal && !tally.cache_hit && !tally.cache_negative_hit);
    assert_eq!(response_to(reply, "x.example").code, ResponseCode::Refused);
}

#[test]
fn dropped_responses_are_silent_and_slipped_ones_truncated() {
    let mut handler = secured_handler();
    let w = World { rrl: RrlAction::Drop, ..world("x.example") };
    let reply = drive(&mut handler, "x.example", RecordType::A, w);
    assert!(matches!(reply.body, Body::Silence));
    assert_eq!(reply.rows[0].outcome, Outcome::RrlDrop);
    assert!(record_outcome(&reply.rows[0]).security_refusal);

    let w = World { rrl: RrlAction::Slip, ..world("x.example") };
    let reply = drive(&mut handler, "x.example", RecordType::A, w);
    assert_eq!(reply.rows[0].outcome.label(), "RRL_SLIP");
    assert!(!reply.rows[0].blocked);
    let r = response_to(reply, "x.example");
    assert!(r.truncated && r.recursion_available && r.answers.is_empty());
}

#[test]
fn unmapped_clients_are_refused_whatever_the_name() {
    let mut handler = bare_handler(None);
    let mut w = world("x.example");
    w.resolution = Some(Resolution {
        device_name: Some("desk".to_string()),
        profile: None,
        overlay: None,
    });
    let reply = drive(&mut handler, "x.example", RecordType::A, w);
    assert!(!reply.alarm);
    assert_eq!(reply.rows[0].client_name.as_deref(), Some("desk"));
    assert_eq!(response_to(reply, "x.example").code, ResponseCode::Refused);

    let w = World { resolution: None, ..world("x.example") };
    let reply = drive(&mut handler, "x.example", RecordType::A, w);
    assert!(reply.alarm, "a missing resolver is worth a warning");
    assert!(reply.rows[0].client_name.is_none());
    assert_eq!(response_to(reply, "x.example").code, ResponseCode::Refused);
}

#[test]
fn blocked_names_pin_the_list_and_ignore_rewrites() {
    let mut handler = bare_handler(None);
    let w = World {
        verdict: FilterResult::Block,
        source: Some(BlockSource::List(3)),
        rewrite: Some("elsewhere.example".to_string()),
        ..world("ads.example")
    };
    let reply = drive(&mut handler, "ads.example", RecordType::A, w);
    assert_eq!(reply.rows.len(), 1);
    assert_eq!(reply.rows[0].outcome, Outcome::Blocked);
    assert_eq!(reply.rows[0].block_list_bit, Some(3));
    assert!(reply.rows[0].rewrote_from.is_none());
    assert_eq!(response_to(reply, "ads.example").answers[0].data, RData::A(v4(0, 0, 0, 0)));
}

#[test]
fn second_queries_come_out_of_the_cache() {
    let mut handler = bare_handler(None);
    let first = drive(&mut handler, "x.example", RecordType::A, world("x.example"));
    assert!(went_upstream(&first));
    let w = World { now: NOW + 10 * SECOND, ..world("x.example") };
    let second = drive(&mut handler, "x.example", RecordType::A, w);
    assert!(!went_upstream(&second));
    assert_eq!(second.rows[0].outcome, Outcome::Cached);
    assert!(record_outcome(&second.rows[0]).cache_hit);
    let r = send_body(second.body, None, &None, NOW + 10 * SECOND).unwrap();
    assert_eq!(r.answers[0].ttl, 50);
}

#[test]
fn cached_answers_are_inspected_again() {
    let mut handler = bare_handler(None).with_audit_writer();
    drive(&mut handler, "x.example", RecordType::A, world("x.example"));
    let mut w = world("x.example");
    w.inspection.chain = Some(("tracker.example".to_string(), BlockSource::List(9)));
    let reply = drive(&mut handler, "x.example", RecordType::A, w);
    assert_eq!(reply.rows.len(), 1);
    assert_eq!(reply.rows[0].outcome, Outcome::Blocked);
    assert_eq!(reply.rows[0].cname_chain_via.as_deref(), Some("tracker.example"));
    assert_eq!(reply.rows[0].block_list_bit, Some(9));
    let audit = reply.audit.expect("the block is audited");
    assert_eq!((audit.domain.as_str(), audit.source.label()), ("x.example", "list"));

    let again = drive(&mut handler, "x.example", RecordType::A, world("x.example"));
    assert!(went_upstream(&again), "the blocked slot is gone");
}

#[test]
fn fetched_answers_are_inspected_and_dropped() {
    let mut handler = bare_handler(None).with_audit_writer();
    let mut w = world("x.example");
    w.inspection.address = Some(IpAddr::V4(v4(203, 0, 113, 9)));
    let reply = drive(&mut handler, "x.example", RecordType::A, w);
    let outcomes: Vec<Outcome> = reply.rows.iter().map(|r| r.outcome).collect();
    assert_eq!(outcomes, vec![Outcome::Allowed, Outcome::Blocked]);
    assert!(reply.audit.is_none() && reply.rows[1].block_list_bit.is_none());
    let again = drive(&mut handler, "x.example", RecordType::A, world("x.example"));
    assert!(went_upstream(&again));
}

#[test]
fn any_queries_get_a_hinfo() {
    let mut handler = bare_handler(None);
    let reply = drive(&mut handler, "x.example", RecordType::ANY, world("x.example"));
    assert_eq!(reply.rows[0].outcome, Outcome::Hinfo);
    let r = response_to(reply, "x.example");
    assert_eq!(r.answers[0].ttl, 60);
    assert_eq!(r.answers[0].data, RData::HINFO(b"RFC8482".to_vec(), Vec::new()));
}

#[test]
fn tunneling_budget_counts_only_what_was_never_cached() {
    let mut handler = secured_handler();
    let over = |q: &str, now: u128| World { rate_exceeded: true, now, ..world(q) };
    let refused_query = drive(&mut handler, "x.example", RecordType::A, over("x.example", NOW));
    assert_eq!(refused_query.rows[0].outcome, Outcome::Refused);
    assert_eq!(refused_query.rows[0].client_profile.as_deref(), Some("default"));

    drive(&mut handler, "x.example", RecordType::A, world("x.example"));
    let later = NOW + 61 * SECOND;
    let stale = drive(&mut handler, "x.example", RecordType::A, over("x.example", later));
    assert!(went_upstream(&stale), "a stale name is repetition");

    let reverse = "1.168.192.in-addr.arpa";
    let ptr = drive(&mut handler, reverse, RecordType::PTR, over(reverse, NOW));
    assert!(went_upstream(&ptr), "reverse lookups have no budget");
}

#[test]
fn failures_fall_back_to_stale_entries() {
    let mut handler = bare_handler(None);
    drive(&mut handler, "x.example", RecordType::A, world("x.example"));
    let later = NOW + 61 * SECOND;
    let failing = |now: u128| World {
        now,
        fetched: Err(DnsError::UpstreamRequestFailed("no route".to_string())),
        ..world("x.example")
    };
    let reply = drive(&mut handler, "x.example", RecordType::A, failing(later));
    let outcomes: Vec<&str> = reply.rows.iter().map(|r| r.outcome.label()).collect();
    assert_eq!(outcomes, vec!["ALLOWED", "STALE"]);
    assert!(reply.alarm);
    assert!(reply.rows[1].cached && !reply.rows[1].cache_negative_hit);
    let r = send_body(reply.body, None, &None, later).unwrap();
    assert_eq!(r.answers[0].ttl, 1);

    let gone = drive(&mut handler, "x.example", RecordType::A, failing(later));
    assert_eq!(gone.rows.len(), 1);
    assert_eq!(response_to(gone, "x.example").code, ResponseCode::ServFail);
}

#[test]
fn uncacheable_codes_are_passed_on() {
    let mut handler = bare_handler(None);
    let w = World {
        fetched: Ok(Fetched {
            records: Vec::new(),
            response_code: ResponseCode::Refused,
            soa_minimum_ttl: None,
        }),
        ..world("x.example")
    };
    let reply = drive(&mut handler, "x.example", RecordType::A, w);
    let r = response_to(reply, "x.example");
    assert_eq!(r.code, ResponseCode::Refused);
    assert!(r.recursion_available);
    let again = drive(&mut handler, "x.example", RecordType::A, world("x.example"));
    assert!(went_upstream(&again));
}

#[test]
fn rewrites_are_logged_and_bridged() {
    let mut handler = bare_handler(None);
    let w = World {
        rewrite: Some("new.example".to_string()),
        ..world("new.example")
    };
    let reply = drive(&mut handler, "old.example", RecordType::A, w);
    assert_eq!(reply.rows[0].domain, "new.example");
    assert_eq!(reply.rows[0].rewrote_from.as_deref(), Some("old.example"));
    let r = send_body(
        reply.body,
        Some(DnssecDecision::SetAd),
        &Some(name("old.example")),
        NOW,
    )
    .unwrap();
    assert!(!r.authentic_data);
    assert_eq!(r.answers[0].data, RData::CNAME(name("new.example")));
    assert!(names_match(&r.answers[0].name, &name("OLD.example")));

    let direct = drive(&mut handler, "new.example", RecordType::A, world("new.example"));
    assert_eq!(direct.rows[0].outcome, Outcome::Cached, "the rewritten name fills the cache");
}

#[test]
fn refreshes_are_taken_in_only_clean() {
    let answer = || Fetched {
        records: vec![a_record("x.example", 200)],
        response_code: ResponseCode::NoError,
        soa_minimum_ttl: None,
    };
    for (cname, ip, taken) in [(false, false, true), (true, false, false), (false, true, false)] {
        let mut handler = bare_handler(None);
        let q = handler
            .receive(client(), true, question("x.example", RecordType::A))
            .ok()
            .expect("the query is received");
        let resolution = world("x.example").resolution;
        let p = handler
            .judge(q, resolution.as_ref(), None, FilterResult::Forward, None)
            .ok()
            .expect("the query passes");
        handler.take_prefetched(&p, answer(), cname, ip, NOW);
        let (_, found) = handler.look_up(&p, NOW);
        assert_eq!(matches!(found, CacheLookup::Fresh(_)), taken);
    }
}

#[test]
fn record_types_have_names_in_the_log() {
    assert_eq!(record_type_str(RecordType::HTTPS), "HTTPS");
    assert_eq!(record_type_str(RecordType::TLSA), "TLSA");
    assert_eq!(record_type_str(RecordType::ANY), "OTHER");
    assert_eq!(record_type_str(RecordType::Other(4711)), "OTHER");
}

// ── Cache slots of blocked answers ────────────────────────────────────

fn ecs_test_prefix() -> EcsPrefix {
    EcsPrefix { addr: IpAddr::V4(v4(10, 10, 1, 0)), prefix: 24 }
}

fn is_fresh(cache: &DnsCache, domain: &str, rt: RecordType, ecs: Option<EcsPrefix>) -> bool {
    matches!(cache.lookup(domain, rt, DNSClass::IN, ecs, NOW), CacheLookup::Fresh(_))
}

fn fresh_records(cache: &DnsCache, domain: &str, ecs: Option<EcsPrefix>) -> Vec<Record> {
    match cache.lookup(domain, RecordType::A, DNSClass::IN, ecs, NOW) {
        CacheLookup::Fresh(e) => e.records().clone(),
        other => panic!("populated entry must be fresh, got {other:?}"),
    }
}

fn filled(domain: &str, records: Vec<Record>, slots: &[Option<EcsPrefix>]) -> DnsCache {
    let mut cache = DnsCache::new(&cache_test_config());
    for ecs in slots {
        cache.insert(
            domain,
            RecordType::A,
            DNSClass::IN,
            records.clone(),
            ResponseCode::NoError,
            None,
            *ecs,
            NOW,
        );
    }
    cache
}

fn blocked_address(records: &[Record], blocked: &[Ipv4Addr]) -> Option<Ipv4Addr> {
    records.iter().find_map(|r| match &r.data {
        RData::A(ip) if blocked.contains(ip) => Some(*ip),
        _ => None,
    })
}

#[test]
fn cache_hit_cname_chain_blocked_invalidates_entry() {
    let records = vec![
        cname_record("alias.example.com.", "tracker.evil.com.", 300),
        a_record("tracker.evil.com.", 300),
    ];
    let mut cache = filled("alias.example.com", records, &[None]);
    let filter = filter_with_blocked(&["tracker.evil.com"]);
    let held = fresh_records(&cache, "alias.example.com", None);
    let trip = cname_chain_blocked(&held, 16, |t: &str| filter.is_blocked(t));
    assert_eq!(trip.as_deref(), Some("tracker.evil.com"));
    cache.invalidate_key("alias.example.com", RecordType::A, DNSClass::IN, None);
    assert!(matches!(
        cache.lookup("alias.example.com", RecordType::A, DNSClass::IN, None, NOW),
        CacheLookup::Miss
    ));
}

#[test]
fn cache_hit_cname_chain_clean_passes_through() {
    let records = vec![
        cname_record("api.example.com.", "cdn.cloudflare.net.", 300),
        a_record("cdn.cloudflare.net.", 300),
    ];
    let cache = filled("api.example.com", records, &[None]);
    let filter = filter_with_blocked(&["tracker.evil.com"]);
    let held = fresh_records(&cache, "api.example.com", None);
    assert!(cname_chain_blocked(&held, 16, |t: &str| filter.is_blocked(t)).is_none());
    assert!(is_fresh(&cache, "api.example.com", RecordType::A, None));
}

#[test]
fn cache_hit_ip_blocklist_match_invalidates_entry() {
    let mut cache =
        filled("fastflux.example.com", vec![a_record("fastflux.example.com.", 300)], &[None]);
    let held = fresh_records(&cache, "fastflux.example.com", None);
    assert_eq!(blocked_address(&held, &[v4(1, 2, 3, 4)]), Some(v4(1, 2, 3, 4)));
    cache.invalidate_key("fastflux.example.com", RecordType::A, DNSClass::IN, None);
    assert!(!is_fresh(&cache, "fastflux.example.com", RecordType::A, None));
}

#[test]
fn cache_hit_ip_blocklist_clean_passes_through() {
    let cache = filled("clean.example.com", vec![a_record("clean.example.com.", 300)], &[None]);
    let held = fresh_records(&cache, "clean.example.com", None);
    assert!(blocked_address(&held, &[v4(9, 9, 9, 9)]).is_none());
    assert!(is_fresh(&cache, "clean.example.com", RecordType::A, None));
}

#[test]
fn cache_hit_invalidate_key_targets_only_matched_qtype() {
    let mut cache = filled(
        "site.example.com",
        vec![cname_record("site.example.com.", "tracker.evil.com.", 300)],
        &[None],
    );
    cache.insert(
        "site.example.com",
        RecordType::AAAA,
        DNSClass::IN,
        vec![a_record("site.example.com.", 300)],
        ResponseCode::NoError,
        None,
        None,
        NOW,
    );
    cache.invalidate_key("site.example.com", RecordType::A, DNSClass::IN, None);
    assert!(!is_fresh(&cache, "site.example.com", RecordType::A, None));
    assert!(
        is_fresh(&cache, "site.example.com", RecordType::AAAA, None),
        "AAAA tuple must survive A-only invalidation"
    );
}

#[test]
fn ecs_bucketed_cache_hit_cname_block_invalidates_correct_bucket() {
    let prefix = Some(ecs_test_prefix());
    let records = vec![
        cname_record("alias.example.com.", "tracker.evil.com.", 300),
        a_record("tracker.evil.com.", 300),
    ];
    let mut cache = filled("alias.example.com", records, &[prefix, None]);
    let filter = filter_with_blocked(&["tracker.evil.com"]);
    let held = fresh_records(&cache, "alias.example.com", prefix);
    let trip = cname_chain_blocked(&held, 16, |t: &str| filter.is_blocked(t));
    assert_eq!(trip.as_deref(), Some("tracker.evil.com"));
    cache.invalidate_key("alias.example.com", RecordType::A, DNSClass::IN, prefix);
    assert!(!is_fresh(&cache, "alias.example.com", RecordType::A, prefix));
    assert!(is_fresh(&cache, "alias.example.com", RecordType::A, None));
}

#[test]
fn ecs_bucketed_cache_hit_ip_block_invalidates_correct_bucket() {
    let prefix = Some(ecs_test_prefix());
    let records = vec![a_record("fastflux.example.com.", 300)];
    let mut cache = filled("fastflux.example.com", records, &[prefix, None]);
    let held = fresh_records(&cache, "fastflux.example.com", prefix);
    assert_eq!(blocked_address(&held, &[v4(1, 2, 3, 4)]), Some(v4(1, 2, 3, 4)));
    cache.invalidate_key("fastflux.example.com", RecordType::A, DNSClass::IN, prefix);
    assert!(!is_fresh(&cache, "fastflux.example.com", RecordType::A, prefix));
    assert!(is_fresh(&cache, "fastflux.example.com", RecordType::A, None));
}

/// Asks for a name in the bucket of a client subnet, over a slot outside it.
fn bucketed_block(qname: &str, inspection: Inspection) -> (bool, bool) {
    let prefix = Some(ecs_test_prefix());
    let cache = filled(qname, vec![a_record(qname, 300)], &[None]);
    let mut handler = ForwardHandler::new(cache, None, None, None, 60);
    let w = World { ecs: prefix, inspection, ..world(qname) };
    let reply = drive(&mut handler, qname, RecordType::A, w);
    assert!(went_upstream(&reply));
    assert_eq!(reply.rows[1].outcome, Outcome::Blocked);
    let bucketed = World { ecs: prefix, ..world(qname) };
    let bucket_gone = went_upstream(&drive(&mut handler, qname, RecordType::A, bucketed));
    let plain_kept = !went_upstream(&drive(&mut handler, qname, RecordType::A, world(qname)));
    (bucket_gone, plain_kept)
}

#[test]
fn ecs_bucketed_post_fetch_cname_block_invalidates_correct_bucket() {
    let found = Inspection {
        chain: Some(("tracker.evil.com".to_string(), BlockSource::Rule)),
        address: None,
    };
    assert_eq!(bucketed_block("freshly.example.com", found), (true, true));
}

#[test]
fn ecs_bucketed_post_fetch_ip_block_invalidates_correct_bucket() {
    let found = Inspection {
        chain: None,
        address: Some(IpAddr::V4(parse_v4("203.0.113.9").unwrap())),
    };
    assert_eq!(bucketed_block("freshly-ip.example.com", found), (true, true));
}

#[test]
fn helper_with_none_does_not_touch_ecs_bucketed_slot() {
    let prefix = Some(ecs_test_prefix());
    let mut cache =
        filled("dual.example.com", vec![a_record("dual.example.com.", 300)], &[prefix, None]);
    cache.invalidate_key("dual.example.com", RecordType::A, DNSClass::IN, None);
    assert!(!is_fresh(&cache, "dual.example.com", RecordType::A, None));
    assert!(is_fresh(&cache, "dual.example.com", RecordType::A, prefix));
}

// ── Single steps ──────────────────────────────────────────────────────

fn passed(handler: &mut ForwardHandler, qname: &str, record_type: RecordType) -> Passed {
    let query = match handler.receive(client(), true, question(qname, record_type)) {
        Ok(query) => query,
        Err(_) => panic!("the query was not received"),
    };
    let w = world(qname);
    match handler.judge(query, w.resolution.as_ref(), None, FilterResult::Forward, None) {
        Ok(passed) => passed,
        Err(_) => panic!("the query was not passed"),
    }
}

#[test]
fn only_listed_sources_have_a_response_budget_of_their_own() {
    let mut handler = bare_handler(None);
    let p = passed(&mut handler, "example.com", RecordType::A);
    assert!(!handler.rrl_per_client(&p.query), "without a list nobody is vouched for");
    handler.set_allow_from(Some(vec![cidr("10.0.0.0/8")]));
    assert!(handler.rrl_per_client(&p.query));
    handler.set_allow_from(Some(Vec::new()));
    assert!(!handler.rrl_per_client(&p.query), "an empty list vouches for nobody");
}

#[test]
fn the_tunneling_budget_counts_misses_of_ordinary_names() {
    let mut handler = secured_handler();
    let p = passed(&mut handler, "example.com", RecordType::A);
    assert!(handler.counts_rate(&p, true));
    assert!(!handler.counts_rate(&p, false), "a name that the cache knows is no tunnel");
    let reverse = passed(&mut handler, "7.2.0.192.in-addr.arpa", RecordType::PTR);
    assert!(!handler.counts_rate(&reverse, true));
    let any = passed(&mut handler, "example.com", RecordType::ANY);
    assert!(!handler.counts_rate(&any, true), "a query for any type never goes upstream");
    let mut open = bare_handler(None);
    let p = passed(&mut open, "example.com", RecordType::A);
    assert!(!open.counts_rate(&p, true), "nothing counts without a security layer");
}

#[test]
fn the_upstream_is_asked_for_the_rewritten_name() {
    let mut handler = bare_handler(None);
    let p = passed(&mut handler, "api.old.example", RecordType::A);
    assert_eq!(handler.upstream_name(&p), name("api.old.example."));
    let p = rewrite(p, Some("api.new.example".to_string()));
    assert_eq!(handler.upstream_name(&p), name("api.new.example."));
    assert_eq!(p.rewrote_from.as_deref(), Some("api.old.example"));
}

#[test]
fn audit_strings_are_frozen() {
    assert_eq!(AUDIT_TARGET, "audit");
    assert_eq!(AUDIT_ECS_INJECT_EVENT, "ecs_inject");
    assert_eq!(profile_tag(None), "<anonymous>");
    assert_eq!(profile_tag(Some("kids")), "kids");
}

// ── Exceptions and the inspection of answers ──────────────────────────

#[test]
fn only_exceptions_allow_a_name() {
    let profile = empty_profile();
    assert!(!name_allowed("bank.example", &profile, None), "not being blocked is no exception");
    let overlay = overlay_with(&["bank.example"], &["tiktok.com"], false);
    assert!(name_allowed("bank.example", &profile, Some(&overlay)));
    assert!(name_allowed("login.bank.example", &profile, Some(&overlay)));
    assert!(!name_allowed("notbank.example", &profile, Some(&overlay)));
    assert!(!name_allowed("tiktok.com", &profile, Some(&overlay)));

    let mut profile = empty_profile();
    profile.allow_domains.insert("work.example");
    assert!(name_allowed("vpn.work.example", &profile, None));
    assert!(name_allowed("work.example", &profile, Some(&overlay)));
    assert!(name_allowed("bank.example", &profile, Some(&overlay)));
    assert!(!name_allowed("example", &profile, Some(&overlay)));
}

fn resolved_as(profile: ResolvedProfile, overlay: Option<DeviceOverlay>) -> Option<Resolution> {
    Some(Resolution {
        device_name: Some("desk".to_string()),
        profile: Some(profile),
        overlay,
    })
}

#[test]
fn the_policy_is_that_of_the_name_after_a_rewrite() {
    let mut handler = bare_handler(None);
    let device = overlay_with(&["new.example"], &[], false);
    let resolution = resolved_as(empty_profile(), Some(device));
    let p = passed(&mut handler, "old.example", RecordType::A);
    assert!(!name_policy(&p, resolution.as_ref()));
    let p = rewrite(p, Some("new.example".to_string()));
    assert!(name_policy(&p, resolution.as_ref()));
    assert!(!name_policy(&p, None), "without a profile nothing is excepted");
}

/// An upstream answer with a blocked target, where no exception lets it pass.
fn inspected_world(qname: &str, resolution: Option<Resolution>) -> World {
    let chain = Some(("tracker.example".to_string(), BlockSource::List(9)));
    World { resolution, inspection: Inspection { chain, address: None }, ..world(qname) }
}

#[test]
fn exceptions_reach_the_inspection_of_answers() {
    let blocked = |qname: &str, target: Option<&str>, r: Option<Resolution>| {
        let mut handler = bare_handler(None);
        let mut w = inspected_world(target.unwrap_or(qname), r);
        w.rewrite = target.map(str::to_string);
        let reply = drive(&mut handler, qname, RecordType::A, w);
        reply.rows.iter().any(|row| row.outcome == Outcome::Blocked)
    };
    let device = |names: &[&str]| resolved_as(empty_profile(), Some(overlay_with(names, &[], false)));
    let mut lenient = empty_profile();
    lenient.allow_domains.insert("x.example");

    assert!(blocked("x.example", None, resolved_as(empty_profile(), None)));
    assert!(!blocked("x.example", None, device(&["x.example"])));
    assert!(!blocked("x.example", None, resolved_as(lenient, None)));
    assert!(blocked("x.example", None, device(&["y.example"])));
    assert!(!blocked("x.example", Some("y.example"), device(&["y.example"])));
    assert!(blocked("x.example", Some("y.example"), device(&["x.example"])));
}

#[test]
fn exceptions_reach_the_inspection_of_cached_answers() {
    let mut handler = bare_handler(None);
    drive(&mut handler, "x.example", RecordType::A, world("x.example"));
    let device = overlay_with(&["x.example"], &[], false);
    let w = inspected_world("x.example", resolved_as(empty_profile(), Some(device)));
    let reply = drive(&mut handler, "x.example", RecordType::A, w);
    assert_eq!(reply.rows[0].outcome, Outcome::Cached);

    let w = inspected_world("x.example", resolved_as(empty_profile(), None));
    let reply = drive(&mut handler, "x.example", RecordType::A, w);
    assert_eq!(reply.rows[0].outcome, Outcome::Blocked);
}

// ── Fetching in two steps ─────────────────────────────────────────────

#[test]
fn a_stale_entry_goes_before_the_upstream_is_asked() {
    let mut handler = bare_handler(None);
    drive(&mut handler, "x.example", RecordType::A, world("x.example"));
    let later = NOW + 61 * SECOND;
    let p = passed(&mut handler, "x.example", RecordType::A);
    let (key, found) = handler.look_up(&p, later);
    let CacheLookup::Stale(stale) = found else {
        panic!("the entry is stale");
    };
    assert!(handler.begin_fetch(&key, true, later).is_none());
    assert!(matches!(handler.look_up(&p, later).1, CacheLookup::Miss));

    let failed = handler.end_fetch(key.clone(), Some(stale), Err(DnsError::AllUpstreamsFailed), later);
    let failure = failed.err().expect("the fetch failed");
    assert_eq!(failure.error, DnsError::AllUpstreamsFailed);
    assert_eq!(failure.stale.expect("the stale entry comes along").records().len(), 1);
    assert!(matches!(handler.look_up(&p, later).1, CacheLookup::Miss));

    let answer = Fetched {
        records: vec![a_record("x.example", 200)],
        response_code: ResponseCode::NoError,
        soa_minimum_ttl: None,
    };
    let entry = handler.end_fetch(key, None, Ok(answer), later).ok().expect("the answer is taken");
    assert_eq!(entry.ttl_secs(), 200);
    assert!(matches!(handler.look_up(&p, later).1, CacheLookup::Fresh(_)));
}

#[test]
fn a_slot_that_was_filled_meanwhile_is_taken() {
    let mut handler = bare_handler(None);
    let p = passed(&mut handler, "x.example", RecordType::A);
    let (key, _) = handler.look_up(&p, NOW);
    assert!(handler.begin_fetch(&key, false, NOW).is_none());
    drive(&mut handler, "x.example", RecordType::A, world("x.example"));
    let entry = handler.begin_fetch(&key, false, NOW).expect("the slot is filled");
    assert_eq!(entry.ttl_secs(), 60);
}

// ── Step by step ──────────────────────────────────────────────────────

fn waiting(turn: Turn) -> Stage {
    match turn {
        Turn::Ask(stage) => stage,
        Turn::Done(..) => panic!("the query is done"),
    }
}

fn done(turn: Turn) -> (Reply, Option<Passed>) {
    match turn {
        Turn::Done(reply, served) => (reply, served),
        Turn::Ask(_) => panic!("the query waits"),
    }
}

/// Takes a query as far as the cache.
fn to_the_cache(handler: &mut ForwardHandler, qname: &str, target: Option<&str>) -> Stage {
    let w = world(qname);
    let turn = begin(handler, client(), true, question(qname, RecordType::A));
    let mut stage = waiting(turn);
    for event in [
        Event::Screened(w.screening),
        Event::Limited(w.rrl),
        Event::Resolved(w.resolution, None),
        Event::Networked(NetworkName::Unknown),
        Event::Evaluated(FilterResult::Forward, None),
        Event::Rewritten(target.map(str::to_string), NOW),
    ] {
        stage = waiting(advance(handler, stage, event));
    }
    stage
}

fn nothing_found() -> Event {
    Event::Inspected(Inspection { chain: None, address: None })
}

#[test]
fn a_query_goes_upstream_step_by_step() {
    let mut handler = bare_handler(None);
    let stage = to_the_cache(&mut handler, "old.example", Some("new.example"));
    assert!(matches!(&stage, Stage::Counting { stale: None, counted: false, .. }));
    let stage = waiting(advance(&mut handler, stage, Event::Counted(false, NOW)));
    let Stage::Fetching { name: asked, .. } = &stage else {
        panic!("the upstream is asked");
    };
    assert_eq!(*asked, name("new.example"));
    let answer = Event::Answered(world("new.example").fetched, NOW);
    let stage = waiting(advance(&mut handler, stage, answer));
    assert!(matches!(&stage, Stage::Settling { allowed: false, .. }));
    let (reply, served) = done(advance(&mut handler, stage, nothing_found()));
    assert!(went_upstream(&reply) && served.is_none());

    let stage = to_the_cache(&mut handler, "new.example", None);
    assert!(matches!(&stage, Stage::Inspecting { .. }));
    let (reply, served) = done(advance(&mut handler, stage, nothing_found()));
    assert_eq!(reply.rows[0].outcome, Outcome::Cached);
    assert_eq!(served.expect("the entry may be refreshed").domain, "new.example");
}

#[test]
fn a_blocked_entry_is_not_to_be_refreshed() {
    let mut handler = bare_handler(None);
    drive(&mut handler, "x.example", RecordType::A, world("x.example"));
    let stage = to_the_cache(&mut handler, "x.example", None);
    let address = Some(IpAddr::V4(v4(203, 0, 113, 9)));
    let found = Event::Inspected(Inspection { chain: None, address });
    let (reply, served) = done(advance(&mut handler, stage, found));
    assert_eq!(reply.rows[0].outcome, Outcome::Blocked);
    assert!(served.is_none());
}

#[test]
fn early_refusals_wait_for_the_name_of_the_device() {
    let mut handler = secured_handler();
    let turn = begin(&mut handler, client(), true, question("x.example", RecordType::A));
    let stage = waiting(advance(&mut handler, waiting(turn), Event::Screened(quiet())));
    assert!(matches!(&stage, Stage::Limiting { per_client: false, .. }));
    let stage = waiting(advance(&mut handler, stage, Event::Limited(RrlAction::Drop)));
    let (reply, _) = done(advance(&mut handler, stage, Event::Named(Some("desk".to_string()))));
    assert!(matches!(reply.body, Body::Silence));
    assert_eq!(reply.rows[0].client_name.as_deref(), Some("desk"));
}

#[test]
fn a_failed_fetch_without_a_stale_entry_needs_no_inspection() {
    let mut handler = bare_handler(None);
    let stage = to_the_cache(&mut handler, "x.example", None);
    let stage = waiting(advance(&mut handler, stage, Event::Counted(false, NOW)));
    let failed = Event::Answered(Err(DnsError::AllUpstreamsFailed), NOW);
    let (reply, _) = done(advance(&mut handler, stage, failed));
    assert!(reply.alarm);
    assert_eq!(response_to(reply, "x.example").code, ResponseCode::ServFail);
}

#[test]
fn events_that_nobody_waits_for_change_nothing() {
    let mut handler = bare_handler(None);
    let turn = begin(&mut handler, client(), true, question("x.example", RecordType::A));
    let stage = waiting(advance(&mut handler, waiting(turn), nothing_found()));
    let Stage::Screening { query } = &stage else {
        panic!("the query still waits for its screening");
    };
    assert_eq!(query.domain, "x.example");
}
