//! The global local records: exact names, wildcards and reverse names.
use std::collections::HashMap;

use purge_warden::local::{LocalLookup, LocalRecords};
use purge_warden::net::{ipv4_to_ptr, ipv6_to_ptr, parse_v6, Ipv4Addr};
use purge_warden::record::{Name, RData, Record, RecordType};
use purge_warden::settings::{LocalDnsConfig, LocalDnsRecord, LocalDnsRecordType};

fn name(text: &str) -> Name {
    let trimmed = text.trim_end_matches('.');
    Name {
        labels: trimmed.split('.').map(|l| l.as_bytes().to_vec()).collect(),
        fqdn: true,
    }
}

/// Counts hits by scope and name.
struct Hits(HashMap<(String, String), usize>);

impl Hits {
    fn new() -> Hits {
        Hits(HashMap::new())
    }
    fn record_hit(&mut self, scope: &str, apex: &str) {
        *self.0.entry((scope.to_string(), apex.to_string())).or_insert(0) += 1;
    }
    fn key_count(&self) -> usize {
        self.0.len()
    }
    fn count_for(&self, scope: &str, apex: &str) -> usize {
        self.0.get(&(scope.to_string(), apex.to_string())).copied().unwrap_or(0)
    }
}

fn config_with(records: Vec<(&str, LocalDnsRecordType, &str)>) -> LocalDnsConfig {
    LocalDnsConfig {
        ttl_secs: 3600,
        dynamic_ttl_secs: 30,
        nodata_for_missing_types: true,
        records: records
            .into_iter()
            .map(
                |(domain, rt, value)| LocalDnsRecord {
                    domain: domain.into(),
                    record_type: rt,
                    value: value.into(),
                    match_subdomains: false,
                    ttl_secs: None,
                },
            )
            .collect(),
    }
}

fn config_with_flags(records: Vec<(&str, LocalDnsRecordType, &str, bool)>) -> LocalDnsConfig {
    LocalDnsConfig {
        ttl_secs: 3600,
        dynamic_ttl_secs: 30,
        nodata_for_missing_types: true,
        records: records
            .into_iter()
            .map(|(domain, rt, value, match_subdomains)| {
                LocalDnsRecord {
                    domain: domain.into(),
                    record_type: rt,
                    value: value.into(),
                    match_subdomains,
                    ttl_secs: None,
                }
            })
            .collect(),
    }
}

#[test]
fn lookup_a_record() {
    let cfg = config_with(vec![("nas.home", LocalDnsRecordType::A, "192.168.1.50")]);
    let local = LocalRecords::build(&cfg);

    let result = local.lookup("nas.home", RecordType::A).hit().unwrap();
    assert_eq!(result.len(), 1);
    assert_eq!(result[0].record_type(), RecordType::A);
    match result[0].data {
        RData::A(ref a) => assert_eq!(*a, Ipv4Addr { octets: [192, 168, 1, 50] }),
        _ => panic!("expected A record"),
    }
}

#[test]
fn lookup_aaaa_record() {
    let cfg = config_with(vec![("server.home", LocalDnsRecordType::AAAA, "fd00::1")]);
    let local = LocalRecords::build(&cfg);

    let result = local.lookup("server.home", RecordType::AAAA).hit().unwrap();
    assert_eq!(result.len(), 1);
    assert_eq!(result[0].record_type(), RecordType::AAAA);
}

#[test]
fn lookup_cname_returns_cname_only_when_target_external() {
    let cfg = config_with(vec![(
        "media.home",
        LocalDnsRecordType::CNAME,
        "external.cdn.com",
    )]);
    let local = LocalRecords::build(&cfg);

    let result = local.lookup("media.home", RecordType::A).hit().unwrap();
    assert_eq!(result.len(), 1);
    assert_eq!(result[0].record_type(), RecordType::CNAME);
}

#[test]
fn lookup_cname_follows_local_target() {
    let cfg = config_with(vec![
        ("nas.home", LocalDnsRecordType::A, "192.168.1.50"),
        ("media.home", LocalDnsRecordType::CNAME, "nas.home"),
    ]);
    let local = LocalRecords::build(&cfg);

    let result = local.lookup("media.home", RecordType::A).hit().unwrap();
    assert_eq!(result.len(), 2);
    assert_eq!(result[0].record_type(), RecordType::CNAME);
    assert_eq!(result[1].record_type(), RecordType::A);
    assert_eq!(
        result[0].name,
        name("media.home."),
        "the CNAME RR is owned by the queried name"
    );
    assert_eq!(
        result[1].name,
        name("nas.home."),
        "followed target A RR keeps the target's own name — relabelling it to \
         the qname orphans it from the CNAME that points at it"
    );
}

#[test]
fn ptr_auto_generated_for_ipv4() {
    let cfg = config_with(vec![("nas.home", LocalDnsRecordType::A, "192.168.1.50")]);
    let local = LocalRecords::build(&cfg);

    let result = local
        .lookup("50.1.168.192.in-addr.arpa", RecordType::PTR)
        .hit()
        .unwrap();
    assert_eq!(result.len(), 1);
    assert_eq!(result[0].record_type(), RecordType::PTR);
}

#[test]
fn ptr_auto_generated_for_ipv6() {
    let cfg = config_with(vec![("server.home", LocalDnsRecordType::AAAA, "fd00::1")]);
    let local = LocalRecords::build(&cfg);

    let expected_ptr = ipv6_to_ptr(&parse_v6("fd00::1").unwrap());
    let result = local.lookup(&expected_ptr, RecordType::PTR).hit().unwrap();
    assert_eq!(result.len(), 1);
    assert_eq!(result[0].record_type(), RecordType::PTR);
}

#[test]
fn per_record_ttl_override_wins_fallback_elsewhere() {
    let mut cfg = config_with(vec![
        ("nas.home", LocalDnsRecordType::A, "192.168.1.50"),
        ("printer.home", LocalDnsRecordType::A, "192.168.1.60"),
    ]);
    cfg.records[0].ttl_secs = Some(60);

    let local = LocalRecords::build(&cfg);
    let overridden = local.lookup("nas.home", RecordType::A).hit().unwrap();
    assert_eq!(overridden[0].ttl, 60, "override must be served");
    let fallback = local.lookup("printer.home", RecordType::A).hit().unwrap();
    assert_eq!(fallback[0].ttl, 3600, "no override → section fallback");

    let ptr = local
        .lookup("50.1.168.192.in-addr.arpa", RecordType::PTR)
        .hit()
        .unwrap();
    assert_eq!(ptr[0].ttl, 60);

    assert!(matches!(
        local.lookup("nas.home", RecordType::AAAA),
        LocalLookup::NodataSynthesis { ttl: 3600 }
    ));
}

#[test]
fn lookup_miss_returns_miss() {
    let cfg = config_with(vec![("nas.home", LocalDnsRecordType::A, "192.168.1.50")]);
    let local = LocalRecords::build(&cfg);

    assert!(matches!(
        local.lookup("unknown.home", RecordType::A),
        LocalLookup::Miss
    ));
}

#[test]
fn lookup_wrong_type_synthesises_nodata() {
    let cfg = config_with(vec![("nas.home", LocalDnsRecordType::A, "192.168.1.50")]);
    let local = LocalRecords::build(&cfg);

    assert!(matches!(
        local.lookup("nas.home", RecordType::AAAA),
        LocalLookup::NodataSynthesis { ttl: 3600 }
    ));
    assert!(matches!(
        local.lookup("nas.home", RecordType::MX),
        LocalLookup::NodataSynthesis { ttl: 3600 }
    ));
}

#[test]
fn lookup_wrong_type_flag_off_falls_through() {
    let mut cfg = config_with(vec![("nas.home", LocalDnsRecordType::A, "192.168.1.50")]);
    cfg.nodata_for_missing_types = false;
    let local = LocalRecords::build(&cfg);

    assert!(matches!(
        local.lookup("nas.home", RecordType::AAAA),
        LocalLookup::Miss
    ));
}

#[test]
fn case_insensitive_domain() {
    let cfg = config_with(vec![("NAS.Home", LocalDnsRecordType::A, "192.168.1.50")]);
    let local = LocalRecords::build(&cfg);

    assert!(local.lookup("nas.home", RecordType::A).hit().is_some());
}

#[test]
fn swap_replaces_records() {
    let cfg1 = config_with(vec![("nas.home", LocalDnsRecordType::A, "192.168.1.50")]);
    let mut local = LocalRecords::build(&cfg1);
    assert_eq!(local.forward_count(), 1);

    let cfg2 = config_with(vec![
        ("nas.home", LocalDnsRecordType::A, "192.168.1.51"),
        ("server.home", LocalDnsRecordType::A, "192.168.1.100"),
    ]);
    local.swap(&cfg2);
    assert_eq!(local.forward_count(), 2);

    let result = local.lookup("nas.home", RecordType::A).hit().unwrap();
    match result[0].data {
        RData::A(ref a) => assert_eq!(*a, Ipv4Addr { octets: [192, 168, 1, 51] }),
        _ => panic!("expected updated A record"),
    }
}

#[test]
fn empty_config_builds_empty() {
    let cfg = LocalDnsConfig::default();
    let local = LocalRecords::build(&cfg);
    assert_eq!(local.forward_count(), 0);
    assert_eq!(local.reverse_count(), 0);
}

#[test]
fn has_domain_check() {
    let cfg = config_with(vec![("nas.home", LocalDnsRecordType::A, "192.168.1.50")]);
    let local = LocalRecords::build(&cfg);
    assert!(local.has_domain("nas.home"));
    assert!(!local.has_domain("unknown.home"));
}

#[test]
fn ipv4_ptr_format() {
    assert_eq!(
        ipv4_to_ptr(&Ipv4Addr { octets: [192, 168, 1, 50] }),
        "50.1.168.192.in-addr.arpa"
    );
}

#[test]
fn ipv6_ptr_format() {
    let ip = parse_v6("fd00::1").unwrap();
    let ptr = ipv6_to_ptr(&ip);
    assert_eq!(
        ptr,
        "1.0.0.0.0.0.0.0.0.0.0.0.0.0.0.0.0.0.0.0.0.0.0.0.0.0.0.0.0.0.d.f.ip6.arpa"
    );
}

fn a_ip(records: &[Record]) -> Ipv4Addr {
    match records[0].data {
        RData::A(ref a) => *a,
        _ => panic!("expected A record, got {:?}", records[0].record_type()),
    }
}

#[test]
fn wildcard_apex_served_via_exact_path() {
    let cfg = config_with_flags(vec![(
        "example.test",
        LocalDnsRecordType::A,
        "10.0.0.1",
        true,
    )]);
    let local = LocalRecords::build(&cfg);
    assert!(local.has_subdomain_records());
    assert_eq!(local.suffix_count(), 1);
    let hit = local.lookup("example.test", RecordType::A).hit().unwrap();
    assert_eq!(a_ip(&hit), Ipv4Addr { octets: [10, 0, 0, 1] });
    assert_eq!(hit[0].name, name("example.test."));
}

#[test]
fn wildcard_matches_descendant() {
    let cfg = config_with_flags(vec![(
        "example.test",
        LocalDnsRecordType::A,
        "10.0.0.1",
        true,
    )]);
    let local = LocalRecords::build(&cfg);
    let hit = local
        .lookup("app.example.test", RecordType::A)
        .hit()
        .unwrap();
    assert_eq!(a_ip(&hit), Ipv4Addr { octets: [10, 0, 0, 1] });
    assert_eq!(hit[0].name, name("app.example.test."));
    let deep = local
        .lookup("api.v2.app.example.test", RecordType::A)
        .hit()
        .unwrap();
    assert_eq!(a_ip(&deep), Ipv4Addr { octets: [10, 0, 0, 1] });
    assert_eq!(
        deep[0].name,
        name("api.v2.app.example.test.")
    );
}

#[test]
fn wildcard_longest_suffix_wins() {
    let cfg = config_with_flags(vec![
        ("example.test", LocalDnsRecordType::A, "10.0.0.1", true),
        ("api.example.test", LocalDnsRecordType::A, "10.0.0.2", true),
    ]);
    let local = LocalRecords::build(&cfg);
    let hit = local
        .lookup("x.api.example.test", RecordType::A)
        .hit()
        .unwrap();
    assert_eq!(a_ip(&hit), Ipv4Addr { octets: [10, 0, 0, 2] });
}

#[test]
fn wildcard_exact_record_beats_wildcard() {
    let cfg = config_with_flags(vec![
        ("example.test", LocalDnsRecordType::A, "10.0.0.1", true),
        ("app.example.test", LocalDnsRecordType::A, "10.0.0.2", false),
    ]);
    let local = LocalRecords::build(&cfg);
    let hit = local
        .lookup("app.example.test", RecordType::A)
        .hit()
        .unwrap();
    assert_eq!(a_ip(&hit), Ipv4Addr { octets: [10, 0, 0, 2] });
}

#[test]
fn wildcard_does_not_match_unrelated_name() {
    let cfg = config_with_flags(vec![(
        "example.test",
        LocalDnsRecordType::A,
        "10.0.0.1",
        true,
    )]);
    let local = LocalRecords::build(&cfg);
    assert!(matches!(
        local.lookup("google.com", RecordType::A),
        LocalLookup::Miss
    ));
    assert!(matches!(
        local.lookup("evilexample.test", RecordType::A),
        LocalLookup::Miss
    ));
}

#[test]
fn exact_only_record_does_not_match_descendant_and_short_circuits() {
    let cfg = config_with_flags(vec![(
        "example.test",
        LocalDnsRecordType::A,
        "10.0.0.1",
        false,
    )]);
    let local = LocalRecords::build(&cfg);
    assert!(!local.has_subdomain_records());
    assert_eq!(local.suffix_count(), 0);
    assert!(local.lookup("example.test", RecordType::A).hit().is_some());
    assert!(matches!(
        local.lookup("app.example.test", RecordType::A),
        LocalLookup::Miss
    ));
}

#[test]
fn wildcard_descendant_wrong_address_qtype_synthesises_nodata() {
    let cfg = config_with_flags(vec![(
        "example.test",
        LocalDnsRecordType::A,
        "10.0.0.1",
        true,
    )]);
    let local = LocalRecords::build(&cfg);
    assert!(matches!(
        local.lookup("app.example.test", RecordType::AAAA),
        LocalLookup::NodataSynthesis { ttl: 3600 }
    ));
}

#[test]
fn wildcard_descendant_non_address_qtype_misses() {
    let cfg = config_with_flags(vec![(
        "example.test",
        LocalDnsRecordType::A,
        "10.0.0.1",
        true,
    )]);
    let local = LocalRecords::build(&cfg);
    assert!(matches!(
        local.lookup("app.example.test", RecordType::MX),
        LocalLookup::Miss
    ));
}

#[test]
fn wildcard_cname_descendant_returns_cname() {
    let cfg = config_with_flags(vec![(
        "example.test",
        LocalDnsRecordType::CNAME,
        "proxy.internal",
        true,
    )]);
    let local = LocalRecords::build(&cfg);
    let hit = local
        .lookup("api.example.test", RecordType::A)
        .hit()
        .unwrap();
    assert_eq!(hit.len(), 1);
    assert_eq!(hit[0].record_type(), RecordType::CNAME);
    assert_eq!(hit[0].name, name("api.example.test."));
}

#[test]
fn wildcard_cname_follow_local_target_owner_split() {
    let cfg = config_with_flags(vec![
        ("example.test", LocalDnsRecordType::CNAME, "nas.home", true),
        ("nas.home", LocalDnsRecordType::A, "192.168.1.50", false),
    ]);
    let local = LocalRecords::build(&cfg);
    let hit = local
        .lookup("app.example.test", RecordType::A)
        .hit()
        .unwrap();
    assert_eq!(hit.len(), 2);
    assert_eq!(hit[0].record_type(), RecordType::CNAME);
    assert_eq!(
        hit[0].name,
        name("app.example.test."),
        "wildcard CNAME RR must be re-owned by the QNAME"
    );
    assert_eq!(hit[1].record_type(), RecordType::A);
    assert_eq!(
        hit[1].name,
        name("nas.home."),
        "followed target A RR keeps the target's own name"
    );
}

#[test]
fn exact_only_config_unchanged_nodata_and_ptr() {
    let cfg = config_with(vec![("nas.home", LocalDnsRecordType::A, "192.168.1.50")]);
    let local = LocalRecords::build(&cfg);
    assert!(!local.has_subdomain_records());
    assert_eq!(local.suffix_count(), 0);
    assert!(matches!(
        local.lookup("nas.home", RecordType::AAAA),
        LocalLookup::NodataSynthesis { ttl: 3600 }
    ));
    assert!(local
        .lookup("50.1.168.192.in-addr.arpa", RecordType::PTR)
        .hit()
        .is_some());
    assert!(matches!(
        local.lookup("sub.nas.home", RecordType::A),
        LocalLookup::Miss
    ));
}

#[test]
fn wildcard_flood_bounds_hit_table_to_apex_global() {

    let cfg = config_with_flags(vec![(
        "example.test",
        LocalDnsRecordType::A,
        "10.0.0.1",
        true,
    )]);
    let local = LocalRecords::build(&cfg);
    let mut hits = Hits::new();

    for i in 0..1000 {
        let qname = format!("host{i}.example.test");
        match local.lookup(&qname, RecordType::A) {
            LocalLookup::Hit { apex, .. } => {
                hits.record_hit("global", &apex);
            }
            _ => panic!("expected wildcard Hit for {qname}"),
        }
    }

    assert_eq!(
        hits.key_count(),
        1,
        "1000 distinct subdomains must collapse to the single apex key"
    );
    assert_eq!(
        hits.count_for("global", "example.test"),
        1000
    );
}

#[test]
fn ptr_hit_apex_is_owning_forward_record() {
    let cfg = config_with(vec![("nas.home", LocalDnsRecordType::A, "192.168.1.50")]);
    let local = LocalRecords::build(&cfg);
    match local.lookup("50.1.168.192.in-addr.arpa", RecordType::PTR) {
        LocalLookup::Hit { apex, .. } => assert_eq!(apex.as_str(), "nas.home"),
        _ => panic!("expected PTR Hit"),
    }
}
