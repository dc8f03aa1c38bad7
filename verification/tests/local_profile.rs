//! The local records of a profile.
use std::collections::HashMap;

use purge_warden::domain::label_count;
use purge_warden::local_profile::ProfileLocalRecords;
use purge_warden::net::Ipv4Addr;
use purge_warden::record::{Name, RData, RecordType};
use purge_warden::settings::{LocalDnsRecord, LocalDnsRecordType};

fn name(text: &str) -> Name {
    let trimmed = text.trim_end_matches('.');
    Name {
        labels: trimmed.split('.').map(|l| l.as_bytes().to_vec()).collect(),
        fqdn: true,
    }
}

/// Counts hits by scope and name.
struct Hits(HashMap<(String, String), usize>);

impl Hits {
    fn new() -> Hits {
        Hits(HashMap::new())
    }
    fn record_hit(&mut self, scope: &str, apex: &str) {
        *self.0.entry((scope.to_string(), apex.to_string())).or_insert(0) += 1;
    }
    fn key_count(&self) -> usize {
        self.0.len()
    }
    fn count_for(&self, scope: &str, apex: &str) -> usize {
        self.0.get(&(scope.to_string(), apex.to_string())).copied().unwrap_or(0)
    }
}

fn rec(
    domain: &str,
    rt: LocalDnsRecordType,
    value: &str,
    match_subdomains: bool,
) -> LocalDnsRecord {
    LocalDnsRecord {
        domain: domain.into(),
        record_type: rt,
        value: value.into(),
        match_subdomains,
        ttl_secs: None,
    }
}

fn rec_ttl(
    domain: &str,
    rt: LocalDnsRecordType,
    value: &str,
    match_subdomains: bool,
    ttl: u32,
) -> LocalDnsRecord {
    let mut r = rec(domain, rt, value, match_subdomains);
    r.ttl_secs = Some(ttl);
    r
}

#[test]
fn t2_label_count_basics() {
    assert_eq!(label_count(""), 0);
    assert_eq!(label_count("it"), 1);
    assert_eq!(label_count("example.test"), 2);
    assert_eq!(label_count("app.example.test"), 3);
    assert_eq!(label_count("a.b.c.d.e"), 5);
}

#[test]
fn t2_empty_records_yields_empty_table() {
    let plr = ProfileLocalRecords::build(&[], 60);
    assert!(plr.is_empty());
    assert_eq!(plr.forward_count(), 0);
    assert_eq!(plr.suffix_count(), 0);
    assert!(!plr.has_subdomain_records());
}

#[test]
fn t2_exact_match_a_record_wins() {
    let recs = vec![rec(
        "nas.home",
        LocalDnsRecordType::A,
        "192.168.1.50",
        false,
    )];
    let plr = ProfileLocalRecords::build(&recs, 60);
    let res = plr.lookup("nas.home", RecordType::A).unwrap();
    assert_eq!(res.len(), 1);
    assert_eq!(res[0].record_type(), RecordType::A);
}

#[test]
fn t2_exact_match_aaaa_record_wins() {
    let recs = vec![rec(
        "server.home",
        LocalDnsRecordType::AAAA,
        "fd00::1",
        false,
    )];
    let plr = ProfileLocalRecords::build(&recs, 60);
    let res = plr.lookup("server.home", RecordType::AAAA).unwrap();
    assert_eq!(res.len(), 1);
    assert_eq!(res[0].record_type(), RecordType::AAAA);
}

#[test]
fn t2_subdomain_match_apex() {
    let recs = vec![rec(
        "example.test",
        LocalDnsRecordType::A,
        "192.0.2.50",
        true,
    )];
    let plr = ProfileLocalRecords::build(&recs, 60);
    assert!(plr.has_subdomain_records());
    let res = plr.lookup("example.test", RecordType::A).unwrap();
    assert_eq!(res.len(), 1);
    assert_eq!(res[0].name, name("example.test."));
}

#[test]
fn t2_subdomain_match_descendant() {
    let recs = vec![rec(
        "example.test",
        LocalDnsRecordType::A,
        "192.0.2.50",
        true,
    )];
    let plr = ProfileLocalRecords::build(&recs, 60);
    let res = plr.lookup("app.example.test", RecordType::A).unwrap();
    assert_eq!(res.len(), 1);
    match res[0].data {
        RData::A(ref a) => assert_eq!(*a, Ipv4Addr { octets: [192, 0, 2, 50] }),
        _ => panic!("expected A"),
    }
    assert_eq!(res[0].name, name("app.example.test."));
}

#[test]
fn t2_subdomain_match_deeper_descendant() {
    let recs = vec![rec(
        "example.test",
        LocalDnsRecordType::A,
        "192.0.2.50",
        true,
    )];
    let plr = ProfileLocalRecords::build(&recs, 60);
    let res = plr
        .lookup("api.v2.app.example.test", RecordType::A)
        .unwrap();
    assert_eq!(res.len(), 1);
    assert_eq!(
        res[0].name,
        name("api.v2.app.example.test.")
    );
}

#[test]
fn t2_exact_wins_over_subdomain() {
    let recs = vec![
        rec("example.test", LocalDnsRecordType::A, "10.0.0.1", true),
        rec("app.example.test", LocalDnsRecordType::A, "10.0.0.2", false),
    ];
    let plr = ProfileLocalRecords::build(&recs, 60);
    let res = plr.lookup("app.example.test", RecordType::A).unwrap();
    assert_eq!(res.len(), 1);
    match res[0].data {
        RData::A(ref a) => assert_eq!(*a, Ipv4Addr { octets: [10, 0, 0, 2] }),
        _ => panic!("expected A"),
    }
}

#[test]
fn t2_longest_suffix_wins() {
    let recs = vec![
        rec("example.test", LocalDnsRecordType::A, "10.0.0.1", true),
        rec("api.example.test", LocalDnsRecordType::A, "10.0.0.2", true),
    ];
    let plr = ProfileLocalRecords::build(&recs, 60);
    let res = plr
        .lookup("something.api.example.test", RecordType::A)
        .unwrap();
    assert_eq!(res.len(), 1);
    match res[0].data {
        RData::A(ref a) => assert_eq!(*a, Ipv4Addr { octets: [10, 0, 0, 2] }),
        _ => panic!("expected A"),
    }
}

#[test]
fn t2_subdomain_does_not_match_unrelated_domain() {
    let recs = vec![rec(
        "example.test",
        LocalDnsRecordType::A,
        "192.0.2.50",
        true,
    )];
    let plr = ProfileLocalRecords::build(&recs, 60);
    assert!(plr.lookup("google.com", RecordType::A).is_none());
    assert!(plr.lookup("evilexample.test", RecordType::A).is_none());
}

#[test]
fn t2_exact_only_record_does_not_match_descendant() {
    let recs = vec![rec(
        "example.test",
        LocalDnsRecordType::A,
        "10.0.0.1",
        false,
    )];
    let plr = ProfileLocalRecords::build(&recs, 60);
    assert!(plr.lookup("example.test", RecordType::A).is_some());
    assert!(plr.lookup("app.example.test", RecordType::A).is_none());
    assert!(!plr.has_subdomain_records());
}

#[test]
fn t2_fast_path_bypass_when_no_subdomain_records() {
    let recs = vec![
        rec("a.home", LocalDnsRecordType::A, "10.0.0.1", false),
        rec("b.home", LocalDnsRecordType::A, "10.0.0.2", false),
    ];
    let plr = ProfileLocalRecords::build(&recs, 60);
    assert!(!plr.has_subdomain_records());
    assert!(plr.lookup("c.home", RecordType::A).is_none());
    assert!(plr.lookup("nonexistent.example", RecordType::A).is_none());
}

#[test]
fn t2_qtype_mx_bypassed_total() {
    let recs = vec![rec(
        "example.test",
        LocalDnsRecordType::A,
        "192.0.2.50",
        false,
    )];
    let plr = ProfileLocalRecords::build(&recs, 60);
    assert!(plr.lookup("example.test", RecordType::MX).is_none());
    assert!(plr.lookup("example.test", RecordType::TXT).is_none());
    assert!(plr.lookup("example.test", RecordType::SRV).is_none());
    assert!(plr.lookup("example.test", RecordType::NS).is_none());
    assert!(plr.lookup("example.test", RecordType::SOA).is_none());
    assert!(plr.lookup("example.test", RecordType::PTR).is_none());
}

#[test]
fn t2_qtype_aaaa_misses_when_only_a_present() {
    let recs = vec![rec(
        "example.test",
        LocalDnsRecordType::A,
        "192.0.2.50",
        false,
    )];
    let plr = ProfileLocalRecords::build(&recs, 60);
    assert!(plr.lookup("example.test", RecordType::AAAA).is_none());
}

#[test]
fn t2_cname_record_returned_when_target_external() {
    let recs = vec![rec(
        "media.home",
        LocalDnsRecordType::CNAME,
        "external.cdn.com",
        false,
    )];
    let plr = ProfileLocalRecords::build(&recs, 60);
    let res = plr.lookup("media.home", RecordType::A).unwrap();
    assert_eq!(res.len(), 1);
    assert_eq!(res[0].record_type(), RecordType::CNAME);
}

#[test]
fn t2_cname_follow_returns_cname_plus_target_a() {
    let recs = vec![
        rec("nas.home", LocalDnsRecordType::A, "192.168.1.50", false),
        rec("media.home", LocalDnsRecordType::CNAME, "nas.home", false),
    ];
    let plr = ProfileLocalRecords::build(&recs, 60);
    let res = plr.lookup("media.home", RecordType::A).unwrap();
    assert_eq!(res.len(), 2);
    assert_eq!(res[0].record_type(), RecordType::CNAME);
    assert_eq!(res[1].record_type(), RecordType::A);
    assert_eq!(
        res[0].name,
        name("media.home."),
        "the CNAME RR is owned by the queried name"
    );
    assert_eq!(
        res[1].name,
        name("nas.home."),
        "followed target A RR keeps the target's own name — relabelling it to \
         the qname orphans it from the CNAME that points at it"
    );
}

#[test]
fn t2_cname_query_for_cname_record_returns_cname_only() {
    let recs = vec![
        rec("nas.home", LocalDnsRecordType::A, "192.168.1.50", false),
        rec("media.home", LocalDnsRecordType::CNAME, "nas.home", false),
    ];
    let plr = ProfileLocalRecords::build(&recs, 60);
    let res = plr.lookup("media.home", RecordType::CNAME).unwrap();
    assert_eq!(res.len(), 1);
    assert_eq!(res[0].record_type(), RecordType::CNAME);
}

#[test]
fn t2_case_insensitive_domain_lookup() {
    let recs = vec![rec(
        "NAS.Home",
        LocalDnsRecordType::A,
        "192.168.1.50",
        false,
    )];
    let plr = ProfileLocalRecords::build(&recs, 60);
    assert!(plr.lookup("nas.home", RecordType::A).is_some());
}

#[test]
fn t2_ttl_per_record_overrides_default() {
    let recs = vec![rec_ttl(
        "nas.home",
        LocalDnsRecordType::A,
        "192.168.1.50",
        false,
        7200,
    )];
    let plr = ProfileLocalRecords::build(&recs, 60);
    let res = plr.lookup("nas.home", RecordType::A).unwrap();
    assert_eq!(res[0].ttl, 7200);
}

#[test]
fn t2_ttl_falls_back_to_default_when_none() {
    let recs = vec![rec(
        "nas.home",
        LocalDnsRecordType::A,
        "192.168.1.50",
        false,
    )];
    let plr = ProfileLocalRecords::build(&recs, 1234);
    let res = plr.lookup("nas.home", RecordType::A).unwrap();
    assert_eq!(res[0].ttl, 1234);
}

#[test]
fn t2_subdomain_apex_via_exact_path_skips_walk() {
    let recs = vec![rec(
        "example.test",
        LocalDnsRecordType::A,
        "192.0.2.50",
        true,
    )];
    let plr = ProfileLocalRecords::build(&recs, 60);
    let res = plr.lookup("example.test", RecordType::A).unwrap();
    assert_eq!(res.len(), 1);
}

#[test]
fn t2_multiple_subdomain_records_sorted_depth_desc() {
    let recs = vec![
        rec("a", LocalDnsRecordType::A, "10.0.0.1", true),
        rec("b.a", LocalDnsRecordType::A, "10.0.0.2", true),
        rec("c.b.a", LocalDnsRecordType::A, "10.0.0.3", true),
    ];
    let plr = ProfileLocalRecords::build(&recs, 60);
    let res = plr.lookup("x.c.b.a", RecordType::A).unwrap();
    match res[0].data {
        RData::A(ref a) => assert_eq!(*a, Ipv4Addr { octets: [10, 0, 0, 3] }),
        _ => panic!("expected A"),
    }
    let res = plr.lookup("x.b.a", RecordType::A).unwrap();
    match res[0].data {
        RData::A(ref a) => assert_eq!(*a, Ipv4Addr { octets: [10, 0, 0, 2] }),
        _ => panic!("expected A"),
    }
}

#[test]
fn t2_aaaa_subdomain_match() {
    let recs = vec![rec(
        "ipv6.home",
        LocalDnsRecordType::AAAA,
        "fd00::beef",
        true,
    )];
    let plr = ProfileLocalRecords::build(&recs, 60);
    let res = plr.lookup("api.ipv6.home", RecordType::AAAA).unwrap();
    assert_eq!(res[0].record_type(), RecordType::AAAA);
}

#[test]
fn t2_walk_stops_at_tld() {
    let plr = ProfileLocalRecords::build(&[], 60);
    assert!(plr.lookup("app.example.test", RecordType::A).is_none());
}

#[test]
fn t2_invalid_ipv4_silently_dropped() {
    let recs = vec![rec(
        "bad.home",
        LocalDnsRecordType::A,
        "999.999.999.999",
        false,
    )];
    let plr = ProfileLocalRecords::build(&recs, 60);
    assert!(plr.is_empty());
}

#[test]
fn t2_invalid_ipv6_silently_dropped() {
    let recs = vec![rec(
        "bad.home",
        LocalDnsRecordType::AAAA,
        "not-an-ipv6",
        false,
    )];
    let plr = ProfileLocalRecords::build(&recs, 60);
    assert!(plr.is_empty());
}

#[test]
fn t2_multiple_types_same_domain_coexist() {
    let recs = vec![
        rec("dual.home", LocalDnsRecordType::A, "10.0.0.5", false),
        rec("dual.home", LocalDnsRecordType::AAAA, "fd00::5", false),
    ];
    let plr = ProfileLocalRecords::build(&recs, 60);
    let a = plr.lookup("dual.home", RecordType::A).unwrap();
    assert_eq!(a[0].record_type(), RecordType::A);
    let aaaa = plr.lookup("dual.home", RecordType::AAAA).unwrap();
    assert_eq!(aaaa[0].record_type(), RecordType::AAAA);
}

#[test]
fn t2_subdomain_with_match_subdomains_apex_lookup_returns_record() {
    let recs = vec![rec("home.lan", LocalDnsRecordType::A, "10.0.0.1", true)];
    let plr = ProfileLocalRecords::build(&recs, 60);
    assert_eq!(plr.forward_count(), 1);
    assert_eq!(plr.suffix_count(), 1);
    let res = plr.lookup("home.lan", RecordType::A).unwrap();
    assert_eq!(res.len(), 1);
}

#[test]
fn t2_query_for_tld_only_does_not_match_subdomain_record() {
    let recs = vec![rec("home.lan", LocalDnsRecordType::A, "10.0.0.1", true)];
    let plr = ProfileLocalRecords::build(&recs, 60);
    assert!(plr.lookup("lan", RecordType::A).is_none());
}

#[test]
fn t2_cname_subdomain_match_returns_cname() {
    let recs = vec![rec(
        "example.test",
        LocalDnsRecordType::CNAME,
        "proxy.internal",
        true,
    )];
    let plr = ProfileLocalRecords::build(&recs, 60);
    let res = plr.lookup("api.example.test", RecordType::A).unwrap();
    assert_eq!(res.len(), 1);
    assert_eq!(res[0].record_type(), RecordType::CNAME);
    assert_eq!(res[0].name, name("api.example.test."));
}

#[test]
fn t2_wildcard_cname_follow_local_target_owner_split() {
    let recs = vec![
        rec("example.test", LocalDnsRecordType::CNAME, "nas.home", true),
        rec("nas.home", LocalDnsRecordType::A, "192.168.1.50", false),
    ];
    let plr = ProfileLocalRecords::build(&recs, 60);
    let res = plr.lookup("app.example.test", RecordType::A).unwrap();
    assert_eq!(res.len(), 2);
    assert_eq!(res[0].record_type(), RecordType::CNAME);
    assert_eq!(
        res[0].name,
        name("app.example.test."),
        "wildcard CNAME RR must be re-owned by the QNAME"
    );
    assert_eq!(res[1].record_type(), RecordType::A);
    assert_eq!(
        res[1].name,
        name("nas.home."),
        "followed target A RR keeps the target's own name"
    );
}

#[test]
fn t2_zero_ttl_default_falls_through() {
    let recs = vec![rec("ttl.home", LocalDnsRecordType::A, "10.0.0.1", false)];
    let plr = ProfileLocalRecords::build(&recs, 0);
    let res = plr.lookup("ttl.home", RecordType::A).unwrap();
    assert_eq!(res[0].ttl, 0);
}

#[test]
fn t2_two_subdomain_records_same_depth_both_kept() {
    let recs = vec![
        rec("a.home.lan", LocalDnsRecordType::A, "10.0.0.1", true),
        rec("b.home.lan", LocalDnsRecordType::A, "10.0.0.2", true),
    ];
    let plr = ProfileLocalRecords::build(&recs, 60);
    let res_a = plr.lookup("foo.a.home.lan", RecordType::A).unwrap();
    match res_a[0].data {
        RData::A(ref a) => assert_eq!(*a, Ipv4Addr { octets: [10, 0, 0, 1] }),
        _ => panic!("expected A"),
    }
    let res_b = plr.lookup("foo.b.home.lan", RecordType::A).unwrap();
    match res_b[0].data {
        RData::A(ref a) => assert_eq!(*a, Ipv4Addr { octets: [10, 0, 0, 2] }),
        _ => panic!("expected A"),
    }
}

#[test]
fn t2_default_yields_empty_table() {
    let plr = ProfileLocalRecords::default();
    assert!(plr.is_empty());
    assert!(!plr.has_subdomain_records());
    assert!(plr.lookup("anything.test", RecordType::A).is_none());
}

#[test]
fn hit_apex_is_matched_record_not_qname() {
    let recs = vec![
        rec("nas.home", LocalDnsRecordType::A, "192.168.1.50", false),
        rec("example.test", LocalDnsRecordType::A, "10.0.0.1", true),
    ];
    let plr = ProfileLocalRecords::build(&recs, 60);
    assert_eq!(
        plr.lookup_with_apex("nas.home", RecordType::A)
            .unwrap()
            .apex,
        "nas.home"
    );
    assert_eq!(
        plr.lookup_with_apex("deep.app.example.test", RecordType::A)
            .unwrap()
            .apex,
        "example.test"
    );
}

#[test]
fn wildcard_flood_bounds_hit_table_to_apex_profile() {

    let recs = vec![rec("example.test", LocalDnsRecordType::A, "10.0.0.1", true)];
    let plr = ProfileLocalRecords::build(&recs, 60);
    let mut hits = Hits::new();
    let scope = "kids";

    for i in 0..1000 {
        let qname = format!("host{i}.example.test");
        let hit = plr
            .lookup_with_apex(&qname, RecordType::A)
            .expect("wildcard descendant must hit");
        hits.record_hit(scope, &hit.apex);
    }

    assert_eq!(
        hits.key_count(),
        1,
        "1000 distinct subdomains must collapse to the single apex key"
    );
    assert_eq!(hits.count_for(scope, "example.test"), 1000);
}

#[test]
fn wildcard_flood_multi_record_bounded_by_config_count_profile() {

    let recs = vec![
        rec("a.lan", LocalDnsRecordType::A, "10.0.0.1", true),
        rec("b.lan", LocalDnsRecordType::A, "10.0.0.2", true),
        rec("c.lan", LocalDnsRecordType::A, "10.0.0.3", true),
    ];
    let plr = ProfileLocalRecords::build(&recs, 60);
    let mut hits = Hits::new();
    let scope = "global";

    for apex in ["a.lan", "b.lan", "c.lan"] {
        for i in 0..500 {
            let qname = format!("h{i}.{apex}");
            let hit = plr
                .lookup_with_apex(&qname, RecordType::A)
                .expect("must hit");
            hits.record_hit(scope, &hit.apex);
        }
    }

    assert!(
        hits.key_count() <= recs.len(),
        "key_count {} must be ≤ {} configured records",
        hits.key_count(),
        recs.len()
    );
    assert_eq!(hits.key_count(), 3);
    assert_eq!(hits.count_for(scope, "a.lan"), 500);
}

#[test]
fn a_profile_is_silent_only_where_nothing_it_holds_would_do() {
    let r = ProfileLocalRecords::build(
        &[
            rec("a.lan", LocalDnsRecordType::AAAA, "fd00::1", true),
            rec("lan", LocalDnsRecordType::A, "10.0.0.1", true),
        ],
        60,
    );
    let hit = r.lookup_with_apex("x.a.lan", RecordType::A).expect("a farther wildcard has one");
    assert_eq!(hit.apex, "lan");
    assert!(r.lookup_with_apex("b.lan", RecordType::AAAA).is_none());
    assert!(r.lookup_with_apex("a.home", RecordType::A).is_none());
}
