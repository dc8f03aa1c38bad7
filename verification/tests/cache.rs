//! The response cache, driven by a clock that the test sets.
use std::cell::{Cell, RefCell};
use std::rc::Rc;
use std::sync::Arc;
use std::time::Duration;

use purge_warden::cache::{
    entry_weight, CacheEntry, CacheLookup, CacheUsage, DnsCache, DnsExpiry, FetchFailure, Fetched,
    NEGATIVE_WEIGHT, POSITIVE_WEIGHT,
};
use purge_warden::client_subnet::EcsPrefix;
use purge_warden::error::DnsError;
use purge_warden::net::{parse_v4, IpAddr, Ipv4Addr};
use purge_warden::record::{DNSClass, Name, RData, Record, RecordType, ResponseCode};
use purge_warden::settings::CacheConfig;

/// An entry and the clock that it is read by.
struct Entry {
    inner: Arc<CacheEntry>,
    now: Rc<Cell<u128>>,
}

impl Entry {
    fn aged(records: Vec<Record>, ttl: Duration, age: Duration) -> Entry {
        let start: u128 = 1_000_000_000_000;
        let inner = CacheEntry::new(records, ResponseCode::NoError, start, ttl.as_secs());
        Entry { inner: Arc::new(inner), now: Rc::new(Cell::new(start + age.as_nanos())) }
    }
    fn records(&self) -> &Vec<Record> {
        self.inner.records()
    }
    fn response_code(&self) -> ResponseCode {
        self.inner.response_code()
    }
    fn is_negative(&self) -> bool {
        self.inner.is_negative()
    }
    fn remaining_ttl(&self) -> Duration {
        Duration::from_nanos(self.inner.remaining_ttl(self.now.get()) as u64)
    }
    fn records_with_remaining_ttl(&self) -> Vec<Record> {
        self.inner.records_with_remaining_ttl(self.now.get())
    }
    fn needs_prefetch(&self, fraction: f64) -> bool {
        let below = Duration::from_secs(self.inner.ttl_secs()).mul_f64(fraction);
        self.inner.needs_prefetch_below(below.as_nanos(), self.now.get())
    }
}

enum Found {
    Fresh(Entry),
    Stale(Entry),
    Miss,
}

impl Found {
    fn fresh(self) -> Option<Entry> {
        match self {
            Found::Fresh(e) => Some(e),
            _ => None,
        }
    }
    fn stale(self) -> Option<Entry> {
        match self {
            Found::Stale(e) => Some(e),
            _ => None,
        }
    }
}

/// A cache and the clock that it is read by.
struct TestCache {
    inner: RefCell<DnsCache>,
    now: Rc<Cell<u128>>,
}

impl TestCache {
    fn new(config: &CacheConfig) -> TestCache {
        TestCache {
            inner: RefCell::new(DnsCache::new(config)),
            now: Rc::new(Cell::new(1_000_000_000_000)),
        }
    }
    fn advance(&self, by: Duration) {
        self.now.set(self.now.get() + by.as_nanos());
    }
    fn entry(&self, inner: Arc<CacheEntry>) -> Entry {
        Entry { inner, now: Rc::clone(&self.now) }
    }
    #[allow(clippy::too_many_arguments)]
    fn insert(
        &self,
        domain: &str,
        record_type: RecordType,
        dns_class: DNSClass,
        records: Vec<Record>,
        code: ResponseCode,
        soa_minimum: Option<u32>,
        ecs: Option<EcsPrefix>,
    ) {
        self.inner.borrow_mut().insert(
            domain,
            record_type,
            dns_class,
            records,
            code,
            soa_minimum,
            ecs,
            self.now.get(),
        );
    }
    fn lookup(
        &self,
        domain: &str,
        record_type: RecordType,
        dns_class: DNSClass,
        ecs: Option<EcsPrefix>,
    ) -> Found {
        match self.inner.borrow().lookup(domain, record_type, dns_class, ecs, self.now.get()) {
            CacheLookup::Fresh(e) => Found::Fresh(self.entry(e)),
            CacheLookup::Stale(e) => Found::Stale(self.entry(e)),
            CacheLookup::Miss => Found::Miss,
        }
    }
    fn lookup_or_fetch<F: FnOnce() -> Result<Fetched, DnsError>>(
        &self,
        domain: &str,
        record_type: RecordType,
        dns_class: DNSClass,
        ecs: Option<EcsPrefix>,
        fetcher: F,
    ) -> Result<Entry, FetchFailure> {
        let now = self.now.get();
        let r = self
            .inner
            .borrow_mut()
            .lookup_or_fetch(domain, record_type, dns_class, ecs, fetcher, now);
        r.map(|e| self.entry(e))
    }
    fn entry_count(&self) -> u64 {
        self.inner.borrow().entry_count()
    }
    fn flushed_usage(&self) -> CacheUsage {
        self.inner.borrow_mut().flushed_usage()
    }
    fn clear(&self) {
        self.inner.borrow_mut().clear();
    }
    fn invalidate_domain(&self, domain: &str) {
        self.inner.borrow_mut().invalidate_domain(domain);
    }
    fn invalidate_key(
        &self,
        domain: &str,
        record_type: RecordType,
        dns_class: DNSClass,
        ecs: Option<EcsPrefix>,
    ) {
        self.inner.borrow_mut().invalidate_key(domain, record_type, dns_class, ecs);
    }
}

fn test_config() -> CacheConfig {
    CacheConfig {
        max_entries: 100,
        max_ttl_secs: 3600,
        min_ttl_secs: 5,
        negative_ttl_secs: 60,
        stale_buffer_secs: 300,
    }
}

fn name(text: &str) -> Name {
    Name { labels: text.split('.').map(|l| l.as_bytes().to_vec()).collect(), fqdn: true }
}

fn test_record(ttl: u32) -> Record {
    Record::from_rdata(
        name("example.com"),
        ttl,
        RData::A(Ipv4Addr { octets: [1, 2, 3, 4] }),
    )
}

#[test]
fn cache_hit() {
    let cache = TestCache::new(&test_config());
    cache
        .insert(
            "example.com",
            RecordType::A,
            DNSClass::IN,
            vec![test_record(300)],
            ResponseCode::NoError,
            None,
            None,
        );

    let entry = cache
        .lookup("example.com", RecordType::A, DNSClass::IN, None)
        .fresh()
        .unwrap();
    assert_eq!(entry.records().len(), 1);
    assert_eq!(entry.response_code(), ResponseCode::NoError);
}

#[test]
fn cache_miss() {
    let cache = TestCache::new(&test_config());
    assert!(matches!(
        cache
            .lookup("example.com", RecordType::A, DNSClass::IN, None),
        Found::Miss
    ));
}

#[test]
fn different_record_types_are_separate() {
    let cache = TestCache::new(&test_config());
    cache
        .insert(
            "example.com",
            RecordType::A,
            DNSClass::IN,
            vec![test_record(300)],
            ResponseCode::NoError,
            None,
            None,
        );

    assert!(cache
        .lookup("example.com", RecordType::A, DNSClass::IN, None)
        .fresh()
        .is_some());
    assert!(matches!(
        cache
            .lookup("example.com", RecordType::AAAA, DNSClass::IN, None),
        Found::Miss
    ));
}

#[test]
fn different_domains_are_separate() {
    let cache = TestCache::new(&test_config());
    cache
        .insert(
            "a.com",
            RecordType::A,
            DNSClass::IN,
            vec![test_record(300)],
            ResponseCode::NoError,
            None,
            None,
        );

    assert!(cache
        .lookup("a.com", RecordType::A, DNSClass::IN, None)
        .fresh()
        .is_some());
    assert!(matches!(
        cache
            .lookup("b.com", RecordType::A, DNSClass::IN, None),
        Found::Miss
    ));
}

#[test]
fn ttl_clamped_to_min() {
    let cache = TestCache::new(&test_config());
    cache
        .insert(
            "example.com",
            RecordType::A,
            DNSClass::IN,
            vec![test_record(1)],
            ResponseCode::NoError,
            None,
            None,
        );

    let entry = cache
        .lookup("example.com", RecordType::A, DNSClass::IN, None)
        .fresh()
        .unwrap();
    assert!(entry.remaining_ttl().as_secs() >= 4);
}

#[test]
fn ttl_clamped_to_max() {
    let config = CacheConfig {
        max_ttl_secs: 60,
        ..test_config()
    };
    let cache = TestCache::new(&config);
    cache
        .insert(
            "example.com",
            RecordType::A,
            DNSClass::IN,
            vec![test_record(99999)],
            ResponseCode::NoError,
            None,
            None,
        );

    let entry = cache
        .lookup("example.com", RecordType::A, DNSClass::IN, None)
        .fresh()
        .unwrap();
    assert!(entry.remaining_ttl().as_secs() <= 60);
}

#[test]
fn negative_cache_nxdomain() {
    let cache = TestCache::new(&test_config());
    cache
        .insert(
            "nonexistent.com",
            RecordType::A,
            DNSClass::IN,
            Vec::new(),
            ResponseCode::NXDomain,
            None,
            None,
        );

    let entry = cache
        .lookup("nonexistent.com", RecordType::A, DNSClass::IN, None)
        .fresh()
        .unwrap();
    assert_eq!(entry.response_code(), ResponseCode::NXDomain);
    assert!(entry.records().is_empty());
    assert!(entry.remaining_ttl().as_secs() >= 55);
}

#[test]
fn negative_cache_nodata_uses_negative_ttl() {
    let cache = TestCache::new(&test_config());
    cache
        .insert(
            "example.com",
            RecordType::AAAA,
            DNSClass::IN,
            Vec::new(),
            ResponseCode::NoError,
            None,
            None,
        );

    let entry = cache
        .lookup("example.com", RecordType::AAAA, DNSClass::IN, None)
        .fresh()
        .unwrap();
    assert_eq!(entry.response_code(), ResponseCode::NoError);
    assert!(entry.records().is_empty());
    assert!(entry.remaining_ttl().as_secs() >= 55);
}

#[test]
fn insert_servfail_is_not_cached() {
    let cache = TestCache::new(&test_config());
    cache
        .insert(
            "broken.example.com",
            RecordType::A,
            DNSClass::IN,
            Vec::new(),
            ResponseCode::ServFail,
            None,
            None,
        );
    cache.flushed_usage();

    assert_eq!(cache.entry_count(), 0);
    assert!(matches!(
        cache
            .lookup("broken.example.com", RecordType::A, DNSClass::IN, None),
        Found::Miss
    ));
}

#[test]
fn insert_refused_is_not_cached() {
    let cache = TestCache::new(&test_config());
    cache
        .insert(
            "refused.example.com",
            RecordType::A,
            DNSClass::IN,
            Vec::new(),
            ResponseCode::Refused,
            None,
            None,
        );
    cache.flushed_usage();

    assert_eq!(cache.entry_count(), 0);
    assert!(matches!(
        cache
            .lookup("refused.example.com", RecordType::A, DNSClass::IN, None),
        Found::Miss
    ));
}

#[test]
fn servfail_guard_does_not_affect_nxdomain() {
    let cache = TestCache::new(&test_config());
    cache
        .insert(
            "nonexistent.com",
            RecordType::A,
            DNSClass::IN,
            Vec::new(),
            ResponseCode::NXDomain,
            None,
            None,
        );
    cache.flushed_usage();

    assert_eq!(cache.entry_count(), 1);
}

#[test]
fn is_negative_true_for_nxdomain() {
    let cache = TestCache::new(&test_config());
    cache
        .insert(
            "nope.com",
            RecordType::A,
            DNSClass::IN,
            Vec::new(),
            ResponseCode::NXDomain,
            None,
            None,
        );
    let entry = cache
        .lookup("nope.com", RecordType::A, DNSClass::IN, None)
        .fresh()
        .unwrap();
    assert!(entry.is_negative());
}

#[test]
fn is_negative_true_for_nodata() {
    let cache = TestCache::new(&test_config());
    cache
        .insert(
            "example.com",
            RecordType::AAAA,
            DNSClass::IN,
            Vec::new(),
            ResponseCode::NoError,
            None,
            None,
        );
    let entry = cache
        .lookup("example.com", RecordType::AAAA, DNSClass::IN, None)
        .fresh()
        .unwrap();
    assert!(entry.is_negative());
}

#[test]
fn is_negative_false_for_positive_response() {
    let cache = TestCache::new(&test_config());
    cache
        .insert(
            "example.com",
            RecordType::A,
            DNSClass::IN,
            vec![test_record(300)],
            ResponseCode::NoError,
            None,
            None,
        );
    let entry = cache
        .lookup("example.com", RecordType::A, DNSClass::IN, None)
        .fresh()
        .unwrap();
    assert!(!entry.is_negative());
}

#[test]
fn soa_minimum_larger_than_configured_wins() {
    let cache = TestCache::new(&test_config());
    cache
        .insert(
            "nonexistent.com",
            RecordType::A,
            DNSClass::IN,
            Vec::new(),
            ResponseCode::NXDomain,
            Some(3600),
            None,
        );

    let entry = cache
        .lookup("nonexistent.com", RecordType::A, DNSClass::IN, None)
        .fresh()
        .unwrap();
    assert!(entry.remaining_ttl().as_secs() >= 3590);
}

#[test]
fn configured_negative_ttl_larger_than_soa_wins() {
    let cache = TestCache::new(&test_config());
    cache
        .insert(
            "nonexistent.com",
            RecordType::A,
            DNSClass::IN,
            Vec::new(),
            ResponseCode::NXDomain,
            Some(10),
            None,
        );

    let entry = cache
        .lookup("nonexistent.com", RecordType::A, DNSClass::IN, None)
        .fresh()
        .unwrap();
    assert!(entry.remaining_ttl().as_secs() >= 55);
    assert!(entry.remaining_ttl().as_secs() <= 60);
}

#[test]
fn negative_ttl_capped_at_max_ttl() {
    let config = CacheConfig {
        max_ttl_secs: 3600,
        negative_ttl_secs: 60,
        ..test_config()
    };
    let cache = TestCache::new(&config);
    cache
        .insert(
            "nonexistent.com",
            RecordType::A,
            DNSClass::IN,
            Vec::new(),
            ResponseCode::NXDomain,
            Some(86_400),
            None,
        );

    let entry = cache
        .lookup("nonexistent.com", RecordType::A, DNSClass::IN, None)
        .fresh()
        .unwrap();
    assert!(entry.remaining_ttl().as_secs() <= 3600);
    assert!(entry.remaining_ttl().as_secs() >= 3590);
}

#[test]
fn no_soa_hint_uses_configured_negative_ttl() {
    let cache = TestCache::new(&test_config());
    cache
        .insert(
            "nonexistent.com",
            RecordType::A,
            DNSClass::IN,
            Vec::new(),
            ResponseCode::NXDomain,
            None,
            None,
        );

    let entry = cache
        .lookup("nonexistent.com", RecordType::A, DNSClass::IN, None)
        .fresh()
        .unwrap();
    assert!(entry.remaining_ttl().as_secs() >= 55);
    assert!(entry.remaining_ttl().as_secs() <= 60);
}

#[test]
fn positive_response_ignores_soa_hint() {
    let cache = TestCache::new(&test_config());
    cache
        .insert(
            "example.com",
            RecordType::A,
            DNSClass::IN,
            vec![test_record(300)],
            ResponseCode::NoError,
            Some(99999),
            None,
        );

    let entry = cache
        .lookup("example.com", RecordType::A, DNSClass::IN, None)
        .fresh()
        .unwrap();
    assert!(entry.remaining_ttl().as_secs() <= 300);
    assert!(entry.remaining_ttl().as_secs() >= 290);
}

#[test]
fn expired_entry_returns_stale() {
    let config = CacheConfig {
        min_ttl_secs: 0,
        ..test_config()
    };
    let cache = TestCache::new(&config);
    cache
        .insert(
            "example.com",
            RecordType::A,
            DNSClass::IN,
            vec![test_record(1)],
            ResponseCode::NoError,
            None,
            None,
        );

    cache.advance(Duration::from_millis(1100));

    assert!(cache
        .lookup("example.com", RecordType::A, DNSClass::IN, None)
        .stale()
        .is_some());
}

#[test]
fn remaining_ttl_decrements() {
    let cache = TestCache::new(&test_config());
    cache
        .insert(
            "example.com",
            RecordType::A,
            DNSClass::IN,
            vec![test_record(300)],
            ResponseCode::NoError,
            None,
            None,
        );

    let ttl_before = cache
        .lookup("example.com", RecordType::A, DNSClass::IN, None)
        .fresh()
        .unwrap()
        .remaining_ttl();

    cache.advance(Duration::from_millis(100));

    let ttl_after = cache
        .lookup("example.com", RecordType::A, DNSClass::IN, None)
        .fresh()
        .unwrap()
        .remaining_ttl();

    assert!(ttl_after < ttl_before);
}

#[test]
fn records_with_remaining_ttl_adjusts_ttl() {
    let cache = TestCache::new(&test_config());
    cache
        .insert(
            "example.com",
            RecordType::A,
            DNSClass::IN,
            vec![test_record(300)],
            ResponseCode::NoError,
            None,
            None,
        );

    let entry = cache
        .lookup("example.com", RecordType::A, DNSClass::IN, None)
        .fresh()
        .unwrap();
    let adjusted = entry.records_with_remaining_ttl();
    assert_eq!(adjusted.len(), 1);
    assert!(adjusted[0].ttl <= 300);
    assert!(adjusted[0].ttl >= 295);
}

#[test]
fn entry_count() {
    let cache = TestCache::new(&test_config());
    assert_eq!(cache.entry_count(), 0);

    cache
        .insert(
            "a.com",
            RecordType::A,
            DNSClass::IN,
            vec![test_record(300)],
            ResponseCode::NoError,
            None,
            None,
        );
    cache
        .insert(
            "b.com",
            RecordType::A,
            DNSClass::IN,
            vec![test_record(300)],
            ResponseCode::NoError,
            None,
            None,
        );

    cache.flushed_usage();
    assert_eq!(cache.entry_count(), 2);
}

#[test]
fn flushed_usage_reflects_inserts_without_manual_flush() {
    let cache = TestCache::new(&test_config());

    cache
        .insert(
            "a.com",
            RecordType::A,
            DNSClass::IN,
            vec![test_record(300)],
            ResponseCode::NoError,
            None,
            None,
        );
    cache
        .insert(
            "b.com",
            RecordType::A,
            DNSClass::IN,
            vec![test_record(300)],
            ResponseCode::NoError,
            None,
            None,
        );

    let usage = cache.flushed_usage();
    assert_eq!(usage.entries, 2);
    assert_eq!(usage.weighted_size, 2 * u64::from(POSITIVE_WEIGHT));
}

#[test]
fn flushed_usage_is_consistent_across_repeated_calls() {
    let cache = TestCache::new(&test_config());
    cache
        .insert(
            "a.com",
            RecordType::A,
            DNSClass::IN,
            vec![test_record(300)],
            ResponseCode::NoError,
            None,
            None,
        );

    let first = cache.flushed_usage();
    let second = cache.flushed_usage();
    assert_eq!(first, second);
    assert_eq!(first.entries, 1);
}

#[test]
fn clear_removes_all_entries() {
    let cache = TestCache::new(&test_config());
    cache
        .insert(
            "a.com",
            RecordType::A,
            DNSClass::IN,
            vec![test_record(300)],
            ResponseCode::NoError,
            None,
            None,
        );
    cache
        .insert(
            "b.com",
            RecordType::A,
            DNSClass::IN,
            vec![test_record(300)],
            ResponseCode::NoError,
            None,
            None,
        );
    cache.flushed_usage();
    assert_eq!(cache.entry_count(), 2);

    cache.clear();
    assert_eq!(cache.entry_count(), 0);
    assert!(matches!(
        cache
            .lookup("a.com", RecordType::A, DNSClass::IN, None),
        Found::Miss
    ));
    assert!(matches!(
        cache
            .lookup("b.com", RecordType::A, DNSClass::IN, None),
        Found::Miss
    ));
}

#[test]
fn invalidate_domain_removes_modern_record_types() {
    let cache = TestCache::new(&test_config());
    for rt in [
        RecordType::HTTPS,
        RecordType::SVCB,
        RecordType::SRV,
        RecordType::TLSA,
    ] {
        cache
            .insert(
                "modern.example.com",
                rt,
                DNSClass::IN,
                Vec::new(),
                ResponseCode::NoError,
                None,
                None,
            );
        assert!(
            cache
                .lookup("modern.example.com", rt, DNSClass::IN, None)
                .fresh()
                .is_some(),
            "{rt:?} entry should be present before invalidate"
        );
    }

    cache.invalidate_domain("modern.example.com");

    for rt in [
        RecordType::HTTPS,
        RecordType::SVCB,
        RecordType::SRV,
        RecordType::TLSA,
    ] {
        assert!(
            matches!(
                cache
                    .lookup("modern.example.com", rt, DNSClass::IN, None),
                Found::Miss
            ),
            "{rt:?} entry should be invalidated"
        );
    }
}

#[test]
fn invalidate_domain_removes_all_types() {
    let cache = TestCache::new(&test_config());
    cache
        .insert(
            "example.com",
            RecordType::A,
            DNSClass::IN,
            vec![test_record(300)],
            ResponseCode::NoError,
            None,
            None,
        );
    cache
        .insert(
            "example.com",
            RecordType::AAAA,
            DNSClass::IN,
            Vec::new(),
            ResponseCode::NoError,
            None,
            None,
        );
    cache
        .insert(
            "other.com",
            RecordType::A,
            DNSClass::IN,
            vec![test_record(300)],
            ResponseCode::NoError,
            None,
            None,
        );

    cache.invalidate_domain("example.com");

    assert!(matches!(
        cache
            .lookup("example.com", RecordType::A, DNSClass::IN, None),
        Found::Miss
    ));
    assert!(matches!(
        cache
            .lookup("example.com", RecordType::AAAA, DNSClass::IN, None),
        Found::Miss
    ));
    assert!(cache
        .lookup("other.com", RecordType::A, DNSClass::IN, None)
        .fresh()
        .is_some());
}

#[test]
fn invalidate_domain_normalizes_mixed_case_input() {
    let cache = TestCache::new(&test_config());
    cache
        .insert(
            "example.com",
            RecordType::A,
            DNSClass::IN,
            vec![test_record(300)],
            ResponseCode::NoError,
            None,
            None,
        );
    assert!(
        cache
            .lookup("example.com", RecordType::A, DNSClass::IN, None)
            .fresh()
            .is_some(),
        "lowercase entry must be present before invalidate"
    );

    cache.invalidate_domain("Example.COM");

    assert!(
        matches!(
            cache
                .lookup("example.com", RecordType::A, DNSClass::IN, None),
            Found::Miss
        ),
        "mixed-case invalidate must remove the lowercase entry"
    );
}

#[test]
fn invalidate_key_removes_only_the_targeted_tuple() {
    let cache = TestCache::new(&test_config());
    for (rt, class) in [
        (RecordType::A, DNSClass::IN),
        (RecordType::AAAA, DNSClass::IN),
        (RecordType::A, DNSClass::CH),
    ] {
        cache
            .insert(
                "example.com",
                rt,
                class,
                vec![test_record(300)],
                ResponseCode::NoError,
                None,
                None,
            );
    }

    cache
        .invalidate_key("example.com", RecordType::A, DNSClass::IN, None);

    assert!(matches!(
        cache
            .lookup("example.com", RecordType::A, DNSClass::IN, None),
        Found::Miss
    ));
    assert!(cache
        .lookup("example.com", RecordType::AAAA, DNSClass::IN, None)
        .fresh()
        .is_some());
    assert!(cache
        .lookup("example.com", RecordType::A, DNSClass::CH, None)
        .fresh()
        .is_some());
}

#[test]
fn invalidate_key_normalizes_mixed_case_input() {
    let cache = TestCache::new(&test_config());
    cache
        .insert(
            "example.com",
            RecordType::A,
            DNSClass::IN,
            vec![test_record(300)],
            ResponseCode::NoError,
            None,
            None,
        );

    cache
        .invalidate_key("Example.COM", RecordType::A, DNSClass::IN, None);

    assert!(matches!(
        cache
            .lookup("example.com", RecordType::A, DNSClass::IN, None),
        Found::Miss
    ));
}

#[test]
fn invalidate_key_no_op_on_missing_key() {
    let cache = TestCache::new(&test_config());
    cache
        .invalidate_key("nope.example.com", RecordType::A, DNSClass::IN, None);
    assert!(matches!(
        cache
            .lookup("nope.example.com", RecordType::A, DNSClass::IN, None),
        Found::Miss
    ));
}

#[test]
fn overwrite_updates_entry() {
    let cache = TestCache::new(&test_config());
    cache
        .insert(
            "example.com",
            RecordType::A,
            DNSClass::IN,
            vec![test_record(100)],
            ResponseCode::NoError,
            None,
            None,
        );

    let new_record = Record::from_rdata(
        name("example.com"),
        200,
        RData::A(Ipv4Addr { octets: [5, 6, 7, 8] }),
    );
    cache
        .insert(
            "example.com",
            RecordType::A,
            DNSClass::IN,
            vec![new_record],
            ResponseCode::NoError,
            None,
            None,
        );

    let entry = cache
        .lookup("example.com", RecordType::A, DNSClass::IN, None)
        .fresh()
        .unwrap();
    assert_eq!(entry.records().len(), 1);
    assert!(entry.remaining_ttl().as_secs() >= 195);
}

#[test]
fn needs_prefetch_false_at_50_percent_ttl() {
    let entry = Entry::aged(vec![test_record(300)], Duration::from_secs(300), Duration::from_secs(150));
    assert!(!entry.needs_prefetch(0.1));
}

#[test]
fn needs_prefetch_true_at_5_percent_ttl() {
    let entry = Entry::aged(vec![test_record(300)], Duration::from_secs(300), Duration::from_secs(285));
    assert!(entry.needs_prefetch(0.1));
}

#[test]
fn needs_prefetch_false_when_expired() {
    let entry = Entry::aged(vec![test_record(300)], Duration::from_secs(300), Duration::from_secs(600));
    assert!(!entry.needs_prefetch(0.1));
}

#[test]
fn different_dns_classes_are_separate() {
    let cache = TestCache::new(&test_config());
    cache
        .insert(
            "version.bind",
            RecordType::TXT,
            DNSClass::CH,
            vec![test_record(300)],
            ResponseCode::NoError,
            None,
            None,
        );

    assert!(cache
        .lookup("version.bind", RecordType::TXT, DNSClass::CH, None)
        .fresh()
        .is_some());
    assert!(matches!(
        cache
            .lookup("version.bind", RecordType::TXT, DNSClass::IN, None),
        Found::Miss
    ));
}

#[test]
fn lookup_or_fetch_caps_negative_ttl_with_soa_hint() {
    let mut cfg = test_config();
    cfg.max_ttl_secs = 60;
    cfg.negative_ttl_secs = 5;
    let cache = TestCache::new(&cfg);

    let entry = cache
        .lookup_or_fetch(
            "missing.example",
            RecordType::A,
            DNSClass::IN,
            None,
            || { Ok(Fetched { records: Vec::new(), response_code: ResponseCode::NXDomain, soa_minimum_ttl: Some(86_400) }) },
        )
        .expect("lookup_or_fetch ok");

    assert_eq!(entry.response_code(), ResponseCode::NXDomain);
    assert!(entry.records().is_empty());
    let ttl = entry.remaining_ttl();
    assert!(
        ttl <= Duration::from_secs(60),
        "negative TTL must be capped at max_ttl=60s, got {:?}",
        ttl
    );
    assert!(
        ttl >= Duration::from_secs(5),
        "negative TTL must be at least negative_ttl=5s, got {:?}",
        ttl
    );
}

#[test]
fn lookup_or_fetch_does_not_cache_servfail_via_uncacheable() {
    let cache = TestCache::new(&test_config());

    let result = cache
        .lookup_or_fetch(
            "broken.example",
            RecordType::A,
            DNSClass::IN,
            None,
            || {
                Err(DnsError::Uncacheable(
                    ResponseCode::ServFail,
                ))
            },
        );

    assert!(result.is_err());
    let failure = result.err().unwrap();
    assert!(
        matches!(
            &failure.error,
            DnsError::Uncacheable(ResponseCode::ServFail)
        ),
        "expected Uncacheable(ServFail), got {:?}",
        failure.error
    );
    assert!(matches!(
        cache
            .lookup("broken.example", RecordType::A, DNSClass::IN, None),
        Found::Miss
    ));
}

#[test]
fn lookup_or_fetch_defense_in_depth_rejects_ok_servfail() {
    let cache = TestCache::new(&test_config());

    let result = cache
        .lookup_or_fetch(
            "slip.example",
            RecordType::A,
            DNSClass::IN,
            None,
            || { Ok(Fetched { records: Vec::new(), response_code: ResponseCode::ServFail, soa_minimum_ttl: None }) },
        );

    assert!(
        result.is_err(),
        "Ok-with-ServFail must be rejected by inner guard"
    );
    assert!(matches!(
        cache
            .lookup("slip.example", RecordType::A, DNSClass::IN, None),
        Found::Miss
    ));
}

#[test]
fn lookup_or_fetch_returns_stale_on_fetch_failure() {
    let mut cfg = test_config();
    cfg.max_ttl_secs = 1;
    cfg.min_ttl_secs = 1;
    let cache = TestCache::new(&cfg);

    cache
        .insert(
            "stale.example",
            RecordType::A,
            DNSClass::IN,
            vec![test_record(1)],
            ResponseCode::NoError,
            None,
            None,
        );

    cache.advance(Duration::from_millis(1100));

    let result = cache
        .lookup_or_fetch(
            "stale.example",
            RecordType::A,
            DNSClass::IN,
            None,
            || {
                Err(DnsError::UpstreamRequestFailed(
                    "synthetic timeout".into(),
                ))
            },
        );

    let failure = result.err().expect("fetcher failed");
    let stale = failure.stale.expect("stale fallback returned");
    assert_eq!(stale.records().len(), 1);
}

#[test]
fn lookup_or_fetch_serves_fresh_without_invoking_fetcher() {
    let cache = TestCache::new(&test_config());
    cache
        .insert(
            "warm.example",
            RecordType::A,
            DNSClass::IN,
            vec![test_record(300)],
            ResponseCode::NoError,
            None,
            None,
        );

    let counter = Arc::new(std::sync::atomic::AtomicU64::new(0));
    let counter_c = Arc::clone(&counter);

    let entry = cache
        .lookup_or_fetch(
            "warm.example",
            RecordType::A,
            DNSClass::IN,
            None,
            move || {
                counter_c.fetch_add(1, std::sync::atomic::Ordering::SeqCst);
                Ok(Fetched { records: Vec::new(), response_code: ResponseCode::NoError, soa_minimum_ttl: None })
            },
        )
        .expect("fresh hit");

    assert_eq!(entry.records().len(), 1);
    assert_eq!(
        counter.load(std::sync::atomic::Ordering::SeqCst),
        0,
        "fresh-hit fast path must not invoke the fetcher"
    );
}

#[test]
fn re_insert_resets_entry_ttl() {
    let config = CacheConfig {
        min_ttl_secs: 1,
        max_ttl_secs: 3600,
        ..test_config()
    };
    let cache = TestCache::new(&config);

    cache
        .insert(
            "warm.example.com",
            RecordType::A,
            DNSClass::IN,
            vec![test_record(3600)],
            ResponseCode::NoError,
            None,
            None,
        );
    let first = cache
        .lookup("warm.example.com", RecordType::A, DNSClass::IN, None)
        .fresh()
        .expect("first insert must be fresh");
    let first_remaining = first.remaining_ttl().as_secs();
    assert!(
        first_remaining >= 3500,
        "first insert remaining TTL ≈ 3600, got {first_remaining}"
    );

    cache
        .insert(
            "warm.example.com",
            RecordType::A,
            DNSClass::IN,
            vec![test_record(5)],
            ResponseCode::NoError,
            None,
            None,
        );
    let second = cache
        .lookup("warm.example.com", RecordType::A, DNSClass::IN, None)
        .fresh()
        .expect("re-insert must be fresh");
    let second_remaining = second.remaining_ttl().as_secs();
    assert!(
        second_remaining <= 5,
        "re-insert remaining TTL ≈ 5, got {second_remaining}"
    );
}

fn ecs_prefix(addr: &str, prefix: u8) -> EcsPrefix {
    EcsPrefix {
        addr: IpAddr::V4(parse_v4(addr).unwrap()),
        prefix,
    }
}

#[test]
fn cache_partitioning_two_subnets_do_not_collide() {
    let cache = TestCache::new(&test_config());
    let p1 = ecs_prefix("10.10.1.0", 24);
    let p2 = ecs_prefix("10.10.2.0", 24);
    cache
        .insert(
            "cdn.example.com",
            RecordType::A,
            DNSClass::IN,
            vec![Record::from_rdata(
                name("cdn.example.com"),
                300,
                RData::A(Ipv4Addr { octets: [1, 1, 1, 1] }),
            )],
            ResponseCode::NoError,
            None,
            Some(p1),
        );
    let hit = cache
        .lookup("cdn.example.com", RecordType::A, DNSClass::IN, Some(p1))
        .fresh()
        .expect("p1 slot is fresh");
    assert_eq!(hit.records().len(), 1);
    let miss = cache
        .lookup("cdn.example.com", RecordType::A, DNSClass::IN, Some(p2));
    assert!(
        matches!(miss, Found::Miss),
        "different /24 must miss — cross-subnet poison guard"
    );
}

#[test]
fn cache_partitioning_none_prefix_is_baseline_slot() {
    let cache = TestCache::new(&test_config());
    cache
        .insert(
            "baseline.example.com",
            RecordType::A,
            DNSClass::IN,
            vec![Record::from_rdata(
                name("baseline.example.com"),
                300,
                RData::A(Ipv4Addr { octets: [2, 2, 2, 2] }),
            )],
            ResponseCode::NoError,
            None,
            None,
        );
    let baseline_hit = cache
        .lookup("baseline.example.com", RecordType::A, DNSClass::IN, None)
        .fresh();
    assert!(baseline_hit.is_some(), "baseline slot must be fresh");
    let ecs_miss = cache
        .lookup(
            "baseline.example.com",
            RecordType::A,
            DNSClass::IN,
            Some(ecs_prefix("10.10.1.0", 24)),
        );
    assert!(
        matches!(ecs_miss, Found::Miss),
        "ECS-bucketed lookup against None-bucket cache must miss"
    );
}

#[test]
fn cache_partitioning_invalidate_key_targets_single_bucket() {
    let cache = TestCache::new(&test_config());
    let p1 = ecs_prefix("10.10.1.0", 24);
    for prefix_arg in [None, Some(p1)] {
        cache
            .insert(
                "twin.example.com",
                RecordType::A,
                DNSClass::IN,
                vec![Record::from_rdata(
                    name("twin.example.com"),
                    300,
                    RData::A(Ipv4Addr { octets: [3, 3, 3, 3] }),
                )],
                ResponseCode::NoError,
                None,
                prefix_arg,
            );
    }
    assert!(cache
        .lookup("twin.example.com", RecordType::A, DNSClass::IN, None)
        .fresh()
        .is_some());
    assert!(cache
        .lookup("twin.example.com", RecordType::A, DNSClass::IN, Some(p1))
        .fresh()
        .is_some());
    cache
        .invalidate_key("twin.example.com", RecordType::A, DNSClass::IN, Some(p1));
    assert!(matches!(
        cache
            .lookup("twin.example.com", RecordType::A, DNSClass::IN, Some(p1)),
        Found::Miss
    ));
    assert!(cache
        .lookup("twin.example.com", RecordType::A, DNSClass::IN, None)
        .fresh()
        .is_some());
}

#[test]
fn capacity_is_the_configured_one() {
    let cache = DnsCache::new(&test_config());
    assert_eq!(cache.max_capacity(), 100);
}

#[test]
fn entries_past_the_stale_window_are_missing() {
    let cache = TestCache::new(&test_config());
    cache.insert(
        "example.com",
        RecordType::A,
        DNSClass::IN,
        vec![test_record(300)],
        ResponseCode::NoError,
        None,
        None,
    );
    cache.advance(Duration::from_secs(599));
    assert!(cache.lookup("example.com", RecordType::A, DNSClass::IN, None).stale().is_some());
    cache.advance(Duration::from_secs(1));
    assert!(matches!(
        cache.lookup("example.com", RecordType::A, DNSClass::IN, None),
        Found::Miss
    ));
}

#[test]
fn a_refresh_replaces_the_stale_entry() {
    let cache = TestCache::new(&test_config());
    cache.insert(
        "example.com",
        RecordType::A,
        DNSClass::IN,
        vec![test_record(300)],
        ResponseCode::NoError,
        None,
        None,
    );
    cache.advance(Duration::from_secs(301));
    let got = cache
        .lookup_or_fetch("example.com", RecordType::A, DNSClass::IN, None, || {
            Ok(Fetched {
                records: vec![test_record(40)],
                response_code: ResponseCode::NoError,
                soa_minimum_ttl: None,
            })
        })
        .unwrap();
    assert_eq!(got.remaining_ttl(), Duration::from_secs(40));
    let read = cache.lookup("example.com", RecordType::A, DNSClass::IN, None).fresh().unwrap();
    assert_eq!(read.records()[0].ttl, 40);
}

#[test]
fn an_entry_too_old_for_the_stale_window_is_fetched_anew() {
    let cache = TestCache::new(&test_config());
    cache.insert(
        "example.com",
        RecordType::A,
        DNSClass::IN,
        vec![test_record(300)],
        ResponseCode::NoError,
        None,
        None,
    );
    cache.advance(Duration::from_secs(900));
    let r = cache.lookup_or_fetch("example.com", RecordType::A, DNSClass::IN, None, || {
        Err(DnsError::UpstreamRequestFailed("no route".to_string()))
    });
    assert!(r.err().unwrap().stale.is_none());
}

#[test]
fn prefetch_lead_counts_in_seconds() {
    let entry = Entry::aged(
        vec![test_record(300)],
        Duration::from_secs(300),
        Duration::from_secs(290),
    );
    assert!(entry.inner.needs_prefetch_lead(10, entry.now.get()));
    assert!(!entry.inner.needs_prefetch_lead(9, entry.now.get()));
}

#[test]
fn held_entries_are_judged_by_their_age() {
    let cache = DnsCache::new(&CacheConfig {
        max_entries: 100,
        min_ttl_secs: 1,
        max_ttl_secs: 3600,
        negative_ttl_secs: 30,
        stale_buffer_secs: 60,
    });
    let second: u128 = 1_000_000_000;
    let made: u128 = 5 * second;
    let judged = |age: u128| {
        let entry = CacheEntry::new(vec![test_record(300)], ResponseCode::NoError, made, 300);
        cache.classify(Arc::new(entry), made + age)
    };
    assert!(matches!(judged(0), CacheLookup::Fresh(_)));
    assert!(matches!(judged(300 * second - 1), CacheLookup::Fresh(_)));
    assert!(matches!(judged(300 * second), CacheLookup::Stale(_)));
    assert!(matches!(judged(360 * second - 1), CacheLookup::Stale(_)));
    assert!(matches!(judged(360 * second), CacheLookup::Miss));
}

fn alias_record(ttl: u32) -> Record {
    Record::from_rdata(name("alias.example"), ttl, RData::CNAME(name("gone.example")))
}

#[test]
fn nxdomain_with_records_is_kept_as_a_negative_answer() {
    let cache = TestCache::new(&test_config());
    let keep = |domain: &str, soa: Option<u32>| {
        cache.insert(
            domain,
            RecordType::A,
            DNSClass::IN,
            vec![alias_record(600)],
            ResponseCode::NXDomain,
            soa,
            None,
        );
        cache.lookup(domain, RecordType::A, DNSClass::IN, None).fresh().unwrap()
    };
    let entry = keep("alias.example", None);
    assert!(entry.is_negative());
    assert_eq!(entry.records().len(), 1);
    assert_eq!(entry.remaining_ttl(), Duration::from_secs(60));
    assert_eq!(keep("b.example", Some(10)).remaining_ttl(), Duration::from_secs(60));
    assert_eq!(keep("c.example", Some(900)).remaining_ttl(), Duration::from_secs(900));
    assert_eq!(keep("d.example", Some(86_400)).remaining_ttl(), Duration::from_secs(3600));
    let usage = cache.flushed_usage();
    assert_eq!(usage.entries, 4);
    assert_eq!(usage.weighted_size, 4 * u64::from(NEGATIVE_WEIGHT));
}

#[test]
fn fetched_nxdomain_with_records_takes_the_negative_ttl() {
    let cache = TestCache::new(&test_config());
    let entry = cache
        .lookup_or_fetch("alias.example", RecordType::A, DNSClass::IN, None, || {
            Ok(Fetched {
                records: vec![alias_record(600)],
                response_code: ResponseCode::NXDomain,
                soa_minimum_ttl: None,
            })
        })
        .unwrap();
    assert!(entry.is_negative());
    assert_eq!(entry.remaining_ttl(), Duration::from_secs(60));
}

#[test]
fn ttls_go_by_the_code_before_the_records() {
    let cache = DnsCache::new(&test_config());
    let records = vec![test_record(600), test_record(400)];
    assert_eq!(cache.compute_ttl(&records, ResponseCode::NoError, Some(900)), 400);
    assert_eq!(cache.compute_ttl(&records, ResponseCode::NXDomain, None), 60);
    assert_eq!(cache.compute_ttl(&records, ResponseCode::NXDomain, Some(900)), 900);
    assert_eq!(cache.compute_ttl(&Vec::new(), ResponseCode::NoError, None), 60);
}

#[test]
fn negative_answers_are_light() {
    let weight = |records: Vec<Record>, code: ResponseCode| {
        entry_weight(&CacheEntry::new(records, code, 0, 60))
    };
    assert_eq!(weight(vec![test_record(60)], ResponseCode::NoError), POSITIVE_WEIGHT);
    assert_eq!(weight(Vec::new(), ResponseCode::NoError), NEGATIVE_WEIGHT);
    assert_eq!(weight(Vec::new(), ResponseCode::NXDomain), NEGATIVE_WEIGHT);
    assert_eq!(weight(vec![alias_record(60)], ResponseCode::NXDomain), NEGATIVE_WEIGHT);
    assert_eq!(weight(Vec::new(), ResponseCode::FormErr), NEGATIVE_WEIGHT);
    assert_eq!((POSITIVE_WEIGHT, NEGATIVE_WEIGHT), (10, 1));
}

#[test]
fn entries_are_kept_for_their_ttl_and_the_stale_window() {
    let kept = |ttl: u64, stale_secs: u64| {
        let entry = CacheEntry::new(vec![test_record(60)], ResponseCode::NoError, 0, ttl);
        DnsExpiry { stale_secs }.keeps(&entry)
    };
    assert_eq!(kept(60, 300), 360);
    assert_eq!(kept(3600, 0), 3600);
    assert_eq!(kept(u64::MAX, 1), u64::MAX);
}

#[test]
fn the_store_asks_each_entry_how_long_it_is_kept() {
    let mut cfg = test_config();
    cfg.stale_buffer_secs = 0;
    cfg.min_ttl_secs = 0;
    let cache = TestCache::new(&cfg);
    for (domain, ttl) in [("gone.example", 0), ("kept.example", 600)] {
        cache.insert(
            domain,
            RecordType::A,
            DNSClass::IN,
            vec![test_record(ttl)],
            ResponseCode::NoError,
            None,
            None,
        );
    }
    assert_eq!(cache.flushed_usage().entries, 1, "an entry of no lifetime is let go");
    assert!(cache.lookup("kept.example", RecordType::A, DNSClass::IN, None).fresh().is_some());
}

#[test]
fn cached_records_keep_their_class() {
    let chaos = Record { dns_class: DNSClass::CH, ..test_record(300) };
    let entry = Entry::aged(
        vec![chaos.clone(), test_record(300)],
        Duration::from_secs(300),
        Duration::from_secs(100),
    );
    let served = entry.records_with_remaining_ttl();
    assert_eq!(served[0], Record { ttl: 200, ..chaos });
    assert_eq!((served[1].dns_class, served[1].ttl), (DNSClass::IN, 200));
}
