//! DNS response cache over `moka`, with per-entry TTLs and a stale window.
//!
//! Points in time are nanoseconds of one monotonic clock, handed in by the
//! caller. An entry is fresh for its TTL, usable as a fallback for the stale
//! window behind it, and gone after that.
use std::sync::Arc;
use vstd::prelude::*;
use crate::client_subnet::EcsPrefix;
use crate::error::DnsError;
use crate::net::{ip_octets, octets_of};
use crate::record::{
    push_record, record_views, DNSClass, Record, RecordType, RecordV, ResponseCode,
};
use crate::settings::CacheConfig;
use crate::text::{lowered, to_lower};

verus! {

/// Nanoseconds in a second.
pub const SECOND: u128 = 1_000_000_000;

/// The weight of an entry with records.
pub const POSITIVE_WEIGHT: u32 = 10;

/// The weight of a negative entry.
pub const NEGATIVE_WEIGHT: u32 = 1;

// ── Entries ───────────────────────────────────────────────────────────

/// A cached response.
#[derive(Debug)]
pub struct CacheEntry {
    records: Vec<Record>,
    response_code: ResponseCode,
    created_at: u128,
    ttl: u64,
}

/// A cached response as mathematical values: its records and code, when it
/// was made, and for how many seconds it is fresh.
pub struct EntryV {
    pub records: Seq<RecordV>,
    pub code: ResponseCode,
    pub created_at: u128,
    pub ttl: u64,
}

impl View for CacheEntry {
    type V = EntryV;

    closed spec fn view(&self) -> EntryV {
        EntryV {
            records: record_views(self.records@),
            code: self.response_code,
            created_at: self.created_at,
            ttl: self.ttl,
        }
    }
}

/// The age of an entry; zero for a clock that reads before its creation.
pub open spec fn age(e: EntryV, now: u128) -> int {
    if now > e.created_at {
        now - e.created_at
    } else {
        0
    }
}

/// The entry is within its TTL.
pub open spec fn fresh(e: EntryV, now: u128) -> bool {
    age(e, now) < e.ttl * SECOND
}

/// The nanoseconds of its TTL that an entry has left.
pub open spec fn remaining(e: EntryV, now: u128) -> int {
    if age(e, now) < e.ttl * SECOND {
        e.ttl * SECOND - age(e, now)
    } else {
        0
    }
}

/// The entry is a name error, or holds no records.
pub open spec fn negative(e: EntryV) -> bool {
    e.code == ResponseCode::NXDomain || (e.code == ResponseCode::NoError && e.records.len() == 0)
}

/// A response that is kept as a negative one: a name error, whatever records
/// lead up to it, or an answer without records.
pub open spec fn kept_as_negative(records: Seq<RecordV>, code: ResponseCode) -> bool {
    code == ResponseCode::NXDomain || records.len() == 0
}

/// The TTL that records of an entry are served with: what is left, in whole
/// seconds, and at least one.
pub open spec fn served_ttl(e: EntryV, now: u128) -> u32 {
    if remaining(e, now) / SECOND as int >= 1 {
        (remaining(e, now) / SECOND as int) as u32
    } else {
        1
    }
}

/// Less than `threshold` nanoseconds of the TTL are left, but some.
pub open spec fn due_below(e: EntryV, threshold: u128, now: u128) -> bool {
    0 < remaining(e, now) < threshold
}

/// At most `lead_secs` seconds of the TTL are left, but some.
pub open spec fn due_within(e: EntryV, lead_secs: u64, now: u128) -> bool {
    0 < remaining(e, now) <= lead_secs * SECOND
}

/// Records with one TTL, otherwise as they were.
pub open spec fn with_ttl(records: Seq<RecordV>, ttl: u32) -> Seq<RecordV> {
    records.map_values(|r: RecordV| (RecordV { ttl, ..r }))
}

impl CacheEntry {
    /// An entry made at `now`.
    pub fn new(records: Vec<Record>, response_code: ResponseCode, now: u128, ttl: u64) -> (r: Self)
        ensures
            r@ == (EntryV {
                records: record_views(records@),
                code: response_code,
                created_at: now,
                ttl,
            }),
    {
        CacheEntry { records, response_code, created_at: now, ttl }
    }

    /// Whether the entry is within its TTL.
    pub fn is_fresh(&self, now: u128) -> (r: bool)
        ensures
            r == fresh(self@, now),
    {
        self.remaining_ttl(now) > 0
    }

    /// The nanoseconds of its TTL that the entry has left.
    pub fn remaining_ttl(&self, now: u128) -> (r: u128)
        ensures
            r == remaining(self@, now),
            r <= self@.ttl * SECOND,
    {
        let elapsed: u128 = if now > self.created_at {
            now - self.created_at
        } else {
            0
        };
        let total: u128 = self.ttl as u128 * SECOND;
        if elapsed < total {
            total - elapsed
        } else {
            0
        }
    }

    /// The records with the TTL that is left to them.
    pub fn records_with_remaining_ttl(&self, now: u128) -> (r: Vec<Record>)
        ensures
            record_views(r@) == with_ttl(self@.records, served_ttl(self@, now)),
    {
        let secs: u128 = self.remaining_ttl(now) / SECOND;
        let ttl: u32 = if secs >= 1 {
            #[verifier::truncate]
            (secs as u32)
        } else {
            1
        };
        let ghost want = with_ttl(self@.records, ttl);
        let mut out: Vec<Record> = Vec::new();
        let mut i: usize = 0;
        while i < self.records.len()
            invariant
                i <= self.records.len(),
                want == with_ttl(self@.records, ttl),
                record_views(out@) =~= want.take(i as int),
            decreases self.records.len() - i,
        {
            let mut rec = self.records[i].copy();
            rec.ttl = ttl;
            push_record(&mut out, rec);
            i += 1;
        }
        proof {
            assert(want.take(want.len() as int) =~= want);
        }
        out
    }

    /// The response code.
    pub fn response_code(&self) -> (r: ResponseCode)
        ensures
            r == self@.code,
    {
        self.response_code
    }

    /// Whether the entry is a negative response.
    pub fn is_negative(&self) -> (r: bool)
        ensures
            r == negative(self@),
    {
        self.response_code == ResponseCode::NXDomain || (self.response_code
            == ResponseCode::NoError && self.records.len() == 0)
    }

    /// The TTL in seconds that the entry was made with.
    pub fn ttl_secs(&self) -> (r: u64)
        ensures
            r == self@.ttl,
    {
        self.ttl
    }

    /// Whether less than `threshold` nanoseconds of the TTL are left, but some.
    pub fn needs_prefetch_below(&self, threshold: u128, now: u128) -> (r: bool)
        ensures
            r == due_below(self@, threshold, now),
    {
        let left = self.remaining_ttl(now);
        left < threshold && left > 0
    }

    /// Whether at most `lead_secs` seconds of the TTL are left, but some.
    pub fn needs_prefetch_lead(&self, lead_secs: u64, now: u128) -> (r: bool)
        ensures
            r == due_within(self@, lead_secs, now),
    {
        let left = self.remaining_ttl(now);
        left <= lead_secs as u128 * SECOND && left > 0
    }

    /// The records.
    pub fn records(&self) -> (r: &Vec<Record>)
        ensures
            record_views(r@) == self@.records,
    {
        &self.records
    }
}

/// The weight of an entry in the bounded cache.
pub open spec fn weight_of(e: EntryV) -> u32 {
    if kept_as_negative(e.records, e.code) {
        NEGATIVE_WEIGHT
    } else {
        POSITIVE_WEIGHT
    }
}

/// The weight of an entry in the bounded cache: negative answers are light, so
/// that a flood of them does not push out the others.
pub fn entry_weight(entry: &CacheEntry) -> (r: u32)
    ensures
        r == weight_of(entry@),
        negative(entry@) ==> r == NEGATIVE_WEIGHT,
{
    if entry.response_code == ResponseCode::NXDomain || entry.records.len() == 0 {
        NEGATIVE_WEIGHT
    } else {
        POSITIVE_WEIGHT
    }
}

// ── TTL policy ────────────────────────────────────────────────────────

/// The TTL of a negative response: the larger of the configured TTL and the
/// minimum of the zone, but no more than the ceiling.
pub open spec fn negative_ttl(configured: u64, ceiling: u64, soa_minimum: Option<u32>) -> u64 {
    let floor = match soa_minimum {
        Some(s) => if s as u64 > configured {
            s as u64
        } else {
            configured
        },
        None => configured,
    };
    if floor < ceiling {
        floor
    } else {
        ceiling
    }
}

/// The smallest TTL of a list of records; zero for the empty list.
pub open spec fn least_ttl(records: Seq<RecordV>) -> u32
    decreases records.len(),
{
    if records.len() == 0 {
        0
    } else if records.len() == 1 || records.last().ttl < least_ttl(records.drop_last()) {
        records.last().ttl
    } else {
        least_ttl(records.drop_last())
    }
}

/// `n` raised to at least `low`, then lowered to at most `high`.
pub open spec fn clamped(n: u64, low: u64, high: u64) -> u64 {
    let raised = if n < low {
        low
    } else {
        n
    };
    if raised > high {
        high
    } else {
        raised
    }
}

/// A response with this code is never cached.
pub open spec fn uncacheable(code: ResponseCode) -> bool {
    code == ResponseCode::ServFail || code == ResponseCode::Refused
}

/// The TTL of a negative response in seconds.
pub fn compute_negative_ttl(configured: u64, max_ttl: u64, soa_minimum_ttl: Option<u32>) -> (r: u64)
    ensures
        r == negative_ttl(configured, max_ttl, soa_minimum_ttl),
{
    let floor: u64 = match soa_minimum_ttl {
        Some(s) => {
            if s as u64 > configured {
                s as u64
            } else {
                configured
            }
        },
        None => configured,
    };
    if floor < max_ttl {
        floor
    } else {
        max_ttl
    }
}

fn min_ttl_of(records: &Vec<Record>) -> (r: u32)
    ensures
        r == least_ttl(record_views(records@)),
{
    let ghost all = record_views(records@);
    if records.len() == 0 {
        return 0;
    }
    let mut least: u32 = records[0].ttl;
    let mut i: usize = 1;
    proof {
        assert(all.take(1).last() == records@[0]@);
    }
    while i < records.len()
        invariant
            1 <= i <= records.len(),
            all == record_views(records@),
            least == least_ttl(all.take(i as int)),
        decreases records.len() - i,
    {
        proof {
            assert(all.take(i + 1).drop_last() =~= all.take(i as int));
            assert(all.take(i + 1).last() == records@[i as int]@);
        }
        if records[i].ttl < least {
            least = records[i].ttl;
        }
        i += 1;
    }
    proof {
        assert(all.take(all.len() as int) =~= all);
    }
    least
}

// ── Keys ──────────────────────────────────────────────────────────────

/// A cache key: name, record type, class, and the octets and length of the
/// client subnet where the query carries one.
pub type CacheKey = (String, u32, u32, Option<(Vec<u8>, u8)>);

/// A cache key as mathematical values.
pub type KeyV = (Seq<char>, u32, u32, Option<(Seq<u8>, u8)>);

/// The view of a cache key.
pub open spec fn key_view(key: CacheKey) -> KeyV {
    (
        key.0@,
        key.1,
        key.2,
        match key.3 {
            Some((octets, prefix)) => Some((octets@, prefix)),
            None => None,
        },
    )
}

/// A number for each record type.
pub open spec fn type_number(t: RecordType) -> u32 {
    match t {
        RecordType::Other(n) => n as u32,
        RecordType::A => 0x10001,
        RecordType::NS => 0x10002,
        RecordType::CNAME => 0x10005,
        RecordType::SOA => 0x10006,
        RecordType::PTR => 0x1000c,
        RecordType::HINFO => 0x1000d,
        RecordType::MX => 0x1000f,
        RecordType::TXT => 0x10010,
        RecordType::AAAA => 0x1001c,
        RecordType::SRV => 0x10021,
        RecordType::TLSA => 0x10034,
        RecordType::SVCB => 0x10040,
        RecordType::HTTPS => 0x10041,
        RecordType::ANY => 0x100ff,
    }
}

/// A number for each class.
pub open spec fn class_number(c: DNSClass) -> u32 {
    match c {
        DNSClass::Other(n) => n as u32,
        DNSClass::IN => 0x10001,
        DNSClass::CH => 0x10003,
    }
}

/// The bucket of an optional client subnet.
pub open spec fn bucket(ecs: Option<EcsPrefix>) -> Option<(Seq<u8>, u8)> {
    match ecs {
        Some(p) => Some((ip_octets(p.addr), p.prefix)),
        None => None,
    }
}

/// The key of a query.
pub open spec fn key_for(
    domain: Seq<char>,
    record_type: RecordType,
    class: DNSClass,
    ecs: Option<EcsPrefix>,
) -> KeyV {
    (domain, type_number(record_type), class_number(class), bucket(ecs))
}

fn number_of_type(t: RecordType) -> (r: u32)
    ensures
        r == type_number(t),
{
    match t {
        RecordType::Other(n) => n as u32,
        RecordType::A => 0x10001,
        RecordType::NS => 0x10002,
        RecordType::CNAME => 0x10005,
        RecordType::SOA => 0x10006,
        RecordType::PTR => 0x1000c,
        RecordType::HINFO => 0x1000d,
        RecordType::MX => 0x1000f,
        RecordType::TXT => 0x10010,
        RecordType::AAAA => 0x1001c,
        RecordType::SRV => 0x10021,
        RecordType::TLSA => 0x10034,
        RecordType::SVCB => 0x10040,
        RecordType::HTTPS => 0x10041,
        RecordType::ANY => 0x100ff,
    }
}

fn number_of_class(c: DNSClass) -> (r: u32)
    ensures
        r == class_number(c),
{
    match c {
        DNSClass::Other(n) => n as u32,
        DNSClass::IN => 0x10001,
        DNSClass::CH => 0x10003,
    }
}

/// Builds the key of a query.
pub fn make_key(
    domain: &str,
    record_type: RecordType,
    dns_class: DNSClass,
    ecs_prefix: Option<EcsPrefix>,
) -> (r: CacheKey)
    ensures
        key_view(r) == key_for(domain@, record_type, dns_class, ecs_prefix),
{
    let ecs = match ecs_prefix {
        Some(p) => Some((octets_of(&p.addr), p.prefix)),
        None => None,
    };
    (domain.to_owned(), number_of_type(record_type), number_of_class(dns_class), ecs)
}

// ── The store, by moka ────────────────────────────────────────────────

/// The synchronous cache of `moka`.
#[verifier::external_type_specification]
#[verifier::external_body]
#[verifier::reject_recursive_types(K)]
#[verifier::reject_recursive_types(V)]
#[verifier::reject_recursive_types(S)]
pub struct ExMokaCache<K, V, S>(moka::sync::Cache<K, V, S>);

/// The store of the cache.
pub type Store = moka::sync::Cache<CacheKey, Arc<CacheEntry>>;

/// What was inserted into a store and not removed since, whether or not the
/// store has evicted it.
pub uninterp spec fn stored(store: Store) -> Map<KeyV, EntryV>;

/// The weighted capacity that a store was made with.
pub uninterp spec fn store_capacity(store: Store) -> u64;

/// The stale window of the expiry that a store was made with.
pub uninterp spec fn store_window(store: Store) -> u64;

/// The keys that the entry counter of a store may stand for: those that stood
/// in it when its pending work was last done, and those inserted since.
pub uninterp spec fn counted(store: Store) -> Set<KeyV>;

/// The contents of an empty store.
pub open spec fn nothing_stored() -> Map<KeyV, EntryV> {
    Map::empty()
}

/// What the entry counter of an empty store stands for.
pub open spec fn nothing_counted() -> Set<KeyV> {
    Set::empty()
}

/// `n` counts no more than the finitely many keys of a set.
pub open spec fn counts_within(n: u64, keys: Set<KeyV>) -> bool {
    keys.finite() && n <= keys.len()
}

/// A reading of the machine's clock.
#[verifier::external_type_specification]
#[verifier::external_body]
pub struct ExInstant(std::time::Instant);

/// The span of a number of whole seconds that `Duration::from_secs` makes.
pub uninterp spec fn span_of(secs: u64) -> std::time::Duration;

/// `std::time::Duration::from_secs` makes the span of the given seconds.
pub assume_specification[ std::time::Duration::from_secs ](secs: u64) -> (r: std::time::Duration)
    ensures
        r == span_of(secs),
;

/// The seconds that an entry is kept: its TTL and the stale window, as far as
/// the number fits.
pub open spec fn kept_for(e: EntryV, stale_secs: u64) -> u64 {
    if e.ttl + stale_secs <= u64::MAX {
        (e.ttl + stale_secs) as u64
    } else {
        u64::MAX
    }
}

/// When the store lets go of an entry: once its TTL and the stale window are
/// over, counted from when it was last written.
pub struct DnsExpiry {
    pub stale_secs: u64,
}

impl DnsExpiry {
    /// The seconds that an entry is kept.
    pub fn keeps(&self, entry: &CacheEntry) -> (r: u64)
        ensures
            r == kept_for(entry@, self.stale_secs),
    {
        if entry.ttl > u64::MAX - self.stale_secs {
            u64::MAX
        } else {
            entry.ttl + self.stale_secs
        }
    }
}

impl moka::Expiry<CacheKey, Arc<CacheEntry>> for DnsExpiry {
    fn expire_after_create(
        &self,
        _key: &CacheKey,
        value: &Arc<CacheEntry>,
        _created_at: std::time::Instant,
    ) -> (r: Option<std::time::Duration>)
        ensures
            r == Some(span_of(kept_for((**value)@, self.stale_secs))),
    {
        Some(std::time::Duration::from_secs(self.keeps(value)))
    }

    fn expire_after_update(
        &self,
        _key: &CacheKey,
        value: &Arc<CacheEntry>,
        _updated_at: std::time::Instant,
        _duration_until_expiry: Option<std::time::Duration>,
    ) -> (r: Option<std::time::Duration>)
        ensures
            r == Some(span_of(kept_for((**value)@, self.stale_secs))),
    {
        Some(std::time::Duration::from_secs(self.keeps(value)))
    }
}

/// `moka::sync::Cache::builder` with a weigher, a capacity and an expiry of
/// each entry: an empty cache of that weighted capacity, which goes by that
/// expiry as long as it stands.
#[verifier::external_body]
fn store_new(capacity: u64, expiry: DnsExpiry) -> (r: Store)
    ensures
        stored(r) == nothing_stored(),
        counted(r) == nothing_counted(),
        store_capacity(r) == capacity,
        store_window(r) == expiry.stale_secs,
{
    moka::sync::Cache::builder()
        .weigher(|_key: &CacheKey, entry: &Arc<CacheEntry>| entry_weight(entry))
        .max_capacity(capacity)
        .expire_after(expiry)
        .build()
}

/// `moka::sync::Cache::get`: the value last inserted under the key, or nothing
/// where there is none or it has been evicted or has outlived its time.
#[verifier::external_body]
fn store_get(
    store: &Store,
    key: &CacheKey,
) -> (r: Option<Arc<CacheEntry>>)
    ensures
        match r {
            Some(e) => stored(*store).contains_key(key_view(*key)) && (*e)@ == stored(
                *store,
            )[key_view(*key)],
            None => true,
        },
{
    store.get(key)
}

/// `moka::sync::Cache::insert`: the value stands under the key, in place of an
/// earlier one. Once the pending work is done, the key is counted at most once.
#[verifier::external_body]
fn store_insert(
    store: &mut Store,
    key: CacheKey,
    entry: Arc<CacheEntry>,
)
    ensures
        stored(*final(store)) == stored(*old(store)).insert(key_view(key), (*entry)@),
        counted(*final(store)) == counted(*old(store)).insert(key_view(key)),
        store_capacity(*final(store)) == store_capacity(*old(store)),
        store_window(*final(store)) == store_window(*old(store)),
{
    store.insert(key, entry)
}

/// `moka::sync::Cache::invalidate`: nothing stands under the key any more. The
/// entry counter may lag behind.
#[verifier::external_body]
fn store_remove(store: &mut Store, key: &CacheKey)
    ensures
        stored(*final(store)) == stored(*old(store)).remove(key_view(*key)),
        counted(*final(store)) == counted(*old(store)),
        store_capacity(*final(store)) == store_capacity(*old(store)),
        store_window(*final(store)) == store_window(*old(store)),
{
    store.invalidate(key)
}

/// `moka::sync::Cache::run_pending_tasks`: works off every insertion and every
/// removal that is still pending, and evicts. What was inserted stays what was
/// inserted, and nothing that was removed is counted any more.
#[verifier::external_body]
fn store_settle(store: &mut Store)
    ensures
        stored(*final(store)) == stored(*old(store)),
        counted(*final(store)) == stored(*old(store)).dom(),
        store_capacity(*final(store)) == store_capacity(*old(store)),
        store_window(*final(store)) == store_window(*old(store)),
{
    store.run_pending_tasks()
}

/// `moka::sync::Cache::entry_count`: an estimate of the number of entries
/// held. It counts no key twice, and none but those of `counted`. How far it
/// stays below their number depends on what has been evicted so far.
#[verifier::external_body]
fn store_count(store: &Store) -> (r: u64)
    ensures
        counts_within(r, counted(*store)),
{
    store.entry_count()
}

/// `moka::sync::Cache::weighted_size`: an estimate of the weight held. Nothing
/// is said of it: it depends on what has been evicted so far, and an eviction
/// takes off the weight that the entry has by then, not the one that was added.
#[verifier::external_body]
fn store_weight(store: &Store) -> u64 {
    store.weighted_size()
}

/// `moka::sync::Cache::policy`: the capacity that the cache was made with.
#[verifier::external_body]
fn store_limit(store: &Store) -> (r: Option<u64>)
    ensures
        r == Some(store_capacity(*store)),
{
    store.policy().max_capacity()
}

// ── The cache ─────────────────────────────────────────────────────────

/// Result of a cache lookup.
#[derive(Debug)]
pub enum CacheLookup {
    /// An entry within its TTL.
    Fresh(Arc<CacheEntry>),
    /// An entry past its TTL but within the stale window.
    Stale(Arc<CacheEntry>),
    /// No usable entry.
    Miss,
}

/// The result of a lookup as mathematical values.
pub enum CacheLookupV {
    Fresh(EntryV),
    Stale(EntryV),
    Miss,
}

impl View for CacheLookup {
    type V = CacheLookupV;

    open spec fn view(&self) -> CacheLookupV {
        match self {
            CacheLookup::Fresh(e) => CacheLookupV::Fresh((**e)@),
            CacheLookup::Stale(e) => CacheLookupV::Stale((**e)@),
            CacheLookup::Miss => CacheLookupV::Miss,
        }
    }
}

/// What an entry that is still held amounts to.
pub open spec fn classified(e: EntryV, stale_secs: u64, now: u128) -> CacheLookupV {
    if fresh(e, now) {
        CacheLookupV::Fresh(e)
    } else if age(e, now) < (e.ttl + stale_secs) * SECOND {
        CacheLookupV::Stale(e)
    } else {
        CacheLookupV::Miss
    }
}

/// Occupancy of the cache.
#[derive(Clone, Copy, Debug, PartialEq, Eq, Structural)]
pub struct CacheUsage {
    /// Number of entries.
    pub entries: u64,
    /// Weighted occupancy, comparable with the capacity.
    pub weighted_size: u64,
}

/// A failed fetch, with the stale entry that can be served instead.
#[derive(Debug)]
pub struct FetchFailure {
    pub stale: Option<Arc<CacheEntry>>,
    pub error: DnsError,
}

/// What an upstream answered: records, code, and the minimum of the zone.
#[derive(Debug)]
pub struct Fetched {
    pub records: Vec<Record>,
    pub response_code: ResponseCode,
    pub soa_minimum_ttl: Option<u32>,
}

/// The TTL policy and the contents of a cache.
pub struct CacheV {
    pub min_ttl: u64,
    pub max_ttl: u64,
    pub negative_ttl: u64,
    pub stale_secs: u64,
    pub capacity: u64,
    /// The stale window by which the store lets go of entries.
    pub window: u64,
    pub entries: Map<KeyV, EntryV>,
}

/// The empty cache of a configuration.
pub open spec fn cache_for(config: CacheConfig) -> CacheV {
    CacheV {
        min_ttl: config.min_ttl_secs,
        max_ttl: config.max_ttl_secs,
        negative_ttl: config.negative_ttl_secs,
        stale_secs: config.stale_buffer_secs,
        capacity: config.max_entries,
        window: config.stale_buffer_secs,
        entries: Map::empty(),
    }
}

/// The TTL that a response is cached for. A negative one goes by the zone and
/// the configuration, not by the records that lead up to it.
pub open spec fn entry_ttl(
    c: CacheV,
    records: Seq<RecordV>,
    code: ResponseCode,
    soa_minimum: Option<u32>,
) -> u64 {
    if kept_as_negative(records, code) {
        negative_ttl(c.negative_ttl, c.max_ttl, soa_minimum)
    } else {
        clamped(least_ttl(records) as u64, c.min_ttl, c.max_ttl)
    }
}

/// The cache with other contents.
pub open spec fn with_entries(c: CacheV, entries: Map<KeyV, EntryV>) -> CacheV {
    CacheV {
        min_ttl: c.min_ttl,
        max_ttl: c.max_ttl,
        negative_ttl: c.negative_ttl,
        stale_secs: c.stale_secs,
        capacity: c.capacity,
        window: c.window,
        entries,
    }
}

/// The entry that a response is cached as.
pub open spec fn entry_for(
    c: CacheV,
    records: Seq<RecordV>,
    code: ResponseCode,
    soa_minimum: Option<u32>,
    now: u128,
) -> EntryV {
    EntryV { records, code, created_at: now, ttl: entry_ttl(c, records, code, soa_minimum) }
}

/// The record types that an operator's flush of a domain covers.
pub open spec fn flushed_type(n: u32) -> bool {
    ||| n == type_number(RecordType::A)
    ||| n == type_number(RecordType::AAAA)
    ||| n == type_number(RecordType::CNAME)
    ||| n == type_number(RecordType::MX)
    ||| n == type_number(RecordType::TXT)
    ||| n == type_number(RecordType::NS)
    ||| n == type_number(RecordType::SOA)
    ||| n == type_number(RecordType::HTTPS)
    ||| n == type_number(RecordType::SVCB)
    ||| n == type_number(RecordType::SRV)
    ||| n == type_number(RecordType::TLSA)
}

/// The keys that a flush of `domain` covers: the common types in the classes
/// IN and CH, outside any client-subnet bucket.
pub open spec fn flushed(domain: Seq<char>, key: KeyV) -> bool {
    &&& key.0 == lowered(domain)
    &&& flushed_type(key.1)
    &&& key.2 == class_number(DNSClass::IN) || key.2 == class_number(DNSClass::CH)
    &&& key.3 is None
}

/// What a lookup may find: what the slot holds, or nothing where it has been
/// evicted.
pub open spec fn seen(c: CacheV, key: KeyV, now: u128, found: CacheLookupV) -> bool {
    found is Miss || c.entries.contains_key(key) && found == classified(
        c.entries[key],
        c.stale_secs,
        now,
    )
}

/// The stale entry of a lookup.
pub open spec fn stale_of(found: CacheLookupV) -> Option<EntryV> {
    match found {
        CacheLookupV::Stale(e) => Some(e),
        _ => None,
    }
}

/// The outcome of a fetch.
pub enum FetchV {
    Got(EntryV),
    Failed(Option<EntryV>, DnsError),
}

/// The view of an optional entry.
pub open spec fn stale_view(stale: Option<Arc<CacheEntry>>) -> Option<EntryV> {
    match stale {
        Some(e) => Some((*e)@),
        None => None,
    }
}

/// The view of the outcome of a fetch.
pub open spec fn fetch_view(result: Result<Arc<CacheEntry>, FetchFailure>) -> FetchV {
    match result {
        Ok(e) => FetchV::Got((*e)@),
        Err(failure) => FetchV::Failed(stale_view(failure.stale), failure.error),
    }
}

/// The cache that a fetch starts from: without the stale entry.
pub open spec fn cleared(c: CacheV, key: KeyV, stale: Option<EntryV>) -> CacheV {
    if stale is Some {
        with_entries(c, c.entries.remove(key))
    } else {
        c
    }
}

/// A slot that was found missing was filled in the meantime, and what is there
/// is taken.
pub open spec fn filled_since(
    c: CacheV,
    key: KeyV,
    stale: Option<EntryV>,
    now: u128,
    f: FetchV,
    after: CacheV,
) -> bool {
    &&& stale is None
    &&& c.entries.contains_key(key)
    &&& !(classified(c.entries[key], c.stale_secs, now) is Miss)
    &&& f == FetchV::Got(c.entries[key])
    &&& after == c
}

/// What a fetch may come to, and the cache after it: the slot was filled in
/// the meantime, the answer was cached, or the fetch failed and the stale
/// entry stands in.
pub open spec fn fetch_ends(
    c: CacheV,
    key: KeyV,
    stale: Option<EntryV>,
    answer: Result<Fetched, DnsError>,
    now: u128,
    f: FetchV,
    after: CacheV,
) -> bool {
    ||| filled_since(c, key, stale, now, f, after)
    ||| answer_taken(cleared(c, key, stale), key, stale, answer, now, f, after)
}

/// The entry that the answer of an upstream is cached as, if it is cacheable.
pub open spec fn cacheable_entry(c: CacheV, answer: Result<Fetched, DnsError>, now: u128) -> Option<
    EntryV,
> {
    match answer {
        Ok(a) => if uncacheable(a.response_code) {
            None
        } else {
            Some(
                entry_for(
                    c,
                    record_views(a.records@),
                    a.response_code,
                    a.soa_minimum_ttl,
                    now,
                ),
            )
        },
        Err(_) => None,
    }
}

/// What comes of the answer of an upstream: a cacheable one is the entry that
/// it is cached as, and anything else is a failure for which the stale entry
/// stands in.
pub open spec fn answer_outcome(
    c: CacheV,
    stale: Option<EntryV>,
    answer: Result<Fetched, DnsError>,
    now: u128,
) -> FetchV {
    match cacheable_entry(c, answer, now) {
        Some(e) => FetchV::Got(e),
        None => FetchV::Failed(
            stale,
            match answer {
                Ok(a) => DnsError::Uncacheable(a.response_code),
                Err(error) => error,
            },
        ),
    }
}

/// The cache after the answer of an upstream.
pub open spec fn answer_kept(
    c: CacheV,
    key: KeyV,
    answer: Result<Fetched, DnsError>,
    now: u128,
) -> CacheV {
    match cacheable_entry(c, answer, now) {
        Some(e) => with_entries(c, c.entries.insert(key, e)),
        None => c,
    }
}

/// What comes of the answer of an upstream, and the cache after it.
pub open spec fn answer_taken(
    c: CacheV,
    key: KeyV,
    stale: Option<EntryV>,
    answer: Result<Fetched, DnsError>,
    now: u128,
    f: FetchV,
    after: CacheV,
) -> bool {
    &&& f == answer_outcome(c, stale, answer, now)
    &&& after == answer_kept(c, key, answer, now)
}

/// The DNS response cache.
pub struct DnsCache {
    store: Store,
    min_ttl: u64,
    max_ttl: u64,
    negative_ttl: u64,
    stale_secs: u64,
}

impl View for DnsCache {
    type V = CacheV;

    closed spec fn view(&self) -> CacheV {
        CacheV {
            min_ttl: self.min_ttl,
            max_ttl: self.max_ttl,
            negative_ttl: self.negative_ttl,
            stale_secs: self.stale_secs,
            capacity: store_capacity(self.store),
            window: store_window(self.store),
            entries: stored(self.store),
        }
    }
}

impl DnsCache {
    /// The keys that the entry count may stand for.
    pub closed spec fn counted(&self) -> Set<KeyV> {
        counted(self.store)
    }

    /// An empty cache.
    pub fn new(config: &CacheConfig) -> (r: DnsCache)
        ensures
            r.counted() == Set::<KeyV>::empty(),
            r@ == cache_for(*config),
    {
        let expiry = DnsExpiry { stale_secs: config.stale_buffer_secs };
        DnsCache {
            store: store_new(config.max_entries, expiry),
            min_ttl: config.min_ttl_secs,
            max_ttl: config.max_ttl_secs,
            negative_ttl: config.negative_ttl_secs,
            stale_secs: config.stale_buffer_secs,
        }
    }

    /// Judges an entry that the store holds by its age.
    pub fn classify(&self, entry: Arc<CacheEntry>, now: u128) -> (r: CacheLookup)
        ensures
            r@ == classified((*entry)@, self@.stale_secs, now),
    {
        if entry.is_fresh(now) {
            return CacheLookup::Fresh(entry);
        }
        let elapsed: u128 = if now > entry.created_at {
            now - entry.created_at
        } else {
            0
        };
        let window: u128 = (entry.ttl as u128 + self.stale_secs as u128) * SECOND;
        if elapsed < window {
            CacheLookup::Stale(entry)
        } else {
            CacheLookup::Miss
        }
    }

    /// Looks up an entry. What was cached may have been evicted; what is found
    /// is what was cached last under the key.
    pub fn lookup(
        &self,
        domain: &str,
        record_type: RecordType,
        dns_class: DNSClass,
        ecs_prefix: Option<EcsPrefix>,
        now: u128,
    ) -> (r: CacheLookup)
        ensures
            ({
                let key = key_for(domain@, record_type, dns_class, ecs_prefix);
                ||| r@ is Miss
                ||| self@.entries.contains_key(key) && r@ == classified(
                    self@.entries[key],
                    self@.stale_secs,
                    now,
                )
            }),
    {
        let (_, found) = self.lookup_keyed(domain, record_type, dns_class, ecs_prefix, now);
        found
    }

    /// Looks up an entry, and hands out the key as well.
    pub fn lookup_keyed(
        &self,
        domain: &str,
        record_type: RecordType,
        dns_class: DNSClass,
        ecs_prefix: Option<EcsPrefix>,
        now: u128,
    ) -> (r: (CacheKey, CacheLookup))
        ensures
            key_view(r.0) == key_for(domain@, record_type, dns_class, ecs_prefix),
            r.1@ is Miss || self@.entries.contains_key(key_view(r.0)) && r.1@ == classified(
                self@.entries[key_view(r.0)],
                self@.stale_secs,
                now,
            ),
    {
        let key = make_key(domain, record_type, dns_class, ecs_prefix);
        let found = match store_get(&self.store, &key) {
            Some(entry) => self.classify(entry, now),
            None => CacheLookup::Miss,
        };
        (key, found)
    }

    /// The TTL that a response is cached for.
    pub fn compute_ttl(
        &self,
        records: &Vec<Record>,
        response_code: ResponseCode,
        soa_minimum_ttl: Option<u32>,
    ) -> (r: u64)
        ensures
            r == entry_ttl(self@, record_views(records@), response_code, soa_minimum_ttl),
    {
        if response_code == ResponseCode::NXDomain || records.len() == 0 {
            return compute_negative_ttl(self.negative_ttl, self.max_ttl, soa_minimum_ttl);
        }
        let least: u64 = min_ttl_of(records) as u64;
        let raised: u64 = if least < self.min_ttl {
            self.min_ttl
        } else {
            least
        };
        if raised > self.max_ttl {
            self.max_ttl
        } else {
            raised
        }
    }

    /// Caches a response. SERVFAIL and REFUSED are never cached.
    pub fn insert(
        &mut self,
        domain: &str,
        record_type: RecordType,
        dns_class: DNSClass,
        records: Vec<Record>,
        response_code: ResponseCode,
        soa_minimum_ttl: Option<u32>,
        ecs_prefix: Option<EcsPrefix>,
        now: u128,
    )
        ensures
            final(self)@ == (if uncacheable(response_code) {
                old(self)@
            } else {
                with_entries(
                    old(self)@,
                    old(self)@.entries.insert(
                        key_for(domain@, record_type, dns_class, ecs_prefix),
                        entry_for(
                            old(self)@,
                            record_views(records@),
                            response_code,
                            soa_minimum_ttl,
                            now,
                        ),
                    ),
                )
            }),
            final(self).counted() == (if uncacheable(response_code) {
                old(self).counted()
            } else {
                old(self).counted().insert(key_for(domain@, record_type, dns_class, ecs_prefix))
            }),
    {
        if response_code == ResponseCode::ServFail || response_code == ResponseCode::Refused {
            return;
        }
        let ttl = self.compute_ttl(&records, response_code, soa_minimum_ttl);
        let entry = CacheEntry::new(records, response_code, now, ttl);
        let key = make_key(domain, record_type, dns_class, ecs_prefix);
        store_insert(&mut self.store, key, Arc::new(entry));
    }

    /// Starts a fetch for a key that a lookup found stale or missing. A stale
    /// entry is dropped, so that the fetch replaces it. Where the slot has been
    /// filled since, the entry there is returned and no fetch is due.
    pub fn start_fetch(&mut self, key: &CacheKey, had_stale: bool, now: u128) -> (r: Option<
        Arc<CacheEntry>,
    >)
        ensures
            had_stale ==> r is None && final(self)@ == with_entries(
                old(self)@,
                old(self)@.entries.remove(key_view(*key)),
            ),
            !had_stale ==> final(self)@ == old(self)@,
            final(self).counted() == old(self).counted(),
            r matches Some(e) ==> old(self)@.entries.contains_key(key_view(*key)) && (*e)@ == old(
                self,
            )@.entries[key_view(*key)] && !(classified((*e)@, old(self)@.stale_secs, now) is Miss),
    {
        if had_stale {
            store_remove(&mut self.store, key);
        }
        match store_get(&self.store, key) {
            Some(entry) => match self.classify(entry, now) {
                CacheLookup::Fresh(found) => Some(found),
                CacheLookup::Stale(found) => Some(found),
                CacheLookup::Miss => None,
            },
            None => None,
        }
    }

    /// Completes a fetch. A cacheable answer is cached and returned; anything
    /// else is a failure that carries the stale entry along.
    pub fn finish_fetch(
        &mut self,
        key: CacheKey,
        stale_prior: Option<Arc<CacheEntry>>,
        fetched: Result<Fetched, DnsError>,
        now: u128,
    ) -> (r: Result<Arc<CacheEntry>, FetchFailure>)
        ensures
            match fetched {
                Ok(answer) => if uncacheable(answer.response_code) {
                    &&& r matches Err(failure) && failure.stale == stale_prior && failure.error
                        == DnsError::Uncacheable(answer.response_code)
                    &&& final(self)@ == old(self)@
                } else {
                    let entry = entry_for(
                        old(self)@,
                        record_views(answer.records@),
                        answer.response_code,
                        answer.soa_minimum_ttl,
                        now,
                    );
                    &&& r matches Ok(e) && (*e)@ == entry
                    &&& final(self)@ == with_entries(
                        old(self)@,
                        old(self)@.entries.insert(key_view(key), entry),
                    )
                },
                Err(error) => {
                    &&& r matches Err(failure) && failure.stale == stale_prior && failure.error
                        == error
                    &&& final(self)@ == old(self)@
                },
            },
            final(self).counted() == (if r is Ok {
                old(self).counted().insert(key_view(key))
            } else {
                old(self).counted()
            }),
    {
        match fetched {
            Err(error) => Err(FetchFailure { stale: stale_prior, error }),
            Ok(answer) => {
                let code = answer.response_code;
                if code == ResponseCode::ServFail || code == ResponseCode::Refused {
                    return Err(
                        FetchFailure { stale: stale_prior, error: DnsError::Uncacheable(code) },
                    );
                }
                let ttl = self.compute_ttl(&answer.records, code, answer.soa_minimum_ttl);
                let entry = Arc::new(CacheEntry::new(answer.records, code, now, ttl));
                let kept = entry.clone();
                store_insert(&mut self.store, key, kept);
                Ok(entry)
            },
        }
    }

    /// Looks up an entry, and fetches it where there is no fresh one. The
    /// fetcher is not called for a fresh entry.
    pub fn lookup_or_fetch<F: FnOnce() -> Result<Fetched, DnsError>>(
        &mut self,
        domain: &str,
        record_type: RecordType,
        dns_class: DNSClass,
        ecs_prefix: Option<EcsPrefix>,
        fetcher: F,
        now: u128,
    ) -> (r: Result<Arc<CacheEntry>, FetchFailure>)
        requires
            call_requires(fetcher, ()),
        ensures
            ({
                let key = key_for(domain@, record_type, dns_class, ecs_prefix);
                exists|found: CacheLookupV| #[trigger]
                    seen(old(self)@, key, now, found) && match found {
                        CacheLookupV::Fresh(e) => fetch_view(r) == FetchV::Got(e) && final(self)@
                            == old(self)@,
                        _ => filled_since(
                            old(self)@,
                            key,
                            stale_of(found),
                            now,
                            fetch_view(r),
                            final(self)@,
                        )
                            || exists|answer: Result<Fetched, DnsError>| #[trigger]
                            call_ensures(fetcher, (), answer) && fetch_ends(
                                old(self)@,
                                key,
                                stale_of(found),
                                answer,
                                now,
                                fetch_view(r),
                                final(self)@,
                            ),
                    }
            }),
            final(self).counted() == old(self).counted() || final(self).counted() == old(
                self,
            ).counted().insert(key_for(domain@, record_type, dns_class, ecs_prefix)),
    {
        let (key, lookup) = self.lookup_keyed(domain, record_type, dns_class, ecs_prefix, now);
        let ghost found = lookup@;
        proof {
            assert(seen(self@, key_view(key), now, found));
        }
        let stale = match lookup {
            CacheLookup::Fresh(entry) => {
                return Ok(entry);
            },
            CacheLookup::Stale(entry) => Some(entry),
            CacheLookup::Miss => None,
        };
        proof {
            assert(stale_view(stale) == stale_of(found));
        }
        match self.start_fetch(&key, stale.is_some(), now) {
            Some(entry) => Ok(entry),
            None => {
                let answer = fetcher();
                let ghost given = answer;
                let r = self.finish_fetch(key, stale, answer, now);
                proof {
                    assert(call_ensures(fetcher, (), given));
                }
                r
            },
        }
    }

    /// The number of entries held, by estimate: at most one for each key that
    /// was cached and has not been dropped, and for each that was dropped since
    /// the store was last settled. How many of them have been evicted is open.
    pub fn entry_count(&self) -> (r: u64)
        ensures
            counts_within(r, self.counted()),
    {
        store_count(&self.store)
    }

    /// The weighted capacity.
    pub fn max_capacity(&self) -> (r: u64)
        ensures
            r == self@.capacity,
    {
        match store_limit(&self.store) {
            Some(n) => n,
            None => 0,
        }
    }

    /// Settles the store, then reads its entry count and weight. No more
    /// entries are reported than are cached. How many of them have been
    /// evicted, and what the rest weigh by the store's own account, is open.
    pub fn flushed_usage(&mut self) -> (r: CacheUsage)
        ensures
            final(self)@ == old(self)@,
            final(self).counted() == final(self)@.entries.dom(),
            counts_within(r.entries, final(self)@.entries.dom()),
    {
        store_settle(&mut self.store);
        CacheUsage { entries: store_count(&self.store), weighted_size: store_weight(&self.store) }
    }

    /// Drops every entry, together with the store that holds them: emptying a
    /// store by its clock spares an entry of the same instant. The new store
    /// goes by the stale window of the cache.
    pub fn clear(&mut self)
        ensures
            final(self)@ == (CacheV {
                window: old(self)@.stale_secs,
                ..with_entries(old(self)@, Map::empty())
            }),
            final(self).counted() == Set::<KeyV>::empty(),
    {
        let expiry = DnsExpiry { stale_secs: self.stale_secs };
        self.store = store_new(self.max_capacity(), expiry);
    }

    /// Drops the entry of one key. The domain may be spelled in any case.
    pub fn invalidate_key(
        &mut self,
        domain: &str,
        record_type: RecordType,
        dns_class: DNSClass,
        ecs_prefix: Option<EcsPrefix>,
    )
        ensures
            final(self)@ == with_entries(
                old(self)@,
                old(self)@.entries.remove(
                    key_for(lowered(domain@), record_type, dns_class, ecs_prefix),
                ),
            ),
            final(self).counted() == final(self)@.entries.dom(),
    {
        let normalized = to_lower(domain);
        let key = make_key(&normalized, record_type, dns_class, ecs_prefix);
        store_remove(&mut self.store, &key);
        store_settle(&mut self.store);
    }

    /// Drops every entry of a domain for the common types, in the classes IN
    /// and CH. The domain may be spelled in any case. Entries in client-subnet
    /// buckets stay until their time is over.
    pub fn invalidate_domain(&mut self, domain: &str)
        ensures
            final(self)@ == with_entries(
                old(self)@,
                old(self)@.entries.remove_keys(Set::new(|k: KeyV| flushed(domain@, k))),
            ),
            final(self).counted() == final(self)@.entries.dom(),
    {
        let normalized = to_lower(domain);
        let ghost before = self@;
        let types: [RecordType; 11] = [
            RecordType::A,
            RecordType::AAAA,
            RecordType::CNAME,
            RecordType::MX,
            RecordType::TXT,
            RecordType::NS,
            RecordType::SOA,
            RecordType::HTTPS,
            RecordType::SVCB,
            RecordType::SRV,
            RecordType::TLSA,
        ];
        let mut i: usize = 0;
        proof {
            assert(self@.entries =~= before.entries.remove_keys(wiped(types@, lowered(domain@), 0)));
        }
        while i < 11
            invariant
                i <= 11,
                normalized@ == lowered(domain@),
                self@ == with_entries(
                    before,
                    before.entries.remove_keys(wiped(types@, lowered(domain@), i as int)),
                ),
            decreases 11 - i,
        {
            let ghost mid = self@.entries;
            let ghost set0 = wiped(types@, lowered(domain@), i as int);
            let ghost set1 = wiped(types@, lowered(domain@), i + 1);
            let ghost k_in = key_for(normalized@, types@[i as int], DNSClass::IN, None);
            let ghost k_ch = key_for(normalized@, types@[i as int], DNSClass::CH, None);
            let key_in = make_key(&normalized, types[i], DNSClass::IN, None);
            let key_ch = make_key(&normalized, types[i], DNSClass::CH, None);
            store_remove(&mut self.store, &key_in);
            store_remove(&mut self.store, &key_ch);
            i += 1;
            proof {
                assert(set1 =~= set0.insert(k_in).insert(k_ch));
                assert(before.entries.remove_keys(set1) =~= mid.remove(k_in).remove(k_ch));
            }
        }
        store_settle(&mut self.store);
        proof {
            let all = wiped(types@, lowered(domain@), 11);
            assert forall|k: KeyV| all.contains(k) == flushed(domain@, k) by {
                if flushed(domain@, k) {
                    assert(k.1 == type_number(types@[0]) || k.1 == type_number(types@[1]) || k.1
                        == type_number(types@[2]) || k.1 == type_number(types@[3]) || k.1
                        == type_number(types@[4]) || k.1 == type_number(types@[5]) || k.1
                        == type_number(types@[6]) || k.1 == type_number(types@[7]) || k.1
                        == type_number(types@[8]) || k.1 == type_number(types@[9]) || k.1
                        == type_number(types@[10]));
                }
            }
            assert(all =~= Set::new(|k: KeyV| flushed(domain@, k)));
        }
    }
}

/// The keys of the first `n` of a list of types.
spec fn wiped(types: Seq<RecordType>, name: Seq<char>, n: int) -> Set<KeyV> {
    Set::new(
        |k: KeyV|
            k.0 == name && k.3 is None && (k.2 == class_number(DNSClass::IN) || k.2 == class_number(
                DNSClass::CH,
            )) && exists|j: int| 0 <= j < n && k.1 == type_number(#[trigger] types[j]),
    )
}

// ── Laws ──────────────────────────────────────────────────────────────

/// Two queries share a cache slot only if they agree on the name, the type
/// and the class, and on the client subnet or the lack of one.
pub proof fn slots_are_not_shared(
    d1: Seq<char>,
    t1: RecordType,
    c1: DNSClass,
    e1: Option<EcsPrefix>,
    d2: Seq<char>,
    t2: RecordType,
    c2: DNSClass,
    e2: Option<EcsPrefix>,
)
    requires
        key_for(d1, t1, c1, e1) == key_for(d2, t2, c2, e2),
    ensures
        d1 == d2,
        t1 == t2,
        c1 == c2,
        e1 is Some <==> e2 is Some,
        e1 is Some ==> ip_octets(e1->0.addr) == ip_octets(e2->0.addr) && e1->0.prefix
            == e2->0.prefix,
{
}

proof fn lemma_seconds(ttl: u64, extra: u64)
    ensures
        ttl * SECOND <= (ttl + extra) * SECOND,
        (ttl + extra) * SECOND == ttl * SECOND + extra * SECOND,
{
    assert((ttl + extra) * 1_000_000_000 == ttl * 1_000_000_000 + extra * 1_000_000_000)
        by (nonlinear_arith);
}

/// Time only runs one way: an entry that is not fresh does not become fresh
/// again, and one that is gone does not come back.
pub proof fn entries_only_age(e: EntryV, stale_secs: u64, now: u128, later: u128)
    requires
        now <= later,
    ensures
        !fresh(e, now) ==> !fresh(e, later),
        classified(e, stale_secs, now) is Miss ==> classified(e, stale_secs, later) is Miss,
        remaining(e, later) <= remaining(e, now),
{
    lemma_seconds(e.ttl, stale_secs);
}

/// An entry is kept exactly as long as it is of use: where the number of
/// seconds fits, a lookup finds it until its time is over and not after that.
pub proof fn entries_are_kept_while_of_use(e: EntryV, stale_secs: u64, now: u128)
    requires
        e.ttl + stale_secs <= u64::MAX,
    ensures
        classified(e, stale_secs, now) is Miss <==> age(e, now) >= kept_for(e, stale_secs)
            * SECOND,
{
    lemma_seconds(e.ttl, stale_secs);
}

/// No response is cached for longer than the ceiling, and no positive one for
/// less than the floor where the floor is below the ceiling.
pub proof fn cached_ttls_stay_in_range(
    c: CacheV,
    records: Seq<RecordV>,
    code: ResponseCode,
    soa_minimum: Option<u32>,
)
    ensures
        entry_ttl(c, records, code, soa_minimum) <= c.max_ttl,
        !kept_as_negative(records, code) && c.min_ttl <= c.max_ttl ==> entry_ttl(
            c,
            records,
            code,
            soa_minimum,
        ) >= c.min_ttl,
{
}

/// A negative response is cached for the larger of the configured TTL and the
/// minimum of the zone, up to the ceiling. The TTLs of the records that it
/// holds have no say.
pub proof fn negatives_go_by_zone_and_configuration(
    c: CacheV,
    records: Seq<RecordV>,
    code: ResponseCode,
    soa_minimum: Option<u32>,
    now: u128,
)
    requires
        negative(entry_for(c, records, code, soa_minimum, now)),
    ensures
        entry_for(c, records, code, soa_minimum, now).ttl == negative_ttl(
            c.negative_ttl,
            c.max_ttl,
            soa_minimum,
        ),
{
}

/// The least TTL of a list is a lower bound that is met: no record has a
/// smaller one, and some record has that one.
pub proof fn least_ttl_is_the_minimum(records: Seq<RecordV>)
    requires
        records.len() > 0,
    ensures
        forall|i: int| 0 <= i < records.len() ==> least_ttl(records) <= #[trigger] records[i].ttl,
        exists|i: int| 0 <= i < records.len() && least_ttl(records) == #[trigger] records[i].ttl,
    decreases records.len(),
{
    let n = records.len() - 1;
    let prior = records.drop_last();
    if n == 0 {
        assert(records[0].ttl == least_ttl(records));
    } else {
        least_ttl_is_the_minimum(prior);
        assert forall|i: int| 0 <= i < records.len() implies least_ttl(records)
            <= #[trigger] records[i].ttl by {
            if i < n {
                assert(prior[i] == records[i]);
            }
        }
        if records.last().ttl < least_ttl(prior) {
            assert(records[n].ttl == least_ttl(records));
        } else {
            let k = choose|k: int| 0 <= k < prior.len() && least_ttl(prior) == #[trigger] prior[k].ttl;
            assert(records[k].ttl == least_ttl(records));
        }
    }
}

/// A positive response lives no longer than its shortest record, but for the
/// floor: some record of it has a TTL that no other undercuts, and the entry
/// lives that long, or for the floor where that is longer, or for the ceiling
/// where that is shorter.
pub proof fn positives_live_as_long_as_their_shortest_record(
    c: CacheV,
    records: Seq<RecordV>,
    code: ResponseCode,
    soa_minimum: Option<u32>,
    now: u128,
)
    requires
        records.len() > 0,
        code != ResponseCode::NXDomain,
    ensures
        ({
            let ttl = entry_for(c, records, code, soa_minimum, now).ttl;
            &&& forall|i: int|
                0 <= i < records.len() ==> ttl <= #[trigger] records[i].ttl || ttl <= c.min_ttl
            &&& c.min_ttl <= c.max_ttl ==> exists|i: int|
                #![trigger records[i]]
                0 <= i < records.len() && (forall|j: int|
                    0 <= j < records.len() ==> records[i].ttl <= #[trigger] records[j].ttl) && (
                ttl == records[i].ttl || (ttl == c.min_ttl && records[i].ttl < c.min_ttl) || (ttl
                    == c.max_ttl && records[i].ttl > c.max_ttl))
        }),
{
    least_ttl_is_the_minimum(records);
    let k = choose|k: int| 0 <= k < records.len() && least_ttl(records) == #[trigger] records[k].ttl;
    assert(forall|j: int| 0 <= j < records.len() ==> records[k].ttl <= #[trigger] records[j].ttl);
}

/// A name error and an empty answer live for the configured time or for the
/// minimum of the zone, whichever is longer, and neither outlives the ceiling.
pub proof fn negatives_live_for_the_longer_of_two(
    c: CacheV,
    records: Seq<RecordV>,
    code: ResponseCode,
    soa_minimum: Option<u32>,
    now: u128,
)
    requires
        code == ResponseCode::NXDomain || records.len() == 0,
    ensures
        ({
            let ttl = entry_for(c, records, code, soa_minimum, now).ttl;
            &&& ttl <= c.max_ttl
            &&& ttl < c.max_ttl ==> ttl >= c.negative_ttl && (soa_minimum matches Some(m) ==> ttl
                >= m)
            &&& ttl == c.max_ttl || ttl == c.negative_ttl || (soa_minimum matches Some(m) && ttl
                == m)
            &&& c.negative_ttl >= c.max_ttl ==> ttl == c.max_ttl
            &&& (soa_minimum matches Some(m) && m >= c.max_ttl) ==> ttl == c.max_ttl
        }),
{
}

/// An entry is what was answered, from the moment that it was answered: the
/// records and the code are kept as they came.
pub proof fn entries_hold_what_was_answered(
    c: CacheV,
    records: Seq<RecordV>,
    code: ResponseCode,
    soa_minimum: Option<u32>,
    now: u128,
)
    ensures
        ({
            let e = entry_for(c, records, code, soa_minimum, now);
            &&& e.records == records
            &&& e.code == code
            &&& e.created_at == now
        }),
{
}

/// The three ages of an entry, on the clock: it is fresh until its TTL is over,
/// stale until the window behind it is over, and missing from there on. A clock
/// that reads before its creation finds it new.
pub proof fn entries_have_three_ages(e: EntryV, stale_secs: u64, now: u128)
    ensures
        ({
            let fresh_until = e.created_at + e.ttl * 1_000_000_000;
            let stale_until = fresh_until + stale_secs * 1_000_000_000;
            let found = classified(e, stale_secs, now);
            &&& now >= e.created_at ==> {
                &&& found == CacheLookupV::Fresh(e) <==> now < fresh_until
                &&& found == CacheLookupV::Stale(e) <==> fresh_until <= now < stale_until
                &&& found is Miss <==> now >= stale_until
                &&& remaining(e, now) == if now < fresh_until {
                    fresh_until - now
                } else {
                    0
                }
            }
            &&& now < e.created_at && e.ttl > 0 ==> found == CacheLookupV::Fresh(e)
            &&& fresh(e, now) <==> found is Fresh
        }),
{
    lemma_seconds(e.ttl, stale_secs);
    assert(e.ttl > 0 ==> e.ttl * SECOND > 0);
}

/// The TTL that records are served with is what is left, rounded down to whole
/// seconds, and never zero.
pub proof fn served_ttls_count_down(e: EntryV, now: u128)
    requires
        e.ttl <= u32::MAX,
    ensures
        served_ttl(e, now) >= 1,
        remaining(e, now) >= 1_000_000_000 ==> served_ttl(e, now) * 1_000_000_000 <= remaining(
            e,
            now,
        ) < (served_ttl(e, now) + 1) * 1_000_000_000,
        remaining(e, now) < 1_000_000_000 ==> served_ttl(e, now) == 1,
        served_ttl(e, now) <= e.ttl || served_ttl(e, now) == 1,
{
    let left = remaining(e, now);
    let secs = left / 1_000_000_000;
    assert(left <= e.ttl * 1_000_000_000);
    assert(secs <= e.ttl) by (nonlinear_arith)
        requires
            0 <= left <= e.ttl * 1_000_000_000,
            secs == left / 1_000_000_000,
    ;
}

/// Serving a record changes nothing of it but its TTL, which is the same for
/// all records of an entry.
pub proof fn served_records_change_in_ttl_alone(records: Seq<RecordV>, ttl: u32)
    ensures
        with_ttl(records, ttl).len() == records.len(),
        forall|i: int|
            0 <= i < records.len() ==> ({
                let r = #[trigger] with_ttl(records, ttl)[i];
                r.ttl == ttl && r.name == records[i].name && r.dns_class == records[i].dns_class
                    && r.data == records[i].data
            }),
{
}

/// Only a failed or refused lookup is not cached: every other code, name errors
/// included, is kept in the slot that was asked for, and in no other.
pub proof fn answers_are_kept_unless_they_failed(
    c: CacheV,
    key: KeyV,
    stale: Option<EntryV>,
    answer: Result<Fetched, DnsError>,
    now: u128,
)
    ensures
        ({
            let f = answer_outcome(c, stale, answer, now);
            let after = answer_kept(c, key, answer, now);
            let kept = answer matches Ok(a) && a.response_code != ResponseCode::ServFail
                && a.response_code != ResponseCode::Refused;
            &&& kept ==> {
                &&& f matches FetchV::Got(e) && e.code == answer->Ok_0.response_code && e.records
                    == record_views(answer->Ok_0.records@) && e.created_at == now
                &&& after.entries.contains_key(key) && f == FetchV::Got(after.entries[key])
                &&& forall|other: KeyV|
                    other != key ==> (#[trigger] after.entries.contains_key(other)
                        == c.entries.contains_key(other)) && (c.entries.contains_key(other)
                        ==> after.entries[other] == c.entries[other])
            }
            &&& !kept ==> {
                &&& after == c
                &&& f matches FetchV::Failed(s, _) && s == stale
            }
            &&& answer is Ok && !kept ==> f == FetchV::Failed(
                stale,
                DnsError::Uncacheable(answer->Ok_0.response_code),
            )
            &&& answer matches Err(error) ==> f == FetchV::Failed(stale, error)
        }),
{
}

/// A flush of a domain reaches the address, mail, text, alias, server, authority
/// and service records of its name in the classes IN and CH, whatever the case
/// of its letters. It reaches no other name and no client-subnet bucket.
pub proof fn flushes_reach_the_common_types(
    domain: Seq<char>,
    t: RecordType,
    class: DNSClass,
    ecs: Option<EcsPrefix>,
    other: Seq<char>,
)
    requires
        t == RecordType::A || t == RecordType::AAAA || t == RecordType::CNAME || t
            == RecordType::MX || t == RecordType::TXT || t == RecordType::NS || t
            == RecordType::SOA || t == RecordType::HTTPS || t == RecordType::SVCB || t
            == RecordType::SRV || t == RecordType::TLSA,
        class == DNSClass::IN || class == DNSClass::CH,
    ensures
        flushed(domain, key_for(lowered(domain), t, class, None)),
        ecs is Some ==> !flushed(domain, key_for(lowered(domain), t, class, ecs)),
        other != lowered(domain) ==> !flushed(domain, key_for(other, t, class, ecs)),
{
}

/// What was cached is what is read back: right after a cacheable response is
/// inserted, the slot holds it, and it is fresh unless its TTL is zero.
pub proof fn inserted_entries_are_read_back(
    c: CacheV,
    key: KeyV,
    records: Seq<RecordV>,
    code: ResponseCode,
    soa_minimum: Option<u32>,
    now: u128,
)
    ensures
        ({
            let e = entry_for(c, records, code, soa_minimum, now);
            let after = with_entries(c, c.entries.insert(key, e));
            &&& after.entries[key] == e
            &&& e.ttl > 0 ==> classified(after.entries[key], c.stale_secs, now)
                == CacheLookupV::Fresh(e)
            &&& forall|other: KeyV|
                other != key ==> after.entries.contains_key(other) == c.entries.contains_key(other)
        }),
{
    let e = entry_for(c, records, code, soa_minimum, now);
    assert(e.ttl > 0 ==> e.ttl * SECOND > 0);
}

/// Negative are name errors, whatever records they come with, and successes
/// without records; no other answer is, whatever its code.
pub proof fn negatives_are_name_errors_and_empty_successes(e: EntryV)
    ensures
        e.code is NXDomain ==> negative(e),
        e.code is NoError ==> (negative(e) <==> e.records.len() == 0),
        !(e.code is NXDomain) && !(e.code is NoError) ==> !negative(e),
        kept_as_negative(e.records, e.code) <==> e.code is NXDomain || e.records.len() == 0,
        weight_of(e) == (if e.code is NXDomain || e.records.len() == 0 {
            1u32
        } else {
            10u32
        }),
{
}

/// A floor above the ceiling gives way to it.
pub proof fn ceilings_win_over_floors(
    c: CacheV,
    records: Seq<RecordV>,
    code: ResponseCode,
    soa_minimum: Option<u32>,
)
    requires
        c.min_ttl > c.max_ttl,
        records.len() > 0,
        code != ResponseCode::NXDomain,
    ensures
        entry_ttl(c, records, code, soa_minimum) == c.max_ttl,
{
}

/// A flush leaves alone the types that it does not name and the classes other
/// than IN and CH.
pub proof fn flushes_leave_the_rest(
    domain: Seq<char>,
    name: Seq<char>,
    t: RecordType,
    class: DNSClass,
    ecs: Option<EcsPrefix>,
)
    ensures
        t is PTR || t is HINFO || t is ANY || t is Other ==> !flushed(
            domain,
            key_for(name, t, class, ecs),
        ),
        class is Other ==> !flushed(domain, key_for(name, t, class, ecs)),
{
}

/// The store keeps an entry for its TTL and the stale window together, and for as
/// long as it can count where their sum does not fit.
pub proof fn entries_are_kept_for_ttl_and_window(e: EntryV, stale_secs: u64)
    ensures
        kept_for(e, stale_secs) >= e.ttl,
        kept_for(e, stale_secs) >= stale_secs,
        kept_for(e, stale_secs) == e.ttl + stale_secs || (kept_for(e, stale_secs) == u64::MAX
            && e.ttl + stale_secs > u64::MAX),
{
}

/// An entry is due for a refresh while little of its TTL is left, but something:
/// one that has run out is not refreshed, and neither is one with time to spare.
pub proof fn refreshes_are_due_before_the_end(
    e: EntryV,
    threshold: u128,
    lead_secs: u64,
    now: u128,
)
    ensures
        due_below(e, threshold, now) ==> fresh(e, now),
        due_within(e, lead_secs, now) ==> fresh(e, now),
        fresh(e, now) ==> (due_below(e, threshold, now) <==> remaining(e, now) < threshold),
        fresh(e, now) ==> (due_within(e, lead_secs, now) <==> remaining(e, now) <= lead_secs
            * 1_000_000_000),
        !due_below(e, 0, now),
        !due_within(e, 0, now),
{
}

/// A new cache holds nothing, and goes by its configuration: an answer without
/// records lives for the negative TTL, and an answer lives no longer than the
/// ceiling; what is past its TTL is stale for the configured time.
pub proof fn new_caches_go_by_their_configuration(
    config: CacheConfig,
    records: Seq<RecordV>,
    key: KeyV,
    now: u128,
)
    requires
        config.negative_ttl_secs <= config.max_ttl_secs,
        config.min_ttl_secs <= config.max_ttl_secs,
        config.max_ttl_secs + config.stale_buffer_secs <= u64::MAX,
    ensures
        ({
            let c = cache_for(config);
            let empty = entry_for(c, Seq::empty(), ResponseCode::NoError, None, now);
            let e = entry_for(c, records, ResponseCode::NoError, None, now);
            &&& !c.entries.contains_key(key)
            &&& c.capacity == config.max_entries
            &&& empty.ttl == config.negative_ttl_secs
            &&& e.ttl <= config.max_ttl_secs
            &&& records.len() > 0 ==> e.ttl >= config.min_ttl_secs
            &&& kept_for(e, c.stale_secs) == e.ttl + config.stale_buffer_secs
            &&& c.window == c.stale_secs
        }),
{
}

/// The outcome of a fetch is seen as what it is: an entry that was got, or an
/// error and the stale entry that goes with it.
pub proof fn fetches_are_seen_as_they_ended(
    result: Result<Arc<CacheEntry>, FetchFailure>,
    entry: Arc<CacheEntry>,
)
    ensures
        stale_view(Some(entry)) == Some((*entry)@),
        stale_view(None) is None,
        result matches Ok(e) ==> fetch_view(result) == FetchV::Got((*e)@),
        result matches Err(f) ==> (fetch_view(result) matches FetchV::Failed(stale, error) && error
            == f.error && stale == stale_view(f.stale)),
{
}

/// The parts of a key are seen as what they are.
pub proof fn keys_are_seen_as_they_are(key: CacheKey)
    ensures
        key_view(key).0 == key.0@,
        key_view(key).1 == key.1,
        key_view(key).2 == key.2,
        key_view(key).3 is Some <==> key.3 is Some,
        key.3 is Some ==> (key_view(key).3->0).0 == (key.3->0).0@ && (key_view(key).3->0).1 == (
        key.3->0).1,
{
}

/// A fetch starts without the stale entry of its slot, and with every other entry
/// where it was; without a stale entry nothing is taken out.
pub proof fn fetches_start_without_the_stale_entry(
    c: CacheV,
    key: KeyV,
    stale: Option<EntryV>,
    other: KeyV,
)
    ensures
        stale is None ==> cleared(c, key, stale) == c,
        stale is Some ==> !cleared(c, key, stale).entries.contains_key(key),
        other != key ==> (cleared(c, key, stale).entries.contains_key(other)
            <==> c.entries.contains_key(other)) && (c.entries.contains_key(other) ==> cleared(
            c,
            key,
            stale,
        ).entries[other] == c.entries[other]),
        cleared(c, key, stale).stale_secs == c.stale_secs,
        cleared(c, key, stale).max_ttl == c.max_ttl,
{
}

/// How a fetch may end: with what the slot was filled with in the meantime, or
/// with what the upstream answered. A slot that was found stale is not looked at
/// again, and whatever is got is in the slot afterwards.
pub proof fn fetches_end_with_the_slot_or_the_upstream(
    c: CacheV,
    key: KeyV,
    stale: Option<EntryV>,
    answer: Result<Fetched, DnsError>,
    now: u128,
    f: FetchV,
    after: CacheV,
)
    requires
        fetch_ends(c, key, stale, answer, now, f, after),
    ensures
        f matches FetchV::Got(e) ==> after.entries.contains_key(key) && after.entries[key] == e,
        (f matches FetchV::Got(e) && (answer is Err || uncacheable(answer->Ok_0.response_code)))
            ==> stale is None && after == c,
        f matches FetchV::Failed(s, error) ==> s == stale && (answer matches Err(x) ==> error == x)
            && (answer matches Ok(a) ==> error == DnsError::Uncacheable(a.response_code)
            && (a.response_code is ServFail || a.response_code is Refused)),
{
}

} // verus!
