//! The configuration values that the policy core reads.
use vstd::prelude::*;

verus! {

/// The record types that local DNS serves.
#[derive(Clone, Copy, Debug, PartialEq, Eq, Structural)]
pub enum LocalDnsRecordType {
    A,
    AAAA,
    CNAME,
}

/// One configured local record.
#[derive(Clone, Debug, PartialEq, Eq)]
pub struct LocalDnsRecord {
    pub domain: String,
    pub record_type: LocalDnsRecordType,
    pub value: String,
    pub match_subdomains: bool,
    pub ttl_secs: Option<u32>,
}

/// One configured rewrite of a queried name.
#[derive(Clone, Debug, PartialEq, Eq)]
pub struct RewriteRule {
    pub from: String,
    pub to: String,
    pub match_subdomains: bool,
}

/// The global local-DNS section.
#[derive(Clone, Debug, PartialEq, Eq)]
pub struct LocalDnsConfig {
    pub ttl_secs: u32,
    pub dynamic_ttl_secs: u32,
    pub nodata_for_missing_types: bool,
    pub records: Vec<LocalDnsRecord>,
}

/// How DNSSEC verdicts act on responses.
#[derive(Clone, Copy, Debug, PartialEq, Eq, Structural)]
pub enum DnssecMode {
    /// No validation.
    Off,
    /// Validate and log; never alter a response.
    LogOnly,
    /// Validate and act on the verdict.
    Validate,
}

/// The DNSSEC section.
#[derive(Clone, Copy, Debug, PartialEq, Eq, Structural)]
pub struct DnssecConfig {
    pub mode: DnssecMode,
    pub cache_ttl_secs: u64,
}

/// The cache section.
#[derive(Clone, Copy, Debug, PartialEq, Eq, Structural)]
pub struct CacheConfig {
    pub max_entries: u64,
    pub min_ttl_secs: u64,
    pub max_ttl_secs: u64,
    pub negative_ttl_secs: u64,
    pub stale_buffer_secs: u64,
}

/// The settings of the query rate limit.
#[derive(Clone, Copy, Debug, PartialEq, Eq, Structural)]
pub struct RateLimitConfig {
    pub enabled: bool,
}

/// The settings of response rate limiting.
#[derive(Clone, Copy, Debug, PartialEq, Eq, Structural)]
pub struct RrlConfig {
    pub enabled: bool,
}

/// The settings of tunneling detection: how many distinct names below one
/// domain a client may ask for in a minute.
#[derive(Clone, Copy, Debug, PartialEq, Eq, Structural)]
pub struct TunnelingConfig {
    pub enabled: bool,
    pub subdomain_rate: u32,
}

/// The security section.
#[derive(Clone, Copy, Debug, PartialEq, Eq, Structural)]
pub struct SecurityConfig {
    pub enabled: bool,
    pub rate_limit: RateLimitConfig,
    pub rrl: RrlConfig,
    pub tunneling: TunnelingConfig,
}

/// The domains whose resolution would bypass the filter.
#[derive(Clone, Debug, PartialEq, Eq)]
pub struct AntiBypassConfig {
    pub enabled: bool,
    pub extra_domains: Vec<String>,
}

/// The security section as it is by default.
pub open spec fn default_security(c: SecurityConfig) -> bool {
    &&& c.enabled
    &&& c.rate_limit.enabled
    &&& c.rrl.enabled
    &&& c.tunneling.enabled
    &&& c.tunneling.subdomain_rate == 50
}

/// The bypass section as it is by default.
pub open spec fn default_bypass(c: AntiBypassConfig) -> bool {
    c.enabled && c.extra_domains@.len() == 0
}

/// The local-DNS section as it is by default.
pub open spec fn default_local_dns(c: LocalDnsConfig) -> bool {
    &&& c.ttl_secs == 3600
    &&& c.dynamic_ttl_secs == 30
    &&& c.nodata_for_missing_types
    &&& c.records@.len() == 0
}

impl Default for SecurityConfig {
    fn default() -> (r: SecurityConfig)
        ensures
            default_security(r),
    {
        SecurityConfig {
            enabled: true,
            rate_limit: RateLimitConfig { enabled: true },
            rrl: RrlConfig { enabled: true },
            tunneling: TunnelingConfig { enabled: true, subdomain_rate: 50 },
        }
    }
}

impl Default for AntiBypassConfig {
    fn default() -> (r: AntiBypassConfig)
        ensures
            default_bypass(r),
    {
        AntiBypassConfig { enabled: true, extra_domains: Vec::new() }
    }
}

impl Default for LocalDnsConfig {
    fn default() -> (r: LocalDnsConfig)
        ensures
            default_local_dns(r),
    {
        LocalDnsConfig {
            ttl_secs: 3600,
            dynamic_ttl_secs: 30,
            nodata_for_missing_types: true,
            records: Vec::new(),
        }
    }
}

/// How a blocked query is answered.
#[derive(Clone, Copy, Debug, PartialEq, Eq, Structural)]
pub enum BlockResponse {
    /// The unspecified address, or no data for a type without addresses.
    Zero,
    /// A name error.
    Nxdomain,
    /// A refusal.
    Refused,
    /// No data, with an authority record.
    SoaNodata,
}

/// Audit messages gathered while a configuration is validated, and whether
/// they are also to be logged.
#[derive(Clone, Debug, PartialEq, Eq)]
pub struct AuditWarnings {
    pub emit: bool,
    pub messages: Vec<String>,
}

impl AuditWarnings {
    /// A collector whose messages are to be logged.
    pub fn emitting() -> (r: Self)
        ensures
            r.emit,
            r.messages@.len() == 0,
    {
        AuditWarnings { emit: true, messages: Vec::new() }
    }

    /// A collector that only keeps its messages.
    pub fn collecting() -> (r: Self)
        ensures
            !r.emit,
            r.messages@.len() == 0,
    {
        AuditWarnings { emit: false, messages: Vec::new() }
    }

    /// Whether the messages are to be logged.
    pub fn emit(&self) -> (r: bool)
        ensures
            r == self.emit,
    {
        self.emit
    }
}

} // verus!
