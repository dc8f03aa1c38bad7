//! The security layer: which checks are armed, and what they decide.
//!
//! The counters behind the rate limits live with the caller; the layer says
//! which of them to consult, and takes what they say.
use vstd::prelude::*;
use crate::answer::below;
use crate::filter::{canonical_set, covered, DomainSet};
use crate::record::RecordType;
use crate::settings::{
    default_bypass, default_security, AntiBypassConfig, RateLimitConfig, RrlConfig, SecurityConfig,
    TunnelingConfig,
};
use crate::text::{self, has_suffix, texts};

verus! {

/// The domains whose resolution would bypass the filter.
pub struct AntiBypass {
    domains: DomainSet,
}

impl View for AntiBypass {
    type V = Set<Seq<char>>;

    closed spec fn view(&self) -> Set<Seq<char>> {
        self.domains@
    }
}

impl AntiBypass {
    /// The checker for the configured domains.
    pub fn new(config: &AntiBypassConfig) -> (r: AntiBypass)
        ensures
            r@ == canonical_set(texts(config.extra_domains@)),
    {
        AntiBypass { domains: DomainSet::from_list(&config.extra_domains) }
    }

    /// Whether no domain is listed.
    pub fn is_empty(&self) -> (r: bool)
        ensures
            r == self@.is_empty(),
    {
        self.domains.is_empty()
    }

    /// Whether a domain is listed, or lies below one that is.
    pub fn is_bypass_domain(&self, domain: &str) -> (r: bool)
        ensures
            r == covered(self@, domain@),
    {
        self.domains.matches(domain)
    }
}

/// What response rate limiting does with a response.
#[derive(Clone, Copy, Debug, PartialEq, Eq, Structural)]
pub enum RrlAction {
    Allow,
    Drop,
    Slip,
}

/// Why a query is refused before it is looked at.
#[derive(Clone, Copy, Debug, PartialEq, Eq, Structural)]
pub enum Refusal {
    RateLimited,
    InvalidCharacters,
    Rebinding,
    BypassDomain,
    Tunneling,
}

/// The reason of a refusal in words.
pub open spec fn refusal_reason(refusal: Refusal) -> Seq<char> {
    match refusal {
        Refusal::RateLimited => "rate limited"@,
        Refusal::InvalidCharacters => "invalid domain characters"@,
        Refusal::Rebinding => "DNS rebinding pattern detected"@,
        Refusal::BypassDomain => "bypass domain blocked"@,
        Refusal::Tunneling => "tunneling detected"@,
    }
}

impl Refusal {
    /// The reason in words.
    pub fn reason(&self) -> (r: &'static str)
        ensures
            r@ == refusal_reason(*self),
    {
        match self {
            Refusal::RateLimited => "rate limited",
            Refusal::InvalidCharacters => "invalid domain characters",
            Refusal::Rebinding => "DNS rebinding pattern detected",
            Refusal::BypassDomain => "bypass domain blocked",
            Refusal::Tunneling => "tunneling detected",
        }
    }
}

/// What the detectors say of a query.
#[derive(Clone, Copy, Debug, PartialEq, Eq, Structural)]
pub struct PreQueryFacts {
    /// The client has used up its budget.
    pub rate_exceeded: bool,
    /// The name holds characters that no name may hold.
    pub bad_characters: bool,
    /// The name embeds an address.
    pub rebinding_pattern: bool,
    /// The name has the shape of a payload.
    pub tunneling_shape: bool,
}

/// Record types whose answers carry addresses.
pub open spec fn address_bearing(t: RecordType) -> bool {
    t == RecordType::A || t == RecordType::AAAA || t == RecordType::HTTPS || t == RecordType::SVCB
}

/// Which tables of the layer are to be swept.
#[derive(Clone, Copy, Debug, PartialEq, Eq, Structural)]
pub struct Sweep {
    pub rate_limiter: bool,
    pub rrl: bool,
    pub tunneling: bool,
}

/// The armed checks. A check that is not armed is absent.
pub struct SecurityLayer {
    pub rate_limiter: Option<RateLimitConfig>,
    pub rrl: Option<RrlConfig>,
    pub tunneling: Option<TunnelingConfig>,
    pub anti_bypass: Option<AntiBypass>,
}

/// The first check, in order, that refuses a query. The shape of a name is
/// not held against a PTR query, and an embedded address only against queries
/// for addresses.
pub open spec fn refused_for(
    layer: SecurityLayer,
    facts: PreQueryFacts,
    domain: Seq<char>,
    record_type: RecordType,
) -> Option<Refusal> {
    if layer.rate_limiter is Some && facts.rate_exceeded {
        Some(Refusal::RateLimited)
    } else if facts.bad_characters {
        Some(Refusal::InvalidCharacters)
    } else if address_bearing(record_type) && facts.rebinding_pattern {
        Some(Refusal::Rebinding)
    } else if layer.anti_bypass is Some && covered(layer.anti_bypass->0@, domain) {
        Some(Refusal::BypassDomain)
    } else if record_type != RecordType::PTR && layer.tunneling is Some && facts.tunneling_shape {
        Some(Refusal::Tunneling)
    } else {
        None
    }
}

/// The layer is the one that a configuration arms.
pub open spec fn arms(
    security: SecurityConfig,
    bypass: AntiBypassConfig,
    layer: SecurityLayer,
) -> bool {
    let domains = canonical_set(texts(bypass.extra_domains@));
    &&& layer.rate_limiter == (if security.enabled && security.rate_limit.enabled {
        Some(security.rate_limit)
    } else {
        None
    })
    &&& layer.rrl == (if security.enabled && security.rrl.enabled {
        Some(security.rrl)
    } else {
        None
    })
    &&& layer.tunneling == (if security.enabled && security.tunneling.enabled {
        Some(security.tunneling)
    } else {
        None
    })
    &&& match layer.anti_bypass {
        Some(ab) => security.enabled && bypass.enabled && !domains.is_empty() && ab@ == domains,
        None => !security.enabled || !bypass.enabled || domains.is_empty(),
    }
}

/// The tables that a sweep covers.
pub open spec fn swept(layer: SecurityLayer) -> Sweep {
    Sweep {
        rate_limiter: layer.rate_limiter is Some,
        rrl: layer.rrl is Some,
        tunneling: layer.tunneling is Some,
    }
}

impl SecurityLayer {
    /// The layer that a configuration arms. A bypass check without domains
    /// cannot match, and is not armed.
    pub fn from_config(security: &SecurityConfig, anti_bypass_config: &AntiBypassConfig) -> (r:
        SecurityLayer)
        ensures
            arms(*security, *anti_bypass_config, r),
    {
        if !security.enabled {
            return SecurityLayer {
                rate_limiter: None,
                rrl: None,
                tunneling: None,
                anti_bypass: None,
            };
        }
        let rate_limiter = if security.rate_limit.enabled {
            Some(security.rate_limit)
        } else {
            None
        };
        let rrl = if security.rrl.enabled {
            Some(security.rrl)
        } else {
            None
        };
        let tunneling = if security.tunneling.enabled {
            Some(security.tunneling)
        } else {
            None
        };
        let anti_bypass = if anti_bypass_config.enabled {
            let ab = AntiBypass::new(anti_bypass_config);
            if ab.is_empty() {
                None
            } else {
                Some(ab)
            }
        } else {
            None
        };
        SecurityLayer { rate_limiter, rrl, tunneling, anti_bypass }
    }

    /// The checks before a query is looked at.
    pub fn check_pre_query(
        &self,
        facts: PreQueryFacts,
        domain: &str,
        record_type: RecordType,
    ) -> (r: Result<(), Refusal>)
        ensures
            match r {
                Ok(_) => refused_for(*self, facts, domain@, record_type) is None,
                Err(e) => refused_for(*self, facts, domain@, record_type) == Some(e),
            },
    {
        if self.rate_limiter.is_some() && facts.rate_exceeded {
            return Err(Refusal::RateLimited);
        }
        if facts.bad_characters {
            return Err(Refusal::InvalidCharacters);
        }
        let addresses = record_type == RecordType::A || record_type == RecordType::AAAA
            || record_type == RecordType::HTTPS || record_type == RecordType::SVCB;
        if addresses && facts.rebinding_pattern {
            return Err(Refusal::Rebinding);
        }
        match &self.anti_bypass {
            Some(ab) => {
                if ab.is_bypass_domain(domain) {
                    return Err(Refusal::BypassDomain);
                }
            },
            None => {},
        }
        if record_type != RecordType::PTR && self.tunneling.is_some() && facts.tunneling_shape {
            return Err(Refusal::Tunneling);
        }
        Ok(())
    }

    /// What happens to a response, given what the limiter says of it.
    pub fn check_response(&self, limiter: RrlAction) -> (r: RrlAction)
        ensures
            r == (if self.rrl is Some {
                limiter
            } else {
                RrlAction::Allow
            }),
    {
        if self.rrl.is_some() {
            limiter
        } else {
            RrlAction::Allow
        }
    }

    /// Whether a query that goes upstream is over its tunneling budget, given
    /// what the detector says.
    pub fn check_tunneling_rate(&self, exceeded: bool) -> (r: bool)
        ensures
            r == (self.tunneling is Some && exceeded),
    {
        self.tunneling.is_some() && exceeded
    }

    /// The tables that a periodic sweep covers: those of the armed checks.
    pub fn cleanup(&self) -> (r: Sweep)
        ensures
            r == swept(*self),
    {
        Sweep {
            rate_limiter: self.rate_limiter.is_some(),
            rrl: self.rrl.is_some(),
            tunneling: self.tunneling.is_some(),
        }
    }
}

/// The name is a reverse zone or lies below one.
pub open spec fn reverse_zone(domain: Seq<char>) -> bool {
    ||| domain == "in-addr.arpa"@
    ||| domain == "ip6.arpa"@
    ||| has_suffix(domain, ".in-addr.arpa"@)
    ||| has_suffix(domain, ".ip6.arpa"@)
}

/// Whether a name is a reverse zone or lies below one.
pub fn is_reverse_zone(domain: &str) -> (r: bool)
    ensures
        r == reverse_zone(domain@),
{
    text::same_text(domain, "in-addr.arpa") || text::same_text(domain, "ip6.arpa")
        || text::ends_with(domain, ".in-addr.arpa") || text::ends_with(domain, ".ip6.arpa")
}

/// The tunneling budget applies to all queries but reverse lookups in the
/// reverse zones.
pub open spec fn rate_gate(record_type: RecordType, domain: Seq<char>) -> bool {
    !(record_type == RecordType::PTR && reverse_zone(domain))
}

/// Whether the tunneling budget applies to a query.
pub fn tunneling_rate_gate_applies(record_type: RecordType, domain: &str) -> (r: bool)
    ensures
        r == rate_gate(record_type, domain@),
{
    record_type != RecordType::PTR || !is_reverse_zone(domain)
}

/// A disabled security section arms nothing: no rate, response or tunneling
/// limit, and no bypass check.
pub proof fn disabled_security_refuses_little(
    layer: SecurityLayer,
    facts: PreQueryFacts,
    domain: Seq<char>,
    record_type: RecordType,
)
    requires
        layer.rate_limiter is None,
        layer.anti_bypass is None,
        layer.tunneling is None,
    ensures
        refused_for(layer, facts, domain, record_type) matches Some(e) ==> e
            == Refusal::InvalidCharacters || e == Refusal::Rebinding,
{
}

/// Reverse lookups are never refused for the shape of their names.
pub proof fn reverse_lookups_keep_their_shape(
    layer: SecurityLayer,
    facts: PreQueryFacts,
    domain: Seq<char>,
)
    ensures
        refused_for(layer, facts, domain, RecordType::PTR) != Some(Refusal::Rebinding),
        refused_for(layer, facts, domain, RecordType::PTR) != Some(Refusal::Tunneling),
{
}

/// When a query is refused, and for what: a spent budget first, then characters
/// that no name may hold, then an embedded address in a query for addresses, then
/// a listed domain, then the shape of a payload in anything but a reverse lookup.
/// A check that is not armed refuses nothing.
pub proof fn refusals_come_in_order(
    layer: SecurityLayer,
    facts: PreQueryFacts,
    domain: Seq<char>,
    record_type: RecordType,
)
    ensures
        ({
            let r = refused_for(layer, facts, domain, record_type);
            let spent = layer.rate_limiter is Some && facts.rate_exceeded;
            let embeds = facts.rebinding_pattern && (record_type is A || record_type is AAAA
                || record_type is HTTPS || record_type is SVCB);
            let listed = layer.anti_bypass matches Some(ab) && covered(ab@, domain);
            let shaped = layer.tunneling is Some && facts.tunneling_shape && !(record_type is PTR);
            &&& r is None <==> !spent && !facts.bad_characters && !embeds && !listed && !shaped
            &&& r == Some(Refusal::RateLimited) <==> spent
            &&& r == Some(Refusal::InvalidCharacters) <==> !spent && facts.bad_characters
            &&& r == Some(Refusal::Rebinding) <==> !spent && !facts.bad_characters && embeds
            &&& r == Some(Refusal::BypassDomain) <==> !spent && !facts.bad_characters && !embeds
                && listed
            &&& r == Some(Refusal::Tunneling) <==> !spent && !facts.bad_characters && !embeds
                && !listed && shaped
        }),
{
}

/// A name lies in the reverse zones exactly if it is one of them or lies below
/// one of them; a name that merely ends alike does not.
pub proof fn reverse_zones_hold_what_lies_below(domain: Seq<char>)
    ensures
        reverse_zone(domain) <==> domain == "in-addr.arpa"@ || domain == "ip6.arpa"@ || below(
            domain,
            "in-addr.arpa"@,
        ) || below(domain, "ip6.arpa"@),
{
    reveal_strlit("in-addr.arpa");
    reveal_strlit("ip6.arpa");
    reveal_strlit(".in-addr.arpa");
    reveal_strlit(".ip6.arpa");
    lemma_suffix_is_below(domain, "in-addr.arpa"@);
    lemma_suffix_is_below(domain, "ip6.arpa"@);
    assert(".in-addr.arpa"@ =~= seq!['.'] + "in-addr.arpa"@);
    assert(".ip6.arpa"@ =~= seq!['.'] + "ip6.arpa"@);
}

/// To end in a dot and a name is to lie below the name.
proof fn lemma_suffix_is_below(domain: Seq<char>, apex: Seq<char>)
    ensures
        has_suffix(domain, seq!['.'] + apex) <==> below(domain, apex),
{
    let tail = seq!['.'] + apex;
    if has_suffix(domain, tail) {
        let end = domain.skip(domain.len() - tail.len());
        assert(end[0] == tail[0]);
        assert(domain.skip(domain.len() - apex.len()) =~= apex) by {
            assert forall|i: int| 0 <= i < apex.len() implies domain[domain.len() - apex.len() + i]
                == apex[i] by {
                assert(end[i + 1] == tail[i + 1]);
            }
        }
    }
    if below(domain, apex) {
        let end = domain.skip(domain.len() - apex.len());
        assert(domain.skip(domain.len() - tail.len()) =~= tail) by {
            assert forall|i: int| 0 <= i < tail.len() implies domain[domain.len() - tail.len() + i]
                == tail[i] by {
                if i > 0 {
                    assert(end[i - 1] == apex[i - 1]);
                }
            }
        }
    }
}

/// Of all queries, only reverse lookups in the reverse zones are outside the
/// tunneling budget: another type under the same name counts, and so does a
/// reverse lookup of another name.
pub proof fn budgets_leave_out_reverse_lookups(record_type: RecordType, domain: Seq<char>)
    ensures
        !(record_type is PTR) ==> rate_gate(record_type, domain),
        record_type is PTR ==> (rate_gate(record_type, domain) <==> !(domain == "in-addr.arpa"@
            || domain == "ip6.arpa"@ || below(domain, "in-addr.arpa"@) || below(
            domain,
            "ip6.arpa"@,
        ))),
{
    reverse_zones_hold_what_lies_below(domain);
}

/// A configuration arms what it enables: every check has a switch of its own
/// under the switch of the section, and takes its settings from its own part. A
/// bypass check is armed only with domains to look for.
pub proof fn switches_arm_their_checks(
    security: SecurityConfig,
    bypass: AntiBypassConfig,
    layer: SecurityLayer,
)
    requires
        arms(security, bypass, layer),
    ensures
        !security.enabled ==> layer.rate_limiter is None && layer.rrl is None && layer.tunneling
            is None && layer.anti_bypass is None,
        layer.rate_limiter is Some <==> security.enabled && security.rate_limit.enabled,
        layer.rrl is Some <==> security.enabled && security.rrl.enabled,
        layer.tunneling is Some <==> security.enabled && security.tunneling.enabled,
        layer.tunneling matches Some(t) ==> t.subdomain_rate == security.tunneling.subdomain_rate,
        layer.anti_bypass is Some <==> security.enabled && bypass.enabled && exists|d: Seq<char>|
            #[trigger] canonical_set(texts(bypass.extra_domains@)).contains(d),
        layer.anti_bypass matches Some(ab) ==> forall|d: Seq<char>| #[trigger]
            ab@.contains(d) <==> canonical_set(texts(bypass.extra_domains@)).contains(d),
{
    let domains = canonical_set(texts(bypass.extra_domains@));
    if domains.is_empty() {
        assert(forall|d: Seq<char>| !#[trigger] domains.contains(d));
    } else {
        assert(exists|d: Seq<char>| #[trigger] domains.contains(d)) by {
            if forall|d: Seq<char>| !#[trigger] domains.contains(d) {
                assert(domains =~= Set::empty());
            }
        }
    }
}

/// The tables that are swept are those of the armed checks.
pub proof fn sweeps_cover_what_is_armed(layer: SecurityLayer)
    ensures
        swept(layer).rate_limiter <==> layer.rate_limiter is Some,
        swept(layer).rrl <==> layer.rrl is Some,
        swept(layer).tunneling <==> layer.tunneling is Some,
{
}

/// The reasons of refusals read apart.
pub proof fn reasons_tell_refusals_apart(a: Refusal, b: Refusal)
    requires
        refusal_reason(a) == refusal_reason(b),
    ensures
        a == b,
{
    reveal_strlit("rate limited");
    reveal_strlit("invalid domain characters");
    reveal_strlit("DNS rebinding pattern detected");
    reveal_strlit("bypass domain blocked");
    reveal_strlit("tunneling detected");
    assert("rate limited"@.len() == 12);
    assert("invalid domain characters"@.len() == 25);
    assert("DNS rebinding pattern detected"@.len() == 30);
    assert("bypass domain blocked"@.len() == 21);
    assert("tunneling detected"@.len() == 18);
}

/// By default every limit is armed, with 50 distinct names a minute, and no domain
/// is held to be a bypass.
pub proof fn defaults_arm_every_limit(
    security: SecurityConfig,
    bypass: AntiBypassConfig,
    layer: SecurityLayer,
)
    requires
        default_security(security),
        default_bypass(bypass),
        arms(security, bypass, layer),
    ensures
        layer.rate_limiter is Some,
        layer.rrl is Some,
        layer.tunneling matches Some(t) && t.subdomain_rate == 50,
        layer.anti_bypass is None,
{
    assert(canonical_set(texts(bypass.extra_domains@)) =~= Set::empty());
}

} // verus!
