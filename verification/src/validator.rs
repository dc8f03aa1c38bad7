//! Semantic validation of local DNS records and rewrite rules: conflicts,
//! reserved targets, cycles and name syntax.
//!
//! Every check states the exact messages that it appends, in order.
use vstd::prelude::*;
use crate::cycle::{self, edge_texts, on_cycle};
use crate::domain::{
    self, canonical, canonicalize_domain, fqdn_syntax, is_public_suffix, is_reserved_tld,
    is_underscore_service_name, is_valid_fqdn_syntax, public_suffix, reserved_tld, underscore_name,
};
use crate::net::{self, private_v4, private_v6, reserved_v4, reserved_v6, v4_of, v4_text, v6_of, v6_text};
use crate::settings::{AuditWarnings, LocalDnsRecord, LocalDnsRecordType, RewriteRule};
use crate::text::{
    self, decimal, flag_text, list_contains, push_text, replace, replaced, strip_prefix, texts,
    to_decimal, to_flag_text, trim, trimmed, without_prefix,
};

verus! {

/// Duplicate `(domain, type)` within one scope.
pub const LOCAL_RECORDS_DUPLICATE: &'static str = "local_records: duplicate {kind} record for '{domain}' (match_subdomains={flag}). Each (domain, type) pair must appear at most once per profile.";

/// Invalid IPv4 target on an A record.
pub const LOCAL_RECORDS_INVALID_TARGET_A: &'static str = "local_records: '{value}' is not a valid IPv4 address (record '{domain}' type A).";

/// Invalid IPv6 target on an AAAA record.
pub const LOCAL_RECORDS_INVALID_TARGET_AAAA: &'static str = "local_records: '{value}' is not a valid IPv6 address (record '{domain}' type AAAA).";

/// A or AAAA target in a reserved, loopback or multicast range.
pub const LOCAL_RECORDS_RESERVED_TARGET_REFUSAL: &'static str = "local_records: target '{ip}' is in a reserved/loopback/multicast range — never legitimate for a redirect. (record '{domain}')";

/// A or AAAA target that is publicly routable: an audit warning.
pub const LOCAL_RECORDS_PUBLIC_TARGET_WARN: &'static str = "local_records: '{domain}' rewrites to a public IP '{ip}'. This is a deliberate operator-controlled redirect; review if unintended.";

/// A wildcard on a public suffix.
pub const LOCAL_RECORDS_SUBDOMAIN_TLD_REFUSAL: &'static str = "local_records: cannot enable match_subdomains on '{domain}' — that is a public suffix (TLD or eTLD+0). A wildcard at this level would rewrite the entire namespace.";

/// A wildcard with an empty domain.
pub const LOCAL_RECORDS_SUBDOMAIN_ROOT_REFUSAL: &'static str = "local_records: cannot enable match_subdomains with an empty domain (would match every query).";

/// `ttl_secs` outside `1..=86400`.
pub const LOCAL_RECORDS_TTL_OUT_OF_RANGE: &'static str = "local_records: ttl_secs={n} is out of range (allowed: 1..=86400). (record '{domain}')";

/// Record domain without valid syntax.
pub const LOCAL_RECORDS_INVALID_FQDN_DOMAIN: &'static str = "local_records: domain '{domain}' is not a valid FQDN (labels 1-63 chars, alphanumeric + hyphen, no leading/trailing hyphen).";

/// CNAME target without valid syntax.
pub const LOCAL_RECORDS_INVALID_FQDN_CNAME_TARGET: &'static str = "local_records: CNAME target '{value}' is not a valid FQDN (labels 1-63 chars, alphanumeric + hyphen, no leading/trailing hyphen). (record '{domain}')";

/// CNAME loop within one scope.
pub const LOCAL_RECORDS_CNAME_LOOP: &'static str = "local_records: CNAME loop — '{domain}' points to itself (directly or via the local-record chain).";

/// Duplicate `(from, match_subdomains)` pair.
pub const REWRITE_DUPLICATE: &'static str = "rewrite_rules: duplicate rule for '{from}' (match_subdomains={flag}). Each (from, match_subdomains) pair must appear at most once per profile.";

/// `from` without valid syntax.
pub const REWRITE_INVALID_FQDN_FROM: &'static str = "rewrite_rules: 'from' value '{from}' is not a valid FQDN (labels 1-63 chars, alphanumeric + hyphen, no leading/trailing hyphen).";

/// `to` without valid syntax.
pub const REWRITE_INVALID_FQDN_TO: &'static str = "rewrite_rules: 'to' value '{to}' is not a valid FQDN (labels 1-63 chars, alphanumeric + hyphen, no leading/trailing hyphen).";

/// A wildcard rewrite on a public suffix.
pub const REWRITE_SUBDOMAIN_TLD_REFUSAL: &'static str = "rewrite_rules: cannot enable match_subdomains on '{from}' — that is a public suffix (TLD or eTLD+0). A wildcard at this level would rewrite the entire namespace.";

/// Empty `from`.
pub const REWRITE_SUBDOMAIN_ROOT_REFUSAL: &'static str = "rewrite_rules: 'from' must not be empty (would match every query).";

/// `from` or `to` under a reserved top-level domain.
pub const REWRITE_RESERVED_DOMAIN_REFUSAL: &'static str = "rewrite_rules: '{domain}' is a reserved / special-use TLD per RFC 2606 / 6761 / 7686 ({side}). Refusing to rewrite — reserved names cannot participate.";

/// `from` equal to `to`.
pub const REWRITE_IDENTITY: &'static str = "rewrite_rules: 'from' and 'to' are identical ('{from}') — no-op rule. Either remove it or change one side.";

/// A cycle of rewrites.
pub const REWRITE_CYCLE: &'static str = "rewrite_rules: rewrite cycle detected — '{domain}' participates in a from→to chain that returns to itself (directly or via the rewrite-rule chain).";

/// A rewrite shadowed by a local record of the same scope: a warning.
pub const REWRITE_SHADOWED_BY_LOCAL_RECORD: &'static str = "rewrite_rules: '{from}' is also a [[local_records]] entry in the same scope — local DNS records take precedence; this rewrite will not fire for matching clients.";

/// A rewrite shadowed by a global local record: a warning.
pub const REWRITE_SHADOWED_BY_GLOBAL_RECORD: &'static str = "rewrite_rules: '{from}' is also a global [[local_dns.records]] entry — local DNS records take precedence; this rewrite will not fire for matching clients.";

/// A rewrite whose source is an underscore-prefixed service name: a warning.
pub const REWRITE_UNDERSCORE_SERVICE_NAME: &'static str = "rewrite_rules: '{from}' is an underscore-prefixed service name (RFC 8552). Names in that namespace carry policy and key material — mail authentication, certificate and service pinning, service discovery — rather than addresses, so redirecting one answers the lookup with a policy the zone's owner never published. Rewrite it only if you control both the source zone and the target.";

/// A preset shadowed by a local record: a warning.
pub const SAFESEARCH_PRESET_SHADOWED: &'static str = "safe_search: the injected preset for '{from}' is shadowed by a local DNS record — SafeSearch will not be enforced for that hostname on this profile.";

/// A cycle that only the injected presets close: a warning.
pub const SAFESEARCH_EFFECTIVE_CYCLE: &'static str = "safe_search: operator rewrite_rules plus the injected presets form a rewrite chain that returns to '{domain}'. Harmless at runtime (rewrites apply once per query), but review intent.";

// ── Message vocabulary ────────────────────────────────────────────────

/// One message where `cond` holds, none otherwise.
pub open spec fn only_if(cond: bool, msg: Seq<char>) -> Seq<Seq<char>> {
    if cond {
        seq![msg]
    } else {
        Seq::empty()
    }
}

/// The position tag `scope[i]`.
pub open spec fn position(scope: Seq<char>, i: nat) -> Seq<char> {
    scope + "["@ + decimal(i) + "]"@
}

/// `place: body`, with the family tag of the template removed from `body`.
pub open spec fn tagged(place: Seq<char>, body: Seq<char>, family: Seq<char>) -> Seq<char> {
    place + ": "@ + without_prefix(body, family)
}

pub open spec fn local_error(place: Seq<char>, body: Seq<char>) -> Seq<char> {
    tagged(place, body, "local_records: "@)
}

pub open spec fn rewrite_error(place: Seq<char>, body: Seq<char>) -> Seq<char> {
    tagged(place, body, "rewrite_rules: "@)
}

fn tag(place: &str, body: &str, family: &str) -> (r: String)
    ensures
        r@ == tagged(place@, body@, family@),
{
    let mut out = place.to_owned();
    out.append(": ");
    let rest = strip_prefix(body, family);
    out.append(&rest);
    out
}

fn at_position(scope: &str, i: usize) -> (r: String)
    ensures
        r@ == position(scope@, i as nat),
{
    let mut out = scope.to_owned();
    out.append("[");
    out.append(&to_decimal(i as u64));
    out.append("]");
    out
}

// ── Local records ─────────────────────────────────────────────────────

/// The messages about the domain, the wildcard flag and the TTL of a record.
pub open spec fn domain_errors(rec: LocalDnsRecord, place: Seq<char>) -> Seq<Seq<char>> {
    let shown = trimmed(rec.domain@);
    only_if(
        shown.len() == 0 && rec.match_subdomains,
        local_error(place, LOCAL_RECORDS_SUBDOMAIN_ROOT_REFUSAL@),
    ) + only_if(shown.len() == 0, place + ".domain: must not be empty"@) + only_if(
        shown.len() > 0 && !fqdn_syntax(shown),
        local_error(
            place + ".domain"@,
            replaced(LOCAL_RECORDS_INVALID_FQDN_DOMAIN@, "{domain}"@, shown),
        ),
    ) + only_if(
        rec.match_subdomains && public_suffix(canonical(rec.domain@)),
        local_error(place, replaced(LOCAL_RECORDS_SUBDOMAIN_TLD_REFUSAL@, "{domain}"@, shown)),
    ) + match rec.ttl_secs {
        Some(n) => only_if(
            !(1 <= n <= 86_400),
            local_error(
                place,
                replaced(
                    replaced(LOCAL_RECORDS_TTL_OUT_OF_RANGE@, "{n}"@, decimal(n as nat)),
                    "{domain}"@,
                    shown,
                ),
            ),
        ),
        None => Seq::empty(),
    }
}

pub open spec fn reserved_target(shown: Seq<char>, ip: Seq<char>) -> Seq<char> {
    replaced(
        replaced(LOCAL_RECORDS_RESERVED_TARGET_REFUSAL@, "{ip}"@, ip),
        "{domain}"@,
        shown,
    )
}

pub open spec fn public_target(shown: Seq<char>, ip: Seq<char>) -> Seq<char> {
    replaced(replaced(LOCAL_RECORDS_PUBLIC_TARGET_WARN@, "{domain}"@, shown), "{ip}"@, ip)
}

/// The messages about the value of a record.
pub open spec fn target_errors(rec: LocalDnsRecord, place: Seq<char>) -> Seq<Seq<char>> {
    let shown = trimmed(rec.domain@);
    let value = trimmed(rec.value@);
    match rec.record_type {
        LocalDnsRecordType::A => match v4_of(rec.value@) {
            Some(ip) => only_if(
                reserved_v4(ip),
                local_error(place, reserved_target(shown, v4_text(ip))),
            ),
            None => seq![
                local_error(
                    place,
                    replaced(
                        replaced(LOCAL_RECORDS_INVALID_TARGET_A@, "{value}"@, rec.value@),
                        "{domain}"@,
                        shown,
                    ),
                ),
            ],
        },
        LocalDnsRecordType::AAAA => match v6_of(rec.value@) {
            Some(ip) => only_if(
                reserved_v6(ip),
                local_error(place, reserved_target(shown, v6_text(ip))),
            ),
            None => seq![
                local_error(
                    place,
                    replaced(
                        replaced(LOCAL_RECORDS_INVALID_TARGET_AAAA@, "{value}"@, rec.value@),
                        "{domain}"@,
                        shown,
                    ),
                ),
            ],
        },
        LocalDnsRecordType::CNAME => if value.len() == 0 {
            seq![place + ".value: CNAME target must not be empty"@]
        } else {
            only_if(
                !fqdn_syntax(value),
                local_error(
                    place + ".value"@,
                    replaced(
                        replaced(LOCAL_RECORDS_INVALID_FQDN_CNAME_TARGET@, "{value}"@, value),
                        "{domain}"@,
                        shown,
                    ),
                ),
            )
        },
    }
}

/// The audit warnings about the value of a record: a public address.
pub open spec fn target_warnings(rec: LocalDnsRecord) -> Seq<Seq<char>> {
    let shown = trimmed(rec.domain@);
    match rec.record_type {
        LocalDnsRecordType::A => match v4_of(rec.value@) {
            Some(ip) => only_if(
                !reserved_v4(ip) && !private_v4(ip),
                public_target(shown, v4_text(ip)),
            ),
            None => Seq::empty(),
        },
        LocalDnsRecordType::AAAA => match v6_of(rec.value@) {
            Some(ip) => only_if(
                !reserved_v6(ip) && !private_v6(ip),
                public_target(shown, v6_text(ip)),
            ),
            None => Seq::empty(),
        },
        LocalDnsRecordType::CNAME => Seq::empty(),
    }
}

/// The distinct canonical names of the first `n` records of type `kind`, in
/// the order of their first appearance. An empty name does not count.
pub open spec fn names_seen(
    records: Seq<LocalDnsRecord>,
    n: nat,
    kind: LocalDnsRecordType,
) -> Seq<Seq<char>>
    decreases n,
{
    if n == 0 {
        Seq::empty()
    } else {
        let before = names_seen(records, (n - 1) as nat, kind);
        let rec = records[n - 1];
        let name = canonical(rec.domain@);
        if rec.record_type == kind && name.len() > 0 && !before.contains(name) {
            before.push(name)
        } else {
            before
        }
    }
}

pub open spec fn kind_text(kind: LocalDnsRecordType) -> Seq<char> {
    match kind {
        LocalDnsRecordType::A => "A"@,
        LocalDnsRecordType::AAAA => "AAAA"@,
        LocalDnsRecordType::CNAME => "CNAME"@,
    }
}

/// The message about a record whose name and type appeared before.
pub open spec fn duplicate_errors(
    records: Seq<LocalDnsRecord>,
    i: nat,
    place: Seq<char>,
) -> Seq<Seq<char>> {
    let rec = records[i as int];
    let name = canonical(rec.domain@);
    only_if(
        name.len() > 0 && names_seen(records, i, rec.record_type).contains(name),
        local_error(
            place + ".domain"@,
            replaced(
                replaced(
                    replaced(LOCAL_RECORDS_DUPLICATE@, "{kind}"@, kind_text(rec.record_type)),
                    "{domain}"@,
                    trimmed(rec.domain@),
                ),
                "{flag}"@,
                flag_text(rec.match_subdomains),
            ),
        ),
    )
}

/// All messages about the record at position `i`.
pub open spec fn errors_at(
    records: Seq<LocalDnsRecord>,
    i: nat,
    scope: Seq<char>,
) -> Seq<Seq<char>> {
    let place = position(scope, i);
    domain_errors(records[i as int], place) + target_errors(records[i as int], place)
        + duplicate_errors(records, i, place)
}

/// All messages about the first `n` records.
pub open spec fn record_errors(
    records: Seq<LocalDnsRecord>,
    scope: Seq<char>,
    n: nat,
) -> Seq<Seq<char>>
    decreases n,
{
    if n == 0 {
        Seq::empty()
    } else {
        let i = (n - 1) as nat;
        record_errors(records, scope, i) + errors_at(records, i, scope)
    }
}

/// All audit warnings about the first `n` records.
pub open spec fn record_warnings(records: Seq<LocalDnsRecord>, n: nat) -> Seq<Seq<char>>
    decreases n,
{
    if n == 0 {
        Seq::empty()
    } else {
        record_warnings(records, (n - 1) as nat) + target_warnings(records[n - 1])
    }
}

pub open spec fn conflict_with(scope: Seq<char>, name: Seq<char>, kind: Seq<char>) -> Seq<char> {
    scope + ": \""@ + name + "\" has both "@ + kind
        + " record and a CNAME — RFC 1034 forbids CNAME alongside other record types"@
}

/// The messages about names that hold a CNAME beside an address record.
pub open spec fn conflict_errors(
    scope: Seq<char>,
    cnames: Seq<Seq<char>>,
    v4: Seq<Seq<char>>,
    v6: Seq<Seq<char>>,
) -> Seq<Seq<char>>
    decreases cnames.len(),
{
    if cnames.len() == 0 {
        Seq::empty()
    } else {
        let name = cnames.last();
        conflict_errors(scope, cnames.drop_last(), v4, v6) + only_if(
            v4.contains(name),
            conflict_with(scope, name, "an A"@),
        ) + only_if(v6.contains(name), conflict_with(scope, name, "an AAAA"@))
    }
}

/// The renaming rules that the CNAME records induce.
pub open spec fn cname_edges(records: Seq<LocalDnsRecord>) -> Seq<(Seq<char>, Seq<char>)>
    decreases records.len(),
{
    if records.len() == 0 {
        Seq::empty()
    } else {
        let rest = cname_edges(records.drop_last());
        let rec = records.last();
        let edge = (canonical(rec.domain@), canonical(rec.value@));
        if rec.record_type == LocalDnsRecordType::CNAME && edge.0.len() > 0 && edge.1.len() > 0 {
            rest.push(edge)
        } else {
            rest
        }
    }
}

pub open spec fn cname_loop(scope: Seq<char>, name: Seq<char>) -> Seq<char> {
    local_error(scope, replaced(LOCAL_RECORDS_CNAME_LOOP@, "{domain}"@, name))
}

/// A name on a cycle of the CNAME records, if there is one.
pub fn find_cname_cycle(records: &[LocalDnsRecord]) -> (r: Option<String>)
    ensures
        match r {
            Some(name) => on_cycle(cname_edges(records@), name@),
            None => forall|name: Seq<char>| !on_cycle(cname_edges(records@), name),
        },
{
    let mut edges: Vec<(String, String)> = Vec::new();
    let mut i: usize = 0;
    proof {
        assert(edge_texts(edges@) =~= cname_edges(records@.take(0)));
    }
    while i < records.len()
        invariant
            i <= records.len(),
            edge_texts(edges@) == cname_edges(records@.take(i as int)),
        decreases records.len() - i,
    {
        let rec = &records[i];
        proof {
            assert(records@.take(i + 1).drop_last() =~= records@.take(i as int));
            assert(records@.take(i + 1).last() == *rec);
        }
        if rec.record_type == LocalDnsRecordType::CNAME {
            let from = canonicalize_domain(&rec.domain);
            let to = canonicalize_domain(&rec.value);
            if !from.as_str().is_empty() && !to.as_str().is_empty() {
                let ghost e0 = edges@;
                let ghost pair = (from@, to@);
                edges.push((from, to));
                proof {
                    assert(edge_texts(edges@) =~= edge_texts(e0).push(pair));
                }
            }
        }
        i += 1;
    }
    proof {
        assert(records@.take(records@.len() as int) =~= records@);
    }
    cycle::find_cycle(&edges)
}

fn check_domain(rec: &LocalDnsRecord, place: &str, errors: &mut Vec<String>)
    ensures
        texts(final(errors)@) == texts(old(errors)@) + domain_errors(*rec, place@),
{
    let ghost start = texts(errors@);
    let shown = trim(&rec.domain);
    let name = canonicalize_domain(&rec.domain);
    let ghost mut said = Seq::<Seq<char>>::empty();
    proof {
        assert(texts(errors@) =~= start + said);
    }
    if shown.as_str().is_empty() && rec.match_subdomains {
        push_text(errors, tag(place, LOCAL_RECORDS_SUBDOMAIN_ROOT_REFUSAL, "local_records: "));
    }
    proof {
        said = said + only_if(
            shown@.len() == 0 && rec.match_subdomains,
            local_error(place@, LOCAL_RECORDS_SUBDOMAIN_ROOT_REFUSAL@),
        );
        assert(texts(errors@) =~= start + said);
    }
    if shown.as_str().is_empty() {
        push_text(errors, text::joined(place, ".domain: must not be empty"));
    }
    proof {
        said = said + only_if(shown@.len() == 0, place@ + ".domain: must not be empty"@);
        assert(texts(errors@) =~= start + said);
    }
    if !shown.as_str().is_empty() && !is_valid_fqdn_syntax(&shown) {
        let body = replace(LOCAL_RECORDS_INVALID_FQDN_DOMAIN, "{domain}", &shown);
        push_text(errors, tag(&text::joined(place, ".domain"), &body, "local_records: "));
    }
    proof {
        said = said + only_if(
            shown@.len() > 0 && !fqdn_syntax(shown@),
            local_error(
                place@ + ".domain"@,
                replaced(LOCAL_RECORDS_INVALID_FQDN_DOMAIN@, "{domain}"@, shown@),
            ),
        );
        assert(texts(errors@) =~= start + said);
    }
    if rec.match_subdomains && is_public_suffix(&name) {
        let body = replace(LOCAL_RECORDS_SUBDOMAIN_TLD_REFUSAL, "{domain}", &shown);
        push_text(errors, tag(place, &body, "local_records: "));
    }
    proof {
        said = said + only_if(
            rec.match_subdomains && public_suffix(name@),
            local_error(
                place@,
                replaced(LOCAL_RECORDS_SUBDOMAIN_TLD_REFUSAL@, "{domain}"@, shown@),
            ),
        );
        assert(texts(errors@) =~= start + said);
    }
    match rec.ttl_secs {
        Some(n) => {
            if n < 1 || n > 86_400 {
                let counted = replace(LOCAL_RECORDS_TTL_OUT_OF_RANGE, "{n}", &to_decimal(n as u64));
                let body = replace(&counted, "{domain}", &shown);
                push_text(errors, tag(place, &body, "local_records: "));
            }
        },
        None => {},
    }
    proof {
        assert(texts(errors@) =~= start + domain_errors(*rec, place@));
    }
}

fn reserved_message(place: &str, shown: &str, ip: &str) -> (r: String)
    ensures
        r@ == local_error(place@, reserved_target(shown@, ip@)),
{
    let with_ip = replace(LOCAL_RECORDS_RESERVED_TARGET_REFUSAL, "{ip}", ip);
    let body = replace(&with_ip, "{domain}", shown);
    tag(place, &body, "local_records: ")
}

fn public_message(shown: &str, ip: &str) -> (r: String)
    ensures
        r@ == public_target(shown@, ip@),
{
    let with_domain = replace(LOCAL_RECORDS_PUBLIC_TARGET_WARN, "{domain}", shown);
    replace(&with_domain, "{ip}", ip)
}

fn invalid_message(template: &str, place: &str, value: &str, shown: &str) -> (r: String)
    ensures
        r@ == local_error(
            place@,
            replaced(replaced(template@, "{value}"@, value@), "{domain}"@, shown@),
        ),
{
    let with_value = replace(template, "{value}", value);
    let body = replace(&with_value, "{domain}", shown);
    tag(place, &body, "local_records: ")
}

fn check_target(
    rec: &LocalDnsRecord,
    place: &str,
    errors: &mut Vec<String>,
    warnings: &mut Vec<String>,
)
    ensures
        texts(final(errors)@) == texts(old(errors)@) + target_errors(*rec, place@),
        texts(final(warnings)@) == texts(old(warnings)@) + target_warnings(*rec),
{
    let ghost e0 = texts(errors@);
    let ghost w0 = texts(warnings@);
    let shown = trim(&rec.domain);
    match rec.record_type {
        LocalDnsRecordType::A => match net::parse_v4(&rec.value) {
            Some(ip) => {
                if net::is_reserved_v4(&ip) {
                    push_text(errors, reserved_message(place, &shown, &net::v4_to_text(&ip)));
                } else if !net::is_private_v4(&ip) {
                    push_text(warnings, public_message(&shown, &net::v4_to_text(&ip)));
                }
            },
            None => {
                push_text(
                    errors,
                    invalid_message(LOCAL_RECORDS_INVALID_TARGET_A, place, &rec.value, &shown),
                );
            },
        },
        LocalDnsRecordType::AAAA => match net::parse_v6(&rec.value) {
            Some(ip) => {
                if net::is_reserved_v6(&ip) {
                    push_text(errors, reserved_message(place, &shown, &net::v6_to_text(&ip)));
                } else if !net::is_private_v6(&ip) {
                    push_text(warnings, public_message(&shown, &net::v6_to_text(&ip)));
                }
            },
            None => {
                push_text(
                    errors,
                    invalid_message(LOCAL_RECORDS_INVALID_TARGET_AAAA, place, &rec.value, &shown),
                );
            },
        },
        LocalDnsRecordType::CNAME => {
            let value = trim(&rec.value);
            if value.as_str().is_empty() {
                push_text(errors, text::joined(place, ".value: CNAME target must not be empty"));
            } else if !is_valid_fqdn_syntax(&value) {
                push_text(
                    errors,
                    invalid_message(
                        LOCAL_RECORDS_INVALID_FQDN_CNAME_TARGET,
                        &text::joined(place, ".value"),
                        &value,
                        &shown,
                    ),
                );
            }
        },
    }
    proof {
        assert(texts(errors@) =~= e0 + target_errors(*rec, place@));
        assert(texts(warnings@) =~= w0 + target_warnings(*rec));
    }
}

fn check_duplicate(
    records: &[LocalDnsRecord],
    i: usize,
    place: &str,
    seen: &mut Vec<String>,
    errors: &mut Vec<String>,
)
    requires
        i < records.len(),
        texts(old(seen)@) == names_seen(records@, i as nat, records@[i as int].record_type),
    ensures
        texts(final(seen)@) == names_seen(records@, i as nat + 1, records@[i as int].record_type),
        texts(final(errors)@) == texts(old(errors)@) + duplicate_errors(records@, i as nat, place@),
{
    let ghost e0 = texts(errors@);
    let rec = &records[i];
    let name = canonicalize_domain(&rec.domain);
    if !name.as_str().is_empty() {
        if list_contains(seen, &name) {
            let kind = match rec.record_type {
                LocalDnsRecordType::A => "A",
                LocalDnsRecordType::AAAA => "AAAA",
                LocalDnsRecordType::CNAME => "CNAME",
            };
            let with_kind = replace(LOCAL_RECORDS_DUPLICATE, "{kind}", kind);
            let with_domain = replace(&with_kind, "{domain}", &trim(&rec.domain));
            let body = replace(&with_domain, "{flag}", &to_flag_text(rec.match_subdomains));
            push_text(errors, tag(&text::joined(place, ".domain"), &body, "local_records: "));
        } else {
            push_text(seen, name);
        }
    }
    proof {
        assert(texts(errors@) =~= e0 + duplicate_errors(records@, i as nat, place@));
    }
}

fn conflict_message(scope: &str, name: &str, kind: &str) -> (r: String)
    ensures
        r@ == conflict_with(scope@, name@, kind@),
{
    let mut out = scope.to_owned();
    out.append(": \"");
    out.append(name);
    out.append("\" has both ");
    out.append(kind);
    out.append(" record and a CNAME — RFC 1034 forbids CNAME alongside other record types");
    out
}

fn check_conflicts(
    scope: &str,
    cnames: &Vec<String>,
    v4: &Vec<String>,
    v6: &Vec<String>,
    errors: &mut Vec<String>,
)
    ensures
        texts(final(errors)@) == texts(old(errors)@) + conflict_errors(
            scope@,
            texts(cnames@),
            texts(v4@),
            texts(v6@),
        ),
{
    let ghost e0 = texts(errors@);
    let ghost all = texts(cnames@);
    let mut i: usize = 0;
    proof {
        assert(e0 + conflict_errors(scope@, all.take(0), texts(v4@), texts(v6@)) =~= e0);
    }
    while i < cnames.len()
        invariant
            i <= cnames.len(),
            all == texts(cnames@),
            texts(errors@) == e0 + conflict_errors(
                scope@,
                all.take(i as int),
                texts(v4@),
                texts(v6@),
            ),
        decreases cnames.len() - i,
    {
        let ghost e1 = texts(errors@);
        let name = &cnames[i];
        proof {
            assert(all.take(i + 1).drop_last() =~= all.take(i as int));
            assert(all.take(i + 1).last() == name@);
        }
        if list_contains(v4, name) {
            push_text(errors, conflict_message(scope, name, "an A"));
        }
        if list_contains(v6, name) {
            push_text(errors, conflict_message(scope, name, "an AAAA"));
        }
        i += 1;
        proof {
            assert(texts(errors@) =~= e0 + conflict_errors(
                scope@,
                all.take(i as int),
                texts(v4@),
                texts(v6@),
            ));
        }
    }
    proof {
        assert(all.take(all.len() as int) =~= all);
    }
}

proof fn lemma_append_three<T>(a: Seq<T>, b: Seq<T>, c: Seq<T>, d: Seq<T>)
    ensures
        a + b + c + d == a + (b + c + d),
{
    assert(a + b + c + d =~= a + (b + c + d));
}

proof fn lemma_append_two<T>(a: Seq<T>, b: Seq<T>, c: Seq<T>)
    ensures
        a + b + c == a + (b + c),
{
    assert(a + b + c =~= a + (b + c));
}

/// The names seen so far, one list for each record type.
struct Seen {
    a: Vec<String>,
    aaaa: Vec<String>,
    cname: Vec<String>,
}

impl Seen {
    spec fn covers(self, records: Seq<LocalDnsRecord>, n: nat) -> bool {
        &&& texts(self.a@) == names_seen(records, n, LocalDnsRecordType::A)
        &&& texts(self.aaaa@) == names_seen(records, n, LocalDnsRecordType::AAAA)
        &&& texts(self.cname@) == names_seen(records, n, LocalDnsRecordType::CNAME)
    }
}

fn check_record(
    records: &[LocalDnsRecord],
    i: usize,
    scope_label: &str,
    seen: &mut Seen,
    errors: &mut Vec<String>,
    warnings: &mut Vec<String>,
)
    requires
        i < records.len(),
        old(seen).covers(records@, i as nat),
    ensures
        final(seen).covers(records@, i as nat + 1),
        texts(final(errors)@) == texts(old(errors)@) + errors_at(
            records@,
            i as nat,
            scope_label@,
        ),
        texts(final(warnings)@) == texts(old(warnings)@) + target_warnings(records@[i as int]),
{
    let rec = &records[i];
    let place = at_position(scope_label, i);
    proof {
        lemma_append_three(
            texts(errors@),
            domain_errors(*rec, place@),
            target_errors(*rec, place@),
            duplicate_errors(records@, i as nat, place@),
        );
    }
    check_domain(rec, &place, errors);
    check_target(rec, &place, errors, warnings);
    match rec.record_type {
        LocalDnsRecordType::A => check_duplicate(records, i, &place, &mut seen.a, errors),
        LocalDnsRecordType::AAAA => check_duplicate(records, i, &place, &mut seen.aaaa, errors),
        LocalDnsRecordType::CNAME => check_duplicate(records, i, &place, &mut seen.cname, errors),
    }
}

/// What the validation of a list of local records appends to the errors:
/// the messages about each record in order, then those about names that
/// hold a CNAME beside an address, then the CNAME loop if there is one.
pub open spec fn local_records_report(
    records: Seq<LocalDnsRecord>,
    scope: Seq<char>,
    before: Seq<Seq<char>>,
    after: Seq<Seq<char>>,
) -> bool {
    let n = records.len();
    let edges = cname_edges(records);
    let most = before + record_errors(records, scope, n) + conflict_errors(
        scope,
        names_seen(records, n, LocalDnsRecordType::CNAME),
        names_seen(records, n, LocalDnsRecordType::A),
        names_seen(records, n, LocalDnsRecordType::AAAA),
    );
    ||| after == most && forall|name: Seq<char>| !#[trigger] on_cycle(edges, name)
    ||| exists|name: Seq<char>| #[trigger]
        on_cycle(edges, name) && after == most.push(cname_loop(scope, name))
}

/// Validates the local records of one scope, and gathers the audit warnings
/// about publicly routable targets.
pub fn validate_local_records_v2_collect(
    records: &[LocalDnsRecord],
    scope_label: &str,
    errors: &mut Vec<String>,
    warns: &mut AuditWarnings,
)
    ensures
        local_records_report(records@, scope_label@, texts(old(errors)@), texts(final(errors)@)),
        texts(final(warns).messages@) == texts(old(warns).messages@) + record_warnings(
            records@,
            records@.len(),
        ),
        final(warns).emit == old(warns).emit,
{
    let ghost e0 = texts(errors@);
    let ghost w0 = texts(warns.messages@);
    let ghost scope = scope_label@;
    let mut seen = Seen { a: Vec::new(), aaaa: Vec::new(), cname: Vec::new() };
    let mut i: usize = 0;
    proof {
        assert(texts(seen.a@) =~= Seq::<Seq<char>>::empty());
        assert(texts(seen.aaaa@) =~= Seq::<Seq<char>>::empty());
        assert(texts(seen.cname@) =~= Seq::<Seq<char>>::empty());
        assert(e0 + record_errors(records@, scope, 0) =~= e0);
        assert(w0 + record_warnings(records@, 0) =~= w0);
    }
    while i < records.len()
        invariant
            i <= records.len(),
            scope == scope_label@,
            seen.covers(records@, i as nat),
            texts(errors@) == e0 + record_errors(records@, scope, i as nat),
            texts(warns.messages@) == w0 + record_warnings(records@, i as nat),
            warns.emit == old(warns).emit,
        decreases records.len() - i,
    {
        proof {
            lemma_append_two(
                e0,
                record_errors(records@, scope, i as nat),
                errors_at(records@, i as nat, scope),
            );
            lemma_append_two(
                w0,
                record_warnings(records@, i as nat),
                target_warnings(records@[i as int]),
            );
        }
        check_record(records, i, scope_label, &mut seen, errors, &mut warns.messages);
        i += 1;
    }
    check_conflicts(scope_label, &seen.cname, &seen.a, &seen.aaaa, errors);
    match find_cname_cycle(records) {
        Some(name) => {
            let body = replace(LOCAL_RECORDS_CNAME_LOOP, "{domain}", &name);
            push_text(errors, tag(scope_label, &body, "local_records: "));
            proof {
                assert(on_cycle(cname_edges(records@), name@));
            }
        },
        None => {},
    }
}

/// Validates the local records of one scope. The audit warnings that are to
/// be logged are returned.
pub fn validate_local_records_v2(
    records: &[LocalDnsRecord],
    scope_label: &str,
    errors: &mut Vec<String>,
) -> (warns: AuditWarnings)
    ensures
        local_records_report(records@, scope_label@, texts(old(errors)@), texts(final(errors)@)),
        texts(warns.messages@) == record_warnings(records@, records@.len()),
        warns.emit,
{
    let mut warns = AuditWarnings::emitting();
    validate_local_records_v2_collect(records, scope_label, errors, &mut warns);
    proof {
        assert(Seq::<Seq<char>>::empty() + record_warnings(records@, records@.len())
            =~= record_warnings(records@, records@.len()));
    }
    warns
}

// ── Rewrite rules ─────────────────────────────────────────────────────

/// Whether an earlier rule has the same canonical source and the same flag.
pub open spec fn repeats_rule(rules: Seq<RewriteRule>, i: nat) -> bool {
    let name = canonical(rules[i as int].from@);
    &&& name.len() > 0
    &&& exists|j: int|
        0 <= j < i && canonical((#[trigger] rules[j]).from@) == name && rules[j].match_subdomains
            == rules[i as int].match_subdomains
}

/// Whether some record has the canonical name `name`.
pub open spec fn has_record(records: Seq<LocalDnsRecord>, name: Seq<char>) -> bool {
    exists|j: int| 0 <= j < records.len() && canonical((#[trigger] records[j]).domain@) == name
}

pub open spec fn reserved_side(shown: Seq<char>, side: Seq<char>) -> Seq<char> {
    replaced(
        replaced(REWRITE_RESERVED_DOMAIN_REFUSAL@, "{domain}"@, shown),
        "{side}"@,
        side,
    )
}

/// The messages about the syntax and the reach of the rule at position `i`.
pub open spec fn rule_name_errors(rule: RewriteRule, place: Seq<char>) -> Seq<Seq<char>> {
    let from = trimmed(rule.from@);
    let to = trimmed(rule.to@);
    only_if(
        !fqdn_syntax(from),
        rewrite_error(place + ".from"@, replaced(REWRITE_INVALID_FQDN_FROM@, "{from}"@, from)),
    ) + only_if(
        !fqdn_syntax(to),
        rewrite_error(place + ".to"@, replaced(REWRITE_INVALID_FQDN_TO@, "{to}"@, to)),
    ) + only_if(
        rule.match_subdomains && public_suffix(canonical(rule.from@)),
        rewrite_error(place, replaced(REWRITE_SUBDOMAIN_TLD_REFUSAL@, "{from}"@, from)),
    ) + only_if(
        reserved_tld(canonical(rule.from@)),
        rewrite_error(place + ".from"@, reserved_side(from, "from"@)),
    ) + only_if(
        reserved_tld(canonical(rule.to@)),
        rewrite_error(place + ".to"@, reserved_side(to, "to"@)),
    )
}

/// The messages about the rule at position `i` as a member of its list.
pub open spec fn rule_list_errors(
    rules: Seq<RewriteRule>,
    i: nat,
    place: Seq<char>,
) -> Seq<Seq<char>> {
    let rule = rules[i as int];
    let from = trimmed(rule.from@);
    let name = canonical(rule.from@);
    only_if(
        name.len() > 0 && name == canonical(rule.to@),
        rewrite_error(place, replaced(REWRITE_IDENTITY@, "{from}"@, from)),
    ) + only_if(
        repeats_rule(rules, i),
        rewrite_error(
            place,
            replaced(
                replaced(REWRITE_DUPLICATE@, "{from}"@, from),
                "{flag}"@,
                flag_text(rule.match_subdomains),
            ),
        ),
    )
}

/// All messages about the rule at position `i`. A rule without a source is
/// refused for that alone.
pub open spec fn rule_errors_at(
    rules: Seq<RewriteRule>,
    i: nat,
    scope: Seq<char>,
) -> Seq<Seq<char>> {
    let place = position(scope, i);
    if trimmed(rules[i as int].from@).len() == 0 {
        seq![rewrite_error(place, REWRITE_SUBDOMAIN_ROOT_REFUSAL@)]
    } else {
        rule_name_errors(rules[i as int], place) + rule_list_errors(rules, i, place)
    }
}

pub open spec fn rule_errors(rules: Seq<RewriteRule>, scope: Seq<char>, n: nat) -> Seq<Seq<char>>
    decreases n,
{
    if n == 0 {
        Seq::empty()
    } else {
        rule_errors(rules, scope, (n - 1) as nat) + rule_errors_at(rules, (n - 1) as nat, scope)
    }
}

/// The audit warnings about one rule: a service name, or a source that a
/// local record of the profile or of the global table answers first.
pub open spec fn rule_warnings_of(
    rule: RewriteRule,
    local_records: Seq<LocalDnsRecord>,
    global_records: Seq<LocalDnsRecord>,
) -> Seq<Seq<char>> {
    let from = trimmed(rule.from@);
    let name = canonical(rule.from@);
    only_if(
        name.len() > 0 && underscore_name(name),
        replaced(REWRITE_UNDERSCORE_SERVICE_NAME@, "{from}"@, from),
    ) + only_if(
        name.len() > 0 && has_record(local_records, name),
        replaced(REWRITE_SHADOWED_BY_LOCAL_RECORD@, "{from}"@, from),
    ) + only_if(
        name.len() > 0 && has_record(global_records, name),
        replaced(REWRITE_SHADOWED_BY_GLOBAL_RECORD@, "{from}"@, from),
    )
}

pub open spec fn rule_warnings(
    rules: Seq<RewriteRule>,
    local_records: Seq<LocalDnsRecord>,
    global_records: Seq<LocalDnsRecord>,
    n: nat,
) -> Seq<Seq<char>>
    decreases n,
{
    if n == 0 {
        Seq::empty()
    } else {
        rule_warnings(rules, local_records, global_records, (n - 1) as nat) + rule_warnings_of(
            rules[n - 1],
            local_records,
            global_records,
        )
    }
}

/// The renaming rules that exact-match rewrites induce. Wildcard rewrites
/// take no part: a rewrite applies once per query.
pub open spec fn rewrite_edges(rules: Seq<RewriteRule>) -> Seq<(Seq<char>, Seq<char>)>
    decreases rules.len(),
{
    if rules.len() == 0 {
        Seq::empty()
    } else {
        let rest = rewrite_edges(rules.drop_last());
        let rule = rules.last();
        let edge = (canonical(rule.from@), canonical(rule.to@));
        if !rule.match_subdomains && edge.0.len() > 0 && edge.1.len() > 0 {
            rest.push(edge)
        } else {
            rest
        }
    }
}

pub open spec fn rewrite_cycle_error(scope: Seq<char>, name: Seq<char>) -> Seq<char> {
    rewrite_error(scope, replaced(REWRITE_CYCLE@, "{domain}"@, name))
}

/// What the validation of a list of rewrite rules appends to the errors:
/// the messages about each rule in order, then the cycle if there is one.
pub open spec fn rewrite_rules_report(
    rules: Seq<RewriteRule>,
    scope: Seq<char>,
    before: Seq<Seq<char>>,
    after: Seq<Seq<char>>,
) -> bool {
    let edges = rewrite_edges(rules);
    let most = before + rule_errors(rules, scope, rules.len());
    ||| after == most && forall|name: Seq<char>| !#[trigger] on_cycle(edges, name)
    ||| exists|name: Seq<char>| #[trigger]
        on_cycle(edges, name) && after == most.push(rewrite_cycle_error(scope, name))
}

/// A name on a cycle of the exact-match rewrites, if there is one.
pub fn find_rewrite_cycle(rules: &[RewriteRule]) -> (r: Option<String>)
    ensures
        match r {
            Some(name) => on_cycle(rewrite_edges(rules@), name@),
            None => forall|name: Seq<char>| !on_cycle(rewrite_edges(rules@), name),
        },
{
    let none: Vec<RewriteRule> = Vec::new();
    proof {
        assert(rules@ + none@ =~= rules@);
    }
    find_joint_cycle(rules, none.as_slice())
}

fn push_edge(edges: &mut Vec<(String, String)>, rule: &RewriteRule)
    ensures
        edge_texts(final(edges)@) == (if !rule.match_subdomains && canonical(rule.from@).len() > 0
            && canonical(rule.to@).len() > 0 {
            edge_texts(old(edges)@).push((canonical(rule.from@), canonical(rule.to@)))
        } else {
            edge_texts(old(edges)@)
        }),
{
    if !rule.match_subdomains {
        let from = canonicalize_domain(&rule.from);
        let to = canonicalize_domain(&rule.to);
        if !from.as_str().is_empty() && !to.as_str().is_empty() {
            let ghost pair = (from@, to@);
            edges.push((from, to));
            proof {
                assert(edge_texts(edges@) =~= edge_texts(old(edges)@).push(pair));
            }
        }
    }
}

/// A name on a cycle of two lists of rewrites taken together.
fn find_joint_cycle(rules: &[RewriteRule], more: &[RewriteRule]) -> (r: Option<String>)
    ensures
        match r {
            Some(name) => on_cycle(rewrite_edges(rules@ + more@), name@),
            None => forall|name: Seq<char>| !on_cycle(rewrite_edges(rules@ + more@), name),
        },
{
    let ghost all = rules@ + more@;
    let mut edges: Vec<(String, String)> = Vec::new();
    let mut i: usize = 0;
    proof {
        assert(edge_texts(edges@) =~= rewrite_edges(all.take(0)));
    }
    while i < rules.len()
        invariant
            i <= rules.len(),
            all == rules@ + more@,
            edge_texts(edges@) == rewrite_edges(all.take(i as int)),
        decreases rules.len() - i,
    {
        proof {
            assert(all.take(i + 1).drop_last() =~= all.take(i as int));
            assert(all.take(i + 1).last() == rules@[i as int]);
        }
        push_edge(&mut edges, &rules[i]);
        i += 1;
    }
    let mut k: usize = 0;
    while k < more.len()
        invariant
            k <= more.len(),
            all == rules@ + more@,
            edge_texts(edges@) == rewrite_edges(all.take(rules@.len() + k)),
        decreases more.len() - k,
    {
        proof {
            let m = rules@.len() + k;
            assert(all.take(m + 1).drop_last() =~= all.take(m));
            assert(all.take(m + 1).last() == more@[k as int]);
        }
        push_edge(&mut edges, &more[k]);
        k += 1;
    }
    proof {
        assert(all.take(all.len() as int) =~= all);
    }
    cycle::find_cycle(&edges)
}

/// The canonical names of a list of records.
pub open spec fn record_names(records: Seq<LocalDnsRecord>) -> Seq<Seq<char>> {
    records.map_values(|r: LocalDnsRecord| canonical(r.domain@))
}

proof fn lemma_record_names(records: Seq<LocalDnsRecord>, name: Seq<char>)
    ensures
        record_names(records).contains(name) == has_record(records, name),
{
    if has_record(records, name) {
        let j = choose|j: int|
            0 <= j < records.len() && canonical((#[trigger] records[j]).domain@) == name;
        assert(record_names(records)[j] == name);
    }
    if record_names(records).contains(name) {
        let j = record_names(records).index_of(name);
        assert(canonical(records[j].domain@) == name);
    }
}

fn names_of(records: &[LocalDnsRecord]) -> (r: Vec<String>)
    ensures
        texts(r@) == record_names(records@),
{
    let mut out: Vec<String> = Vec::new();
    let mut i: usize = 0;
    proof {
        assert(texts(out@) =~= record_names(records@).take(0));
    }
    while i < records.len()
        invariant
            i <= records.len(),
            texts(out@) == record_names(records@).take(i as int),
        decreases records.len() - i,
    {
        push_text(&mut out, canonicalize_domain(&records[i].domain));
        proof {
            assert(record_names(records@).take(i + 1) =~= record_names(records@).take(
                i as int,
            ).push(record_names(records@)[i as int]));
        }
        i += 1;
    }
    proof {
        assert(record_names(records@).take(records@.len() as int) =~= record_names(records@));
    }
    out
}

fn check_rule_names(rule: &RewriteRule, place: &str, errors: &mut Vec<String>)
    ensures
        texts(final(errors)@) == texts(old(errors)@) + rule_name_errors(*rule, place@),
{
    let ghost e0 = texts(errors@);
    let from = trim(&rule.from);
    let to = trim(&rule.to);
    let name = canonicalize_domain(&rule.from);
    let target = canonicalize_domain(&rule.to);
    if !is_valid_fqdn_syntax(&from) {
        let body = replace(REWRITE_INVALID_FQDN_FROM, "{from}", &from);
        push_text(errors, tag(&text::joined(place, ".from"), &body, "rewrite_rules: "));
    }
    if !is_valid_fqdn_syntax(&to) {
        let body = replace(REWRITE_INVALID_FQDN_TO, "{to}", &to);
        push_text(errors, tag(&text::joined(place, ".to"), &body, "rewrite_rules: "));
    }
    if rule.match_subdomains && is_public_suffix(&name) {
        let body = replace(REWRITE_SUBDOMAIN_TLD_REFUSAL, "{from}", &from);
        push_text(errors, tag(place, &body, "rewrite_rules: "));
    }
    if is_reserved_tld(&name) {
        let shown = replace(REWRITE_RESERVED_DOMAIN_REFUSAL, "{domain}", &from);
        let body = replace(&shown, "{side}", "from");
        push_text(errors, tag(&text::joined(place, ".from"), &body, "rewrite_rules: "));
    }
    if is_reserved_tld(&target) {
        let shown = replace(REWRITE_RESERVED_DOMAIN_REFUSAL, "{domain}", &to);
        let body = replace(&shown, "{side}", "to");
        push_text(errors, tag(&text::joined(place, ".to"), &body, "rewrite_rules: "));
    }
    proof {
        assert(texts(errors@) =~= e0 + rule_name_errors(*rule, place@));
    }
}

fn check_rule_in_list(
    rules: &[RewriteRule],
    i: usize,
    names: &Vec<String>,
    place: &str,
    errors: &mut Vec<String>,
)
    requires
        i < rules.len(),
        names.len() == i,
        forall|j: int| 0 <= j < i ==> (#[trigger] names@[j])@ == canonical(rules@[j].from@),
    ensures
        texts(final(errors)@) == texts(old(errors)@) + rule_list_errors(rules@, i as nat, place@),
{
    let ghost e0 = texts(errors@);
    let rule = &rules[i];
    let from = trim(&rule.from);
    let name = canonicalize_domain(&rule.from);
    let target = canonicalize_domain(&rule.to);
    if !name.as_str().is_empty() && text::same_text(&name, &target) {
        let body = replace(REWRITE_IDENTITY, "{from}", &from);
        push_text(errors, tag(place, &body, "rewrite_rules: "));
    }
    let mut repeated = false;
    let mut j: usize = 0;
    while j < i && !repeated
        invariant
            j <= i < rules.len(),
            names.len() == i,
            *rule == rules@[i as int],
            name@ == canonical(rule.from@),
            forall|k: int| 0 <= k < i ==> (#[trigger] names@[k])@ == canonical(rules@[k].from@),
            repeated ==> exists|k: int|
                0 <= k < i && canonical((#[trigger] rules@[k]).from@) == name@
                    && rules@[k].match_subdomains == rule.match_subdomains,
            !repeated ==> forall|k: int|
                0 <= k < j ==> !(canonical((#[trigger] rules@[k]).from@) == name@
                    && rules@[k].match_subdomains == rule.match_subdomains),
        decreases i - j,
    {
        proof {
            assert(names@[j as int]@ == canonical(rules@[j as int].from@));
        }
        if rules[j].match_subdomains == rule.match_subdomains && text::same_text(&names[j], &name) {
            repeated = true;
        }
        j += 1;
    }
    if !name.as_str().is_empty() && repeated {
        let shown = replace(REWRITE_DUPLICATE, "{from}", &from);
        let body = replace(&shown, "{flag}", &to_flag_text(rule.match_subdomains));
        push_text(errors, tag(place, &body, "rewrite_rules: "));
    }
    proof {
        assert((name@.len() > 0 && repeated) == repeats_rule(rules@, i as nat));
        assert(texts(errors@) =~= e0 + rule_list_errors(rules@, i as nat, place@));
    }
}

fn warn_rule(
    rule: &RewriteRule,
    locals: &Vec<String>,
    globals: &Vec<String>,
    warnings: &mut Vec<String>,
    Ghost(local_records): Ghost<Seq<LocalDnsRecord>>,
    Ghost(global_records): Ghost<Seq<LocalDnsRecord>>,
)
    requires
        texts(locals@) == record_names(local_records),
        texts(globals@) == record_names(global_records),
    ensures
        texts(final(warnings)@) == texts(old(warnings)@) + rule_warnings_of(
            *rule,
            local_records,
            global_records,
        ),
{
    let ghost w0 = texts(warnings@);
    let from = trim(&rule.from);
    let name = canonicalize_domain(&rule.from);
    proof {
        lemma_record_names(local_records, name@);
        lemma_record_names(global_records, name@);
    }
    if !name.as_str().is_empty() && is_underscore_service_name(&name) {
        push_text(warnings, replace(REWRITE_UNDERSCORE_SERVICE_NAME, "{from}", &from));
    }
    if !name.as_str().is_empty() && list_contains(locals, &name) {
        push_text(warnings, replace(REWRITE_SHADOWED_BY_LOCAL_RECORD, "{from}", &from));
    }
    if !name.as_str().is_empty() && list_contains(globals, &name) {
        push_text(warnings, replace(REWRITE_SHADOWED_BY_GLOBAL_RECORD, "{from}", &from));
    }
    proof {
        assert(texts(warnings@) =~= w0 + rule_warnings_of(*rule, local_records, global_records));
    }
}

fn check_rule(
    rules: &[RewriteRule],
    i: usize,
    scope_label: &str,
    names: &Vec<String>,
    errors: &mut Vec<String>,
)
    requires
        i < rules.len(),
        names.len() == i,
        forall|j: int| 0 <= j < i ==> (#[trigger] names@[j])@ == canonical(rules@[j].from@),
    ensures
        texts(final(errors)@) == texts(old(errors)@) + rule_errors_at(
            rules@,
            i as nat,
            scope_label@,
        ),
{
    let ghost e0 = texts(errors@);
    let rule = &rules[i];
    let place = at_position(scope_label, i);
    if trim(&rule.from).as_str().is_empty() {
        push_text(errors, tag(&place, REWRITE_SUBDOMAIN_ROOT_REFUSAL, "rewrite_rules: "));
        proof {
            assert(texts(errors@) =~= e0 + rule_errors_at(rules@, i as nat, scope_label@));
        }
    } else {
        proof {
            lemma_append_two(
                e0,
                rule_name_errors(*rule, place@),
                rule_list_errors(rules@, i as nat, place@),
            );
        }
        check_rule_names(rule, &place, errors);
        check_rule_in_list(rules, i, names, &place, errors);
    }
}

/// Validates the rewrite rules of one profile. The records of the profile
/// and the global records are read for the shadow warnings alone.
pub fn validate_rewrite_rules(
    rules: &[RewriteRule],
    scope_label: &str,
    local_records: &[LocalDnsRecord],
    global_records: &[LocalDnsRecord],
    errors: &mut Vec<String>,
    warnings: &mut Vec<String>,
)
    ensures
        rewrite_rules_report(rules@, scope_label@, texts(old(errors)@), texts(final(errors)@)),
        texts(final(warnings)@) == texts(old(warnings)@) + rule_warnings(
            rules@,
            local_records@,
            global_records@,
            rules@.len(),
        ),
{
    let ghost e0 = texts(errors@);
    let ghost w0 = texts(warnings@);
    let ghost scope = scope_label@;
    let locals = names_of(local_records);
    let globals = names_of(global_records);
    let mut names: Vec<String> = Vec::new();
    let mut i: usize = 0;
    proof {
        assert(e0 + rule_errors(rules@, scope, 0) =~= e0);
        assert(w0 + rule_warnings(rules@, local_records@, global_records@, 0) =~= w0);
    }
    while i < rules.len()
        invariant
            i <= rules.len(),
            scope == scope_label@,
            names.len() == i,
            forall|j: int| 0 <= j < i ==> (#[trigger] names@[j])@ == canonical(rules@[j].from@),
            texts(locals@) == record_names(local_records@),
            texts(globals@) == record_names(global_records@),
            texts(errors@) == e0 + rule_errors(rules@, scope, i as nat),
            texts(warnings@) == w0 + rule_warnings(
                rules@,
                local_records@,
                global_records@,
                i as nat,
            ),
        decreases rules.len() - i,
    {
        proof {
            lemma_append_two(
                e0,
                rule_errors(rules@, scope, i as nat),
                rule_errors_at(rules@, i as nat, scope),
            );
            lemma_append_two(
                w0,
                rule_warnings(rules@, local_records@, global_records@, i as nat),
                rule_warnings_of(rules@[i as int], local_records@, global_records@),
            );
        }
        check_rule(rules, i, scope_label, &names, errors);
        warn_rule(
            &rules[i],
            &locals,
            &globals,
            warnings,
            Ghost(local_records@),
            Ghost(global_records@),
        );
        names.push(canonicalize_domain(&rules[i].from));
        i += 1;
    }
    match find_rewrite_cycle(rules) {
        Some(name) => {
            let body = replace(REWRITE_CYCLE, "{domain}", &name);
            push_text(errors, tag(scope_label, &body, "rewrite_rules: "));
            proof {
                assert(on_cycle(rewrite_edges(rules@), name@));
            }
        },
        None => {},
    }
}

// ── Injected presets ──────────────────────────────────────────────────

/// The warnings about injected presets that a local record answers first.
pub open spec fn preset_warnings(
    presets: Seq<RewriteRule>,
    local_records: Seq<LocalDnsRecord>,
    global_records: Seq<LocalDnsRecord>,
    n: nat,
) -> Seq<Seq<char>>
    decreases n,
{
    if n == 0 {
        Seq::empty()
    } else {
        let from = presets[n - 1].from@;
        let name = canonical(from);
        preset_warnings(presets, local_records, global_records, (n - 1) as nat) + only_if(
            name.len() > 0 && (has_record(local_records, name) || has_record(global_records, name)),
            replaced(SAFESEARCH_PRESET_SHADOWED@, "{from}"@, from),
        )
    }
}

pub open spec fn preset_cycle(name: Seq<char>) -> Seq<char> {
    replaced(SAFESEARCH_EFFECTIVE_CYCLE@, "{domain}"@, name)
}

/// What the audit of the effective rewrites appends: a warning for each
/// shadowed preset, then one for a cycle that only the presets close.
pub open spec fn presets_report(
    rules: Seq<RewriteRule>,
    presets: Seq<RewriteRule>,
    local_records: Seq<LocalDnsRecord>,
    global_records: Seq<LocalDnsRecord>,
    before: Seq<Seq<char>>,
    after: Seq<Seq<char>>,
) -> bool {
    let own = rewrite_edges(rules);
    let joint = rewrite_edges(rules + presets);
    let most = before + preset_warnings(presets, local_records, global_records, presets.len());
    ||| after == most && ((exists|name: Seq<char>| #[trigger] on_cycle(own, name)) || (forall|
        name: Seq<char>,
    | !#[trigger] on_cycle(joint, name)))
    ||| (forall|name: Seq<char>| !#[trigger] on_cycle(own, name)) && exists|name: Seq<char>|
        #[trigger]
        on_cycle(joint, name) && after == most.push(preset_cycle(name))
}

/// Audits the rewrites that are in effect once `presets` are injected behind
/// the rules of the operator.
pub fn audit_presets(
    rules: &[RewriteRule],
    presets: &[RewriteRule],
    local_records: &[LocalDnsRecord],
    global_records: &[LocalDnsRecord],
    warnings: &mut Vec<String>,
)
    ensures
        presets_report(
            rules@,
            presets@,
            local_records@,
            global_records@,
            texts(old(warnings)@),
            texts(final(warnings)@),
        ),
{
    let ghost w0 = texts(warnings@);
    let locals = names_of(local_records);
    let globals = names_of(global_records);
    let mut i: usize = 0;
    proof {
        assert(w0 + preset_warnings(presets@, local_records@, global_records@, 0) =~= w0);
    }
    while i < presets.len()
        invariant
            i <= presets.len(),
            texts(locals@) == record_names(local_records@),
            texts(globals@) == record_names(global_records@),
            texts(warnings@) == w0 + preset_warnings(
                presets@,
                local_records@,
                global_records@,
                i as nat,
            ),
        decreases presets.len() - i,
    {
        let ghost w1 = texts(warnings@);
        let name = canonicalize_domain(&presets[i].from);
        proof {
            lemma_record_names(local_records@, name@);
            lemma_record_names(global_records@, name@);
        }
        if !name.as_str().is_empty() && (list_contains(&locals, &name) || list_contains(
            &globals,
            &name,
        )) {
            push_text(warnings, replace(SAFESEARCH_PRESET_SHADOWED, "{from}", &presets[i].from));
        }
        i += 1;
        proof {
            assert(texts(warnings@) =~= w0 + preset_warnings(
                presets@,
                local_records@,
                global_records@,
                i as nat,
            ));
        }
    }
    match find_rewrite_cycle(rules) {
        Some(name) => {
            proof {
                assert(on_cycle(rewrite_edges(rules@), name@));
            }
        },
        None => match find_joint_cycle(rules, presets) {
            Some(name) => {
                push_text(warnings, replace(SAFESEARCH_EFFECTIVE_CYCLE, "{domain}", &name));
                proof {
                    assert(on_cycle(rewrite_edges(rules@ + presets@), name@));
                }
            },
            None => {},
        },
    }
}

/// The presets that safe search injects: none. Every rewrite in effect is
/// one that the operator wrote.
pub fn safesearch_presets() -> (r: Vec<RewriteRule>)
    ensures
        r@.len() == 0,
{
    Vec::new()
}

/// Audits the rewrites in effect on a profile with safe search. Nothing is
/// injected, so nothing is reported.
pub fn audit_safesearch_effective_rewrites(
    rules: &[RewriteRule],
    local_records: &[LocalDnsRecord],
    global_records: &[LocalDnsRecord],
    warnings: &mut Vec<String>,
)
    ensures
        texts(final(warnings)@) == texts(old(warnings)@),
        presets_report(
            rules@,
            Seq::empty(),
            local_records@,
            global_records@,
            texts(old(warnings)@),
            texts(final(warnings)@),
        ),
{
    let presets = safesearch_presets();
    proof {
        assert(presets@ =~= Seq::<RewriteRule>::empty());
        assert(rules@ + presets@ =~= rules@);
        assert(texts(warnings@) + preset_warnings(presets@, local_records@, global_records@, 0)
            =~= texts(warnings@));
    }
    audit_presets(rules, presets.as_slice(), local_records, global_records, warnings);
}

} // verus!
