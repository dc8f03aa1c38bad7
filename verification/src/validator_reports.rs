//! What the validator reports, told by the defects of what it was given.
use vstd::prelude::*;
use crate::cycle::on_cycle;
use crate::domain::{canonical, fqdn_syntax, public_suffix, reserved_tld, underscore_name};
use crate::net::{private_v4, private_v6, reserved_v4, reserved_v6, v4_of, v6_of, v6_text};
use crate::net_laws::dotted_texts_are_read_back;
use crate::settings::{LocalDnsRecord, LocalDnsRecordType, RewriteRule};
use crate::text::{decimal, flag_text, replaced, trimmed, without_prefix};
use crate::validator::{
    cname_edges, cname_loop, conflict_errors, conflict_with, domain_errors, duplicate_errors,
    errors_at, has_record, kind_text, local_error, local_records_report, names_seen, only_if,
    position, preset_cycle, preset_warnings, presets_report, public_target, record_errors,
    record_warnings, reserved_side, reserved_target, rewrite_cycle_error,
    rewrite_edges, rewrite_error, rewrite_rules_report, rule_errors, rule_errors_at,
    rule_list_errors, rule_name_errors, rule_warnings, rule_warnings_of, target_errors,
    target_warnings, LOCAL_RECORDS_CNAME_LOOP, LOCAL_RECORDS_DUPLICATE,
    LOCAL_RECORDS_INVALID_FQDN_CNAME_TARGET, LOCAL_RECORDS_INVALID_FQDN_DOMAIN,
    LOCAL_RECORDS_INVALID_TARGET_A, LOCAL_RECORDS_INVALID_TARGET_AAAA,
    LOCAL_RECORDS_SUBDOMAIN_ROOT_REFUSAL, LOCAL_RECORDS_SUBDOMAIN_TLD_REFUSAL,
    LOCAL_RECORDS_TTL_OUT_OF_RANGE, REWRITE_CYCLE, REWRITE_DUPLICATE, REWRITE_IDENTITY,
    REWRITE_INVALID_FQDN_FROM, REWRITE_INVALID_FQDN_TO, REWRITE_SHADOWED_BY_GLOBAL_RECORD,
    REWRITE_SHADOWED_BY_LOCAL_RECORD, REWRITE_SUBDOMAIN_ROOT_REFUSAL, REWRITE_SUBDOMAIN_TLD_REFUSAL,
    REWRITE_UNDERSCORE_SERVICE_NAME, SAFESEARCH_PRESET_SHADOWED,
};

verus! {

/// One for a condition that holds, none for one that does not.
pub open spec fn one_if(cond: bool) -> nat {
    if cond {
        1
    } else {
        0
    }
}

proof fn lemma_in_sum(a: Seq<Seq<char>>, b: Seq<Seq<char>>, m: Seq<char>)
    ensures
        (a + b).contains(m) <==> a.contains(m) || b.contains(m),
        (a + b).len() == a.len() + b.len(),
{
    if a.contains(m) {
        let i = a.index_of(m);
        assert((a + b)[i] == m);
    }
    if b.contains(m) {
        let i = b.index_of(m);
        assert((a + b)[a.len() + i] == m);
    }
}

proof fn lemma_only_if(cond: bool, m: Seq<char>)
    ensures
        only_if(cond, m).len() == one_if(cond),
        cond ==> only_if(cond, m).contains(m),
        forall|x: Seq<char>| #[trigger] only_if(cond, m).contains(x) ==> cond && x == m,
{
    if cond {
        assert(only_if(cond, m)[0] == m);
    }
}

// ── Local records ─────────────────────────────────────────────────────

/// What is said about the name, the wildcard flag and the TTL of a record: a name
/// that is missing, and again if it is to cover what lies below it; a name that
/// is not valid; a wildcard over a public suffix; a TTL outside of one second to
/// one day. Each defect is said once, under the place of the record, and nothing
/// else is said.
pub proof fn names_and_ttls_are_reported(rec: LocalDnsRecord, place: Seq<char>)
    ensures
        ({
            let said = domain_errors(rec, place);
            let shown = trimmed(rec.domain@);
            let missing = shown.len() == 0;
            let wide = rec.match_subdomains && public_suffix(canonical(rec.domain@));
            let lives = rec.ttl_secs matches Some(n) && (n == 0 || n > 86400);
            &&& said.len() == one_if(missing && rec.match_subdomains) + one_if(missing) + one_if(
                !missing && !fqdn_syntax(shown),
            ) + one_if(wide) + one_if(lives)
            &&& missing ==> said.contains(place + ".domain: must not be empty"@)
            &&& missing && rec.match_subdomains ==> said.contains(
                place + ": "@ + without_prefix(
                    LOCAL_RECORDS_SUBDOMAIN_ROOT_REFUSAL@,
                    "local_records: "@,
                ),
            )
            &&& !missing && !fqdn_syntax(shown) ==> said.contains(
                place + ".domain"@ + ": "@ + without_prefix(
                    replaced(LOCAL_RECORDS_INVALID_FQDN_DOMAIN@, "{domain}"@, shown),
                    "local_records: "@,
                ),
            )
            &&& wide ==> said.contains(
                place + ": "@ + without_prefix(
                    replaced(LOCAL_RECORDS_SUBDOMAIN_TLD_REFUSAL@, "{domain}"@, shown),
                    "local_records: "@,
                ),
            )
            &&& lives ==> said.contains(
                place + ": "@ + without_prefix(
                    replaced(
                        replaced(
                            LOCAL_RECORDS_TTL_OUT_OF_RANGE@,
                            "{n}"@,
                            decimal(rec.ttl_secs->0 as nat),
                        ),
                        "{domain}"@,
                        shown,
                    ),
                    "local_records: "@,
                ),
            )
        }),
{
    let shown = trimmed(rec.domain@);
    let m1 = local_error(place, LOCAL_RECORDS_SUBDOMAIN_ROOT_REFUSAL@);
    let m2 = place + ".domain: must not be empty"@;
    let m3 = local_error(
        place + ".domain"@,
        replaced(LOCAL_RECORDS_INVALID_FQDN_DOMAIN@, "{domain}"@, shown),
    );
    let m4 = local_error(
        place,
        replaced(LOCAL_RECORDS_SUBDOMAIN_TLD_REFUSAL@, "{domain}"@, shown),
    );
    let m5 = match rec.ttl_secs {
        Some(n) => local_error(
            place,
            replaced(
                replaced(LOCAL_RECORDS_TTL_OUT_OF_RANGE@, "{n}"@, decimal(n as nat)),
                "{domain}"@,
                shown,
            ),
        ),
        None => m1,
    };
    let c1 = shown.len() == 0 && rec.match_subdomains;
    let c2 = shown.len() == 0;
    let c3 = shown.len() > 0 && !fqdn_syntax(shown);
    let c4 = rec.match_subdomains && public_suffix(canonical(rec.domain@));
    let c5 = rec.ttl_secs matches Some(n) && !(1 <= n <= 86_400);
    let p1 = only_if(c1, m1);
    let p2 = only_if(c2, m2);
    let p3 = only_if(c3, m3);
    let p4 = only_if(c4, m4);
    let p5 = only_if(c5, m5);
    assert(domain_errors(rec, place) =~= p1 + p2 + p3 + p4 + p5);
    lemma_only_if(c1, m1);
    lemma_only_if(c2, m2);
    lemma_only_if(c3, m3);
    lemma_only_if(c4, m4);
    lemma_only_if(c5, m5);
    lemma_five(p1, p2, p3, p4, p5, m1);
    lemma_five(p1, p2, p3, p4, p5, m2);
    lemma_five(p1, p2, p3, p4, p5, m3);
    lemma_five(p1, p2, p3, p4, p5, m4);
    lemma_five(p1, p2, p3, p4, p5, m5);
}

proof fn lemma_five(
    a: Seq<Seq<char>>,
    b: Seq<Seq<char>>,
    c: Seq<Seq<char>>,
    d: Seq<Seq<char>>,
    e: Seq<Seq<char>>,
    m: Seq<char>,
)
    ensures
        (a + b + c + d + e).contains(m) <==> a.contains(m) || b.contains(m) || c.contains(m)
            || d.contains(m) || e.contains(m),
        (a + b + c + d + e).len() == a.len() + b.len() + c.len() + d.len() + e.len(),
{
    lemma_in_sum(a, b, m);
    lemma_in_sum(a + b, c, m);
    lemma_in_sum(a + b + c, d, m);
    lemma_in_sum(a + b + c + d, e, m);
}

/// What is said about the value of a record: an address that does not read as one
/// of its family, an address that is never a target, an alias that is missing or
/// not a valid name. A good value is passed over in silence; a bad one is said
/// once, with the value as it was written.
pub proof fn values_are_reported(rec: LocalDnsRecord, place: Seq<char>)
    ensures
        ({
            let said = target_errors(rec, place);
            let shown = trimmed(rec.domain@);
            let target = trimmed(rec.value@);
            &&& said.len() <= 1
            &&& rec.record_type is A ==> (said.len() == 0 <==> v4_of(rec.value@) is Some
                && !reserved_v4(v4_of(rec.value@)->0))
            &&& rec.record_type is AAAA ==> (said.len() == 0 <==> v6_of(rec.value@) is Some
                && !reserved_v6(v6_of(rec.value@)->0))
            &&& rec.record_type is CNAME ==> (said.len() == 0 <==> target.len() > 0 && fqdn_syntax(
                target,
            ))
            &&& rec.record_type is A && v4_of(rec.value@) is None ==> said[0] == place + ": "@
                + without_prefix(
                replaced(
                    replaced(LOCAL_RECORDS_INVALID_TARGET_A@, "{value}"@, rec.value@),
                    "{domain}"@,
                    shown,
                ),
                "local_records: "@,
            )
            &&& rec.record_type is AAAA && v6_of(rec.value@) is None ==> said[0] == place + ": "@
                + without_prefix(
                replaced(
                    replaced(LOCAL_RECORDS_INVALID_TARGET_AAAA@, "{value}"@, rec.value@),
                    "{domain}"@,
                    shown,
                ),
                "local_records: "@,
            )
            &&& rec.record_type is CNAME && target.len() == 0 ==> said[0] == place
                + ".value: CNAME target must not be empty"@
            &&& rec.record_type is CNAME && target.len() > 0 && !fqdn_syntax(target) ==> said[0]
                == place + ".value"@ + ": "@ + without_prefix(
                replaced(
                    replaced(LOCAL_RECORDS_INVALID_FQDN_CNAME_TARGET@, "{value}"@, target),
                    "{domain}"@,
                    shown,
                ),
                "local_records: "@,
            )
            &&& (rec.record_type is A && v4_of(rec.value@) is Some && said.len() == 1) ==> said[0]
                == place + ": "@ + without_prefix(
                reserved_target(shown, rec.value@),
                "local_records: "@,
            )
            &&& (rec.record_type is AAAA && v6_of(rec.value@) is Some && said.len() == 1)
                ==> said[0] == place + ": "@ + without_prefix(
                reserved_target(shown, v6_text(v6_of(rec.value@)->0)),
                "local_records: "@,
            )
        }),
{
    if rec.record_type is A && v4_of(rec.value@) is Some {
        crate::net_laws::dotted_texts_have_four_numbers(rec.value@);
        dotted_texts_are_read_back(rec.value@, v4_of(rec.value@)->0);
    }
}

/// A warning is given for a public address, and for nothing else: it names the
/// record and the address. Private addresses, aliases and values that do not read
/// as an address pass without one.
pub proof fn public_addresses_are_warned_about(rec: LocalDnsRecord)
    ensures
        ({
            let said = target_warnings(rec);
            let shown = trimmed(rec.domain@);
            let v4 = v4_of(rec.value@);
            let v6 = v6_of(rec.value@);
            &&& said.len() == one_if(
                (rec.record_type is A && v4 is Some && !reserved_v4(v4->0) && !private_v4(v4->0))
                    || (rec.record_type is AAAA && v6 is Some && !reserved_v6(v6->0) && !private_v6(
                    v6->0,
                )),
            )
            &&& rec.record_type is A && said.len() == 1 ==> said[0] == public_target(
                shown,
                rec.value@,
            )
            &&& rec.record_type is AAAA && said.len() == 1 ==> said[0] == public_target(
                shown,
                v6_text(v6->0),
            )
        }),
{
    if rec.record_type is A && v4_of(rec.value@) is Some {
        crate::net_laws::dotted_texts_have_four_numbers(rec.value@);
        dotted_texts_are_read_back(rec.value@, v4_of(rec.value@)->0);
    }
}

/// Warnings come record by record, in order: what is said about a list with one
/// more record is what is said about the list, and behind it what is said about
/// the record.
pub proof fn warnings_come_in_order(records: Seq<LocalDnsRecord>, rec: LocalDnsRecord)
    ensures
        record_warnings(records.push(rec), records.len() + 1) == record_warnings(
            records,
            records.len(),
        ) + target_warnings(rec),
        record_warnings(Seq::<LocalDnsRecord>::empty(), 0).len() == 0,
{
    lemma_warnings_ahead(records, rec, records.len());
}

proof fn lemma_warnings_ahead(records: Seq<LocalDnsRecord>, rec: LocalDnsRecord, n: nat)
    requires
        n <= records.len(),
    ensures
        record_warnings(records.push(rec), n) == record_warnings(records, n),
    decreases n,
{
    if n > 0 {
        lemma_warnings_ahead(records, rec, (n - 1) as nat);
        assert(records.push(rec)[n - 1] == records[n - 1]);
    }
}

/// The names that were seen of a type are the canonical names of its records,
/// each of them once.
pub proof fn names_are_seen_once(
    records: Seq<LocalDnsRecord>,
    n: nat,
    kind: LocalDnsRecordType,
    name: Seq<char>,
)
    requires
        n <= records.len(),
    ensures
        names_seen(records, n, kind).contains(name) <==> name.len() > 0 && exists|i: int|
            0 <= i < n && canonical((#[trigger] records[i]).domain@) == name
                && records[i].record_type == kind,
        names_seen(records, n, kind).no_duplicates(),
    decreases n,
{
    if n > 0 {
        let m = (n - 1) as nat;
        names_are_seen_once(records, m, kind, name);
        names_are_seen_once(records, m, kind, canonical(records[m as int].domain@));
        let before = names_seen(records, m, kind);
        let all = names_seen(records, n, kind);
        let own = canonical(records[m as int].domain@);
        if all.contains(name) && !before.contains(name) {
            let k = all.index_of(name);
            assert(all[k] == name);
            assert(k == all.len() - 1);
            assert(name == own);
            assert(records[m as int].record_type == kind);
        }
        if before.contains(name) {
            let k = before.index_of(name);
            assert(all[k] == name);
        }
        if name.len() > 0 && (exists|i: int|
            0 <= i < n && canonical((#[trigger] records[i]).domain@) == name
                && records[i].record_type == kind) {
            let i = choose|i: int|
                0 <= i < n && canonical((#[trigger] records[i]).domain@) == name
                    && records[i].record_type == kind;
            if i == m && !before.contains(name) {
                assert(all[all.len() - 1] == name);
            }
        }
    }
}

/// A record is reported as a duplicate exactly if an earlier one has its
/// canonical name and its type, whatever the wildcard flags; the message names the
/// type, the name as written and the flag.
pub proof fn duplicates_share_name_and_type(
    records: Seq<LocalDnsRecord>,
    i: nat,
    place: Seq<char>,
)
    requires
        i < records.len(),
    ensures
        ({
            let rec = records[i as int];
            let said = duplicate_errors(records, i, place);
            let repeated = canonical(rec.domain@).len() > 0 && exists|j: int|
                0 <= j < i && canonical((#[trigger] records[j]).domain@) == canonical(rec.domain@)
                    && records[j].record_type == rec.record_type;
            &&& said.len() == one_if(repeated)
            &&& repeated ==> said[0] == place + ".domain"@ + ": "@ + without_prefix(
                replaced(
                    replaced(
                        replaced(
                            LOCAL_RECORDS_DUPLICATE@,
                            "{kind}"@,
                            match rec.record_type {
                                LocalDnsRecordType::A => "A"@,
                                LocalDnsRecordType::AAAA => "AAAA"@,
                                LocalDnsRecordType::CNAME => "CNAME"@,
                            },
                        ),
                        "{domain}"@,
                        trimmed(rec.domain@),
                    ),
                    "{flag}"@,
                    flag_text(rec.match_subdomains),
                ),
                "local_records: "@,
            )
        }),
{
    let rec = records[i as int];
    names_are_seen_once(records, i, rec.record_type, canonical(rec.domain@));
}

/// A name is reported for holding an alias beside an address exactly if it does,
/// once for each family.
pub proof fn aliases_beside_addresses_are_reported(
    scope: Seq<char>,
    cnames: Seq<Seq<char>>,
    v4: Seq<Seq<char>>,
    v6: Seq<Seq<char>>,
    name: Seq<char>,
)
    ensures
        cnames.contains(name) && v4.contains(name) ==> conflict_errors(
            scope,
            cnames,
            v4,
            v6,
        ).contains(conflict_with(scope, name, "an A"@)),
        cnames.contains(name) && v6.contains(name) ==> conflict_errors(
            scope,
            cnames,
            v4,
            v6,
        ).contains(conflict_with(scope, name, "an AAAA"@)),
        (forall|x: Seq<char>| #[trigger] cnames.contains(x) ==> !v4.contains(x) && !v6.contains(x))
            ==> conflict_errors(scope, cnames, v4, v6).len() == 0,
        conflict_errors(scope, cnames, v4, v6).len() == cnames.filter(
            |x: Seq<char>| v4.contains(x),
        ).len() + cnames.filter(|x: Seq<char>| v6.contains(x)).len(),
    decreases cnames.len(),
{
    reveal(Seq::filter);
    if cnames.len() > 0 {
        let init = cnames.drop_last();
        let last = cnames.last();
        aliases_beside_addresses_are_reported(scope, init, v4, v6, name);
        let a = conflict_errors(scope, init, v4, v6);
        let m4 = conflict_with(scope, last, "an A"@);
        let m6 = conflict_with(scope, last, "an AAAA"@);
        let b = only_if(v4.contains(last), m4);
        let c = only_if(v6.contains(last), m6);
        lemma_only_if(v4.contains(last), m4);
        lemma_only_if(v6.contains(last), m6);
        let w4 = conflict_with(scope, name, "an A"@);
        let w6 = conflict_with(scope, name, "an AAAA"@);
        lemma_in_sum(a, b, w4);
        lemma_in_sum(a + b, c, w4);
        lemma_in_sum(a, b, w6);
        lemma_in_sum(a + b, c, w6);
        if cnames.contains(name) && last != name {
            let k = cnames.index_of(name);
            assert(init[k] == name);
        }
        assert(cnames.contains(last)) by {
            assert(cnames[cnames.len() - 1] == last);
        }
        if forall|x: Seq<char>| #[trigger] cnames.contains(x) ==> !v4.contains(x) && !v6.contains(
            x,
        ) {
            assert forall|x: Seq<char>| #[trigger] init.contains(x) implies !v4.contains(x)
                && !v6.contains(x) by {
                let k = init.index_of(x);
                assert(cnames[k] == x);
                assert(cnames.contains(x));
            }
        }
    }
}

/// All that is said about a record is said under its place in the list, and all
/// of it is in the report: first its name and TTL, then its value, then that it
/// repeats another.
pub proof fn reports_cover_every_record(
    records: Seq<LocalDnsRecord>,
    scope: Seq<char>,
    n: nat,
    i: nat,
    m: Seq<char>,
)
    requires
        i < n <= records.len(),
    ensures
        ({
            let place = scope + seq!['['] + decimal(i) + seq![']'];
            let said = errors_at(records, i, scope);
            &&& position(scope, i) == place
            &&& said == domain_errors(records[i as int], place) + target_errors(
                records[i as int],
                place,
            ) + duplicate_errors(records, i, place)
            &&& said.contains(m) ==> record_errors(records, scope, n).contains(m)
        }),
        record_errors(records, scope, n).len() == record_errors(
            records,
            scope,
            (n - 1) as nat,
        ).len() + errors_at(records, (n - 1) as nat, scope).len(),
    decreases n,
{
    lemma_place(scope, i);
    let k = (n - 1) as nat;
    lemma_in_sum(record_errors(records, scope, k), errors_at(records, k, scope), m);
    if i < k {
        reports_cover_every_record(records, scope, k, i, m);
    }
}

proof fn lemma_place(scope: Seq<char>, i: nat)
    ensures
        position(scope, i) == scope + seq!['['] + decimal(i) + seq![']'],
{
    reveal_strlit("[");
    reveal_strlit("]");
    assert("["@ =~= seq!['[']);
    assert("]"@ =~= seq![']']);
}

/// The graph of aliases has an edge for every alias record that has a name and a
/// value, between their canonical spellings, and no other.
pub proof fn alias_graphs_hold_every_alias(
    records: Seq<LocalDnsRecord>,
    from: Seq<char>,
    to: Seq<char>,
)
    ensures
        cname_edges(records).contains((from, to)) <==> from.len() > 0 && to.len() > 0 && exists|
            i: int,
        |
            0 <= i < records.len() && (#[trigger] records[i]).record_type is CNAME && canonical(
                records[i].domain@,
            ) == from && canonical(records[i].value@) == to,
    decreases records.len(),
{
    if records.len() > 0 {
        let init = records.drop_last();
        let rec = records.last();
        alias_graphs_hold_every_alias(init, from, to);
        let rest = cname_edges(init);
        let all = cname_edges(records);
        if rest.contains((from, to)) {
            let k = rest.index_of((from, to));
            assert(all[k] == (from, to));
            let i = choose|i: int|
                0 <= i < init.len() && (#[trigger] init[i]).record_type is CNAME && canonical(
                    init[i].domain@,
                ) == from && canonical(init[i].value@) == to;
            assert(records[i] == init[i]);
        } else {
            if all.contains((from, to)) {
                let k = all.index_of((from, to));
                assert(all[k] == (from, to));
                assert(k == all.len() - 1);
                assert(records[records.len() - 1] == rec);
            }
            if exists|i: int|
                0 <= i < records.len() && (#[trigger] records[i]).record_type is CNAME && canonical(
                    records[i].domain@,
                ) == from && canonical(records[i].value@) == to {
                let i = choose|i: int|
                    0 <= i < records.len() && (#[trigger] records[i]).record_type is CNAME
                        && canonical(records[i].domain@) == from && canonical(records[i].value@)
                        == to;
                if i < init.len() {
                    assert(init[i] == records[i]);
                } else if from.len() > 0 && to.len() > 0 {
                    assert(all[all.len() - 1] == (from, to));
                }
            }
        }
    }
}

/// A loop of aliases is reported exactly if there is one, by a name on it and
/// behind everything else.
pub proof fn alias_loops_are_reported_last(
    records: Seq<LocalDnsRecord>,
    scope: Seq<char>,
    before: Seq<Seq<char>>,
    after: Seq<Seq<char>>,
)
    requires
        local_records_report(records, scope, before, after),
    ensures
        ({
            let n = records.len();
            let rest = record_errors(records, scope, n).len() + conflict_errors(
                scope,
                names_seen(records, n, LocalDnsRecordType::CNAME),
                names_seen(records, n, LocalDnsRecordType::A),
                names_seen(records, n, LocalDnsRecordType::AAAA),
            ).len();
            let looped = exists|name: Seq<char>| #[trigger] on_cycle(cname_edges(records), name);
            &&& after.len() == before.len() + rest + one_if(looped)
            &&& looped ==> exists|name: Seq<char>| #[trigger]
                on_cycle(cname_edges(records), name) && after.last() == scope + ": "@
                    + without_prefix(
                    replaced(LOCAL_RECORDS_CNAME_LOOP@, "{domain}"@, name),
                    "local_records: "@,
                )
        }),
{
}

// ── Rewrite rules ─────────────────────────────────────────────────────

/// What is said about the names of a rule: either side that is not a valid name,
/// a wildcard over a public suffix, either side that ends in a reserved label.
/// Each defect is said once, under the place of the rule, and nothing else is.
pub proof fn rule_names_are_reported(rule: RewriteRule, place: Seq<char>)
    ensures
        ({
            let said = rule_name_errors(rule, place);
            let from = trimmed(rule.from@);
            let to = trimmed(rule.to@);
            let wide = rule.match_subdomains && public_suffix(canonical(rule.from@));
            let kept_from = reserved_tld(canonical(rule.from@));
            let kept_to = reserved_tld(canonical(rule.to@));
            &&& said.len() == one_if(!fqdn_syntax(from)) + one_if(!fqdn_syntax(to)) + one_if(wide)
                + one_if(kept_from) + one_if(kept_to)
            &&& !fqdn_syntax(from) ==> said.contains(
                place + ".from"@ + ": "@ + without_prefix(
                    replaced(REWRITE_INVALID_FQDN_FROM@, "{from}"@, from),
                    "rewrite_rules: "@,
                ),
            )
            &&& !fqdn_syntax(to) ==> said.contains(
                place + ".to"@ + ": "@ + without_prefix(
                    replaced(REWRITE_INVALID_FQDN_TO@, "{to}"@, to),
                    "rewrite_rules: "@,
                ),
            )
            &&& wide ==> said.contains(
                place + ": "@ + without_prefix(
                    replaced(REWRITE_SUBDOMAIN_TLD_REFUSAL@, "{from}"@, from),
                    "rewrite_rules: "@,
                ),
            )
            &&& kept_from ==> said.contains(
                place + ".from"@ + ": "@ + without_prefix(
                    reserved_side(from, "from"@),
                    "rewrite_rules: "@,
                ),
            )
            &&& kept_to ==> said.contains(
                place + ".to"@ + ": "@ + without_prefix(
                    reserved_side(to, "to"@),
                    "rewrite_rules: "@,
                ),
            )
        }),
{
    let from = trimmed(rule.from@);
    let to = trimmed(rule.to@);
    let m1 = rewrite_error(place + ".from"@, replaced(REWRITE_INVALID_FQDN_FROM@, "{from}"@, from));
    let m2 = rewrite_error(place + ".to"@, replaced(REWRITE_INVALID_FQDN_TO@, "{to}"@, to));
    let m3 = rewrite_error(place, replaced(REWRITE_SUBDOMAIN_TLD_REFUSAL@, "{from}"@, from));
    let m4 = rewrite_error(place + ".from"@, reserved_side(from, "from"@));
    let m5 = rewrite_error(place + ".to"@, reserved_side(to, "to"@));
    let c1 = !fqdn_syntax(from);
    let c2 = !fqdn_syntax(to);
    let c3 = rule.match_subdomains && public_suffix(canonical(rule.from@));
    let c4 = reserved_tld(canonical(rule.from@));
    let c5 = reserved_tld(canonical(rule.to@));
    let p1 = only_if(c1, m1);
    let p2 = only_if(c2, m2);
    let p3 = only_if(c3, m3);
    let p4 = only_if(c4, m4);
    let p5 = only_if(c5, m5);
    assert(rule_name_errors(rule, place) =~= p1 + p2 + p3 + p4 + p5);
    lemma_only_if(c1, m1);
    lemma_only_if(c2, m2);
    lemma_only_if(c3, m3);
    lemma_only_if(c4, m4);
    lemma_only_if(c5, m5);
    lemma_five(p1, p2, p3, p4, p5, m1);
    lemma_five(p1, p2, p3, p4, p5, m2);
    lemma_five(p1, p2, p3, p4, p5, m3);
    lemma_five(p1, p2, p3, p4, p5, m4);
    lemma_five(p1, p2, p3, p4, p5, m5);
}

/// A rule is reported for leading to itself exactly if both of its sides are one
/// name, and as a duplicate exactly if an earlier rule has its source and its
/// wildcard flag.
pub proof fn rules_are_reported_as_members_of_their_list(
    rules: Seq<RewriteRule>,
    i: nat,
    place: Seq<char>,
)
    requires
        i < rules.len(),
    ensures
        ({
            let rule = rules[i as int];
            let name = canonical(rule.from@);
            let said = rule_list_errors(rules, i, place);
            let same = name.len() > 0 && name == canonical(rule.to@);
            let repeated = name.len() > 0 && exists|j: int|
                0 <= j < i && canonical((#[trigger] rules[j]).from@) == name
                    && rules[j].match_subdomains == rule.match_subdomains;
            &&& said.len() == one_if(same) + one_if(repeated)
            &&& same ==> said[0] == place + ": "@ + without_prefix(
                replaced(REWRITE_IDENTITY@, "{from}"@, trimmed(rule.from@)),
                "rewrite_rules: "@,
            )
            &&& repeated ==> said.last() == place + ": "@ + without_prefix(
                replaced(
                    replaced(REWRITE_DUPLICATE@, "{from}"@, trimmed(rule.from@)),
                    "{flag}"@,
                    flag_text(rule.match_subdomains),
                ),
                "rewrite_rules: "@,
            )
        }),
{
}

/// A rule without a source is refused for that alone; every other rule is
/// reported for its names and as a member of its list. All that is said about a
/// rule is in the report, under its place.
pub proof fn reports_cover_every_rule(
    rules: Seq<RewriteRule>,
    scope: Seq<char>,
    n: nat,
    i: nat,
    m: Seq<char>,
)
    requires
        i < n <= rules.len(),
    ensures
        ({
            let place = scope + seq!['['] + decimal(i) + seq![']'];
            let said = rule_errors_at(rules, i, scope);
            &&& trimmed(rules[i as int].from@).len() == 0 ==> said.len() == 1 && said[0] == place
                + ": "@ + without_prefix(REWRITE_SUBDOMAIN_ROOT_REFUSAL@, "rewrite_rules: "@)
            &&& trimmed(rules[i as int].from@).len() > 0 ==> said == rule_name_errors(
                rules[i as int],
                place,
            ) + rule_list_errors(rules, i, place)
            &&& said.contains(m) ==> rule_errors(rules, scope, n).contains(m)
        }),
        rule_errors(rules, scope, n).len() == rule_errors(rules, scope, (n - 1) as nat).len()
            + rule_errors_at(rules, (n - 1) as nat, scope).len(),
    decreases n,
{
    lemma_place(scope, i);
    let k = (n - 1) as nat;
    lemma_in_sum(rule_errors(rules, scope, k), rule_errors_at(rules, k, scope), m);
    if i < k {
        reports_cover_every_rule(rules, scope, k, i, m);
    }
}

/// A rule is warned about for each of three things: a source with an underscore
/// label, and a source that a record of the profile or a global one answers
/// first.
pub proof fn shadowed_rules_are_warned_about(
    rule: RewriteRule,
    local_records: Seq<LocalDnsRecord>,
    global_records: Seq<LocalDnsRecord>,
)
    ensures
        ({
            let said = rule_warnings_of(rule, local_records, global_records);
            let from = trimmed(rule.from@);
            let name = canonical(rule.from@);
            let service = name.len() > 0 && underscore_name(name);
            let near = name.len() > 0 && exists|j: int|
                0 <= j < local_records.len() && canonical((#[trigger] local_records[j]).domain@)
                    == name;
            let far = name.len() > 0 && exists|j: int|
                0 <= j < global_records.len() && canonical((#[trigger] global_records[j]).domain@)
                    == name;
            &&& said.len() == one_if(service) + one_if(near) + one_if(far)
            &&& service ==> said.contains(
                replaced(REWRITE_UNDERSCORE_SERVICE_NAME@, "{from}"@, from),
            )
            &&& near ==> said.contains(replaced(REWRITE_SHADOWED_BY_LOCAL_RECORD@, "{from}"@, from))
            &&& far ==> said.contains(replaced(REWRITE_SHADOWED_BY_GLOBAL_RECORD@, "{from}"@, from))
        }),
{
    let from = trimmed(rule.from@);
    let name = canonical(rule.from@);
    let c1 = name.len() > 0 && underscore_name(name);
    let c2 = name.len() > 0 && has_record(local_records, name);
    let c3 = name.len() > 0 && has_record(global_records, name);
    let m1 = replaced(REWRITE_UNDERSCORE_SERVICE_NAME@, "{from}"@, from);
    let m2 = replaced(REWRITE_SHADOWED_BY_LOCAL_RECORD@, "{from}"@, from);
    let m3 = replaced(REWRITE_SHADOWED_BY_GLOBAL_RECORD@, "{from}"@, from);
    let p1 = only_if(c1, m1);
    let p2 = only_if(c2, m2);
    let p3 = only_if(c3, m3);
    lemma_only_if(c1, m1);
    lemma_only_if(c2, m2);
    lemma_only_if(c3, m3);
    assert(rule_warnings_of(rule, local_records, global_records) =~= p1 + p2 + p3);
    lemma_in_sum(p1, p2, m1);
    lemma_in_sum(p1 + p2, p3, m1);
    lemma_in_sum(p1, p2, m2);
    lemma_in_sum(p1 + p2, p3, m2);
    lemma_in_sum(p1 + p2, p3, m3);
}

/// Warnings about rules come rule by rule, in order.
pub proof fn rule_warnings_come_in_order(
    rules: Seq<RewriteRule>,
    rule: RewriteRule,
    local_records: Seq<LocalDnsRecord>,
    global_records: Seq<LocalDnsRecord>,
)
    ensures
        rule_warnings(rules.push(rule), local_records, global_records, rules.len() + 1)
            == rule_warnings(rules, local_records, global_records, rules.len()) + rule_warnings_of(
            rule,
            local_records,
            global_records,
        ),
        rule_warnings(rules, local_records, global_records, 0).len() == 0,
{
    lemma_rule_warnings_ahead(rules, rule, local_records, global_records, rules.len());
}

proof fn lemma_rule_warnings_ahead(
    rules: Seq<RewriteRule>,
    rule: RewriteRule,
    local_records: Seq<LocalDnsRecord>,
    global_records: Seq<LocalDnsRecord>,
    n: nat,
)
    requires
        n <= rules.len(),
    ensures
        rule_warnings(rules.push(rule), local_records, global_records, n) == rule_warnings(
            rules,
            local_records,
            global_records,
            n,
        ),
    decreases n,
{
    if n > 0 {
        lemma_rule_warnings_ahead(rules, rule, local_records, global_records, (n - 1) as nat);
        assert(rules.push(rule)[n - 1] == rules[n - 1]);
    }
}

/// The graph of rewrites has an edge for every exact rule that has two names,
/// between their canonical spellings, and no other: wildcards take no part.
pub proof fn rewrite_graphs_hold_every_exact_rule(
    rules: Seq<RewriteRule>,
    from: Seq<char>,
    to: Seq<char>,
)
    ensures
        rewrite_edges(rules).contains((from, to)) <==> from.len() > 0 && to.len() > 0 && exists|
            i: int,
        |
            0 <= i < rules.len() && !(#[trigger] rules[i]).match_subdomains && canonical(
                rules[i].from@,
            ) == from && canonical(rules[i].to@) == to,
    decreases rules.len(),
{
    if rules.len() > 0 {
        let init = rules.drop_last();
        let rule = rules.last();
        rewrite_graphs_hold_every_exact_rule(init, from, to);
        let rest = rewrite_edges(init);
        let all = rewrite_edges(rules);
        if rest.contains((from, to)) {
            let k = rest.index_of((from, to));
            assert(all[k] == (from, to));
            let i = choose|i: int|
                0 <= i < init.len() && !(#[trigger] init[i]).match_subdomains && canonical(
                    init[i].from@,
                ) == from && canonical(init[i].to@) == to;
            assert(rules[i] == init[i]);
        } else {
            if all.contains((from, to)) {
                let k = all.index_of((from, to));
                assert(all[k] == (from, to));
                assert(k == all.len() - 1);
                assert(rules[rules.len() - 1] == rule);
            }
            if exists|i: int|
                0 <= i < rules.len() && !(#[trigger] rules[i]).match_subdomains && canonical(
                    rules[i].from@,
                ) == from && canonical(rules[i].to@) == to {
                let i = choose|i: int|
                    0 <= i < rules.len() && !(#[trigger] rules[i]).match_subdomains && canonical(
                        rules[i].from@,
                    ) == from && canonical(rules[i].to@) == to;
                if i < init.len() {
                    assert(init[i] == rules[i]);
                } else if from.len() > 0 && to.len() > 0 {
                    assert(all[all.len() - 1] == (from, to));
                }
            }
        }
    }
}

/// A cycle of rewrites is reported exactly if there is one, by a name on it and
/// behind everything else.
pub proof fn rewrite_cycles_are_reported_last(
    rules: Seq<RewriteRule>,
    scope: Seq<char>,
    before: Seq<Seq<char>>,
    after: Seq<Seq<char>>,
)
    requires
        rewrite_rules_report(rules, scope, before, after),
    ensures
        ({
            let cyclic = exists|name: Seq<char>| #[trigger] on_cycle(rewrite_edges(rules), name);
            &&& after.len() == before.len() + rule_errors(rules, scope, rules.len()).len() + one_if(
                cyclic,
            )
            &&& before.is_prefix_of(after)
            &&& cyclic ==> exists|name: Seq<char>| #[trigger]
                on_cycle(rewrite_edges(rules), name) && after.last() == scope + ": "@
                    + without_prefix(
                    replaced(REWRITE_CYCLE@, "{domain}"@, name),
                    "rewrite_rules: "@,
                )
        }),
{
}

// ── Presets ───────────────────────────────────────────────────────────

/// A preset is warned about exactly if some record, of the profile or global, has
/// its name; one warning for each, in order.
pub proof fn shadowed_presets_are_warned_about(
    presets: Seq<RewriteRule>,
    local_records: Seq<LocalDnsRecord>,
    global_records: Seq<LocalDnsRecord>,
    n: nat,
)
    requires
        0 < n <= presets.len(),
    ensures
        ({
            let from = presets[n - 1].from@;
            let name = canonical(from);
            let shadowed = name.len() > 0 && ((exists|j: int|
                0 <= j < local_records.len() && canonical((#[trigger] local_records[j]).domain@)
                    == name) || (exists|j: int|
                0 <= j < global_records.len() && canonical((#[trigger] global_records[j]).domain@)
                    == name));
            let ahead = preset_warnings(presets, local_records, global_records, (n - 1) as nat);
            let said = preset_warnings(presets, local_records, global_records, n);
            &&& said.len() == ahead.len() + one_if(shadowed)
            &&& ahead.is_prefix_of(said)
            &&& shadowed ==> said.last() == replaced(SAFESEARCH_PRESET_SHADOWED@, "{from}"@, from)
        }),
        preset_warnings(presets, local_records, global_records, 0).len() == 0,
{
}

/// A cycle is held against the presets exactly if there is one with them and none
/// without.
pub proof fn presets_answer_for_their_own_cycles(
    rules: Seq<RewriteRule>,
    presets: Seq<RewriteRule>,
    local_records: Seq<LocalDnsRecord>,
    global_records: Seq<LocalDnsRecord>,
    before: Seq<Seq<char>>,
    after: Seq<Seq<char>>,
)
    requires
        presets_report(rules, presets, local_records, global_records, before, after),
    ensures
        ({
            let own = exists|name: Seq<char>| #[trigger] on_cycle(rewrite_edges(rules), name);
            let joint = exists|name: Seq<char>| #[trigger]
                on_cycle(rewrite_edges(rules + presets), name);
            &&& after.len() == before.len() + preset_warnings(
                presets,
                local_records,
                global_records,
                presets.len(),
            ).len() + one_if(joint && !own)
            &&& before.is_prefix_of(after)
            &&& joint && !own ==> exists|name: Seq<char>| #[trigger]
                on_cycle(rewrite_edges(rules + presets), name) && after.last() == preset_cycle(name)
        }),
{
}

/// The words for the types of records, for a loop, for a cycle.
pub proof fn reports_use_the_names_of_types(
    kind: LocalDnsRecordType,
    scope: Seq<char>,
    name: Seq<char>,
)
    ensures
        kind is A ==> kind_text(kind) == seq!['A'],
        kind is AAAA ==> kind_text(kind) == seq!['A', 'A', 'A', 'A'],
        kind is CNAME ==> kind_text(kind) == seq!['C', 'N', 'A', 'M', 'E'],
        cname_loop(scope, name) == scope + ": "@ + without_prefix(
            replaced(LOCAL_RECORDS_CNAME_LOOP@, "{domain}"@, name),
            "local_records: "@,
        ),
        rewrite_cycle_error(scope, name) == scope + ": "@ + without_prefix(
            replaced(REWRITE_CYCLE@, "{domain}"@, name),
            "rewrite_rules: "@,
        ),
{
    reveal_strlit("A");
    reveal_strlit("AAAA");
    reveal_strlit("CNAME");
    assert("A"@ =~= seq!['A']);
    assert("AAAA"@ =~= seq!['A', 'A', 'A', 'A']);
    assert("CNAME"@ =~= seq!['C', 'N', 'A', 'M', 'E']);
}

} // verus!
