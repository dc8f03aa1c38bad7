//! What a validated configuration is known to satisfy.
use vstd::prelude::*;
use crate::cycle::{lemma_fewer_rules_stay_acyclic, lemma_successor_push, on_cycle, successor};
use crate::domain::{canonical, fqdn_syntax, public_suffix, reserved_tld};
use crate::net::{reserved_v4, reserved_v6, v4_of, v6_of};
use crate::settings::{LocalDnsRecord, LocalDnsRecordType, RewriteRule};
use crate::text::{lowered, trimmed, undotted};
use crate::validator::{
    cname_edges, conflict_errors, errors_at, local_records_report, names_seen, record_errors,
    repeats_rule, rewrite_edges, rewrite_rules_report, rule_errors, rule_errors_at,
};

verus! {

/// A record that local DNS can serve: a valid name, a target that parses and
/// is not reserved, a TTL in range, and no wildcard over a public suffix.
pub open spec fn sound_record(rec: LocalDnsRecord) -> bool {
    &&& fqdn_syntax(trimmed(rec.domain@))
    &&& rec.match_subdomains ==> !public_suffix(canonical(rec.domain@))
    &&& rec.ttl_secs matches Some(n) ==> 1 <= n <= 86_400
    &&& match rec.record_type {
        LocalDnsRecordType::A => v4_of(rec.value@) is Some && !reserved_v4(v4_of(rec.value@)->0),
        LocalDnsRecordType::AAAA => v6_of(rec.value@) is Some && !reserved_v6(v6_of(rec.value@)->0),
        LocalDnsRecordType::CNAME => fqdn_syntax(trimmed(rec.value@)),
    }
}

/// Two records of one scope may stand beside each other: different names, or
/// different types neither of which is a CNAME.
pub open spec fn compatible(a: LocalDnsRecord, b: LocalDnsRecord) -> bool {
    canonical(a.domain@) == canonical(b.domain@) ==> a.record_type != b.record_type
        && a.record_type != LocalDnsRecordType::CNAME && b.record_type != LocalDnsRecordType::CNAME
}

proof fn lemma_errors_cover(records: Seq<LocalDnsRecord>, scope: Seq<char>, n: nat, i: nat)
    requires
        i < n,
        record_errors(records, scope, n).len() == 0,
    ensures
        errors_at(records, i, scope).len() == 0,
    decreases n,
{
    if i < n - 1 {
        lemma_errors_cover(records, scope, (n - 1) as nat, i);
    }
}

proof fn lemma_names_seen_has(
    records: Seq<LocalDnsRecord>,
    n: nat,
    kind: LocalDnsRecordType,
    i: int,
)
    requires
        0 <= i < n <= records.len(),
        records[i].record_type == kind,
        canonical(records[i].domain@).len() > 0,
    ensures
        names_seen(records, n, kind).contains(canonical(records[i].domain@)),
    decreases n,
{
    let before = names_seen(records, (n - 1) as nat, kind);
    let name = canonical(records[i].domain@);
    let all = names_seen(records, n, kind);
    if i < n - 1 {
        lemma_names_seen_has(records, (n - 1) as nat, kind, i);
        let j = before.index_of(name);
        assert(all[j] == name);
    } else if !before.contains(name) {
        assert(all[all.len() - 1] == name);
    }
}

proof fn lemma_no_conflict(
    scope: Seq<char>,
    cnames: Seq<Seq<char>>,
    v4: Seq<Seq<char>>,
    v6: Seq<Seq<char>>,
    name: Seq<char>,
)
    requires
        conflict_errors(scope, cnames, v4, v6).len() == 0,
        cnames.contains(name),
    ensures
        !v4.contains(name),
        !v6.contains(name),
    decreases cnames.len(),
{
    let j = cnames.index_of(name);
    if j == cnames.len() - 1 {
        assert(cnames.last() == name);
    } else {
        assert(cnames.drop_last()[j] == name);
        lemma_no_conflict(scope, cnames.drop_last(), v4, v6, name);
    }
}

proof fn lemma_valid_domain_is_named(s: Seq<char>)
    requires
        fqdn_syntax(trimmed(s)),
    ensures
        canonical(s).len() > 0,
{
    let t = trimmed(s);
    crate::domain::lemma_trimmed_twice(s);
    assert(undotted(t).len() > 0);
    assert(lowered(undotted(t)).len() == undotted(t).len());
}

/// A scope of local records that validates without a message is sound: each
/// record can be served, no two records share a name and a type, no name
/// holds a CNAME beside another record, and no chain of CNAMEs returns to
/// where it began.
pub proof fn clean_local_records_are_sound(
    records: Seq<LocalDnsRecord>,
    scope: Seq<char>,
    before: Seq<Seq<char>>,
)
    requires
        local_records_report(records, scope, before, before),
    ensures
        forall|i: int| 0 <= i < records.len() ==> sound_record(#[trigger] records[i]),
        forall|i: int, j: int|
            0 <= i < j < records.len() ==> compatible(#[trigger] records[i], #[trigger] records[j]),
        forall|name: Seq<char>| !on_cycle(cname_edges(records), name),
{
    let n = records.len();
    let cn = names_seen(records, n, LocalDnsRecordType::CNAME);
    let v4 = names_seen(records, n, LocalDnsRecordType::A);
    let v6 = names_seen(records, n, LocalDnsRecordType::AAAA);
    let errs = record_errors(records, scope, n);
    let conf = conflict_errors(scope, cn, v4, v6);
    let most = before + errs + conf;
    assert(most.len() == before.len() + errs.len() + conf.len());
    assert(errs.len() == 0 && conf.len() == 0);
    assert forall|i: int| 0 <= i < records.len() implies sound_record(#[trigger] records[i]) by {
        lemma_errors_cover(records, scope, n, i as nat);
    }
    assert forall|i: int, j: int| 0 <= i < j < records.len() implies compatible(
        #[trigger] records[i],
        #[trigger] records[j],
    ) by {
        let a = records[i];
        let b = records[j];
        let name = canonical(a.domain@);
        assert(sound_record(a));
        assert(sound_record(b));
        if name == canonical(b.domain@) {
            lemma_valid_domain_is_named(a.domain@);
            if a.record_type == b.record_type {
                lemma_errors_cover(records, scope, n, j as nat);
                lemma_names_seen_has(records, j as nat, a.record_type, i);
            } else {
                lemma_names_seen_has(records, n, a.record_type, i);
                lemma_names_seen_has(records, n, b.record_type, j);
                if cn.contains(name) {
                    lemma_no_conflict(scope, cn, v4, v6, name);
                }
            }
        }
    }
}

/// A scope of local records is sound: each record can be served, any two may
/// stand beside each other, and no chain of CNAMEs returns to where it began.
pub open spec fn sound_scope(records: Seq<LocalDnsRecord>) -> bool {
    &&& forall|i: int| 0 <= i < records.len() ==> sound_record(#[trigger] records[i])
    &&& forall|i: int, j: int|
        0 <= i < j < records.len() ==> compatible(#[trigger] records[i], #[trigger] records[j])
    &&& forall|name: Seq<char>| !#[trigger] on_cycle(cname_edges(records), name)
}

proof fn lemma_names_seen_from(
    records: Seq<LocalDnsRecord>,
    n: nat,
    kind: LocalDnsRecordType,
    name: Seq<char>,
)
    requires
        n <= records.len(),
        names_seen(records, n, kind).contains(name),
    ensures
        exists|i: int|
            0 <= i < n && (#[trigger] records[i]).record_type == kind && canonical(
                records[i].domain@,
            ) == name,
    decreases n,
{
    if n > 0 {
        let before = names_seen(records, (n - 1) as nat, kind);
        if before.contains(name) {
            lemma_names_seen_from(records, (n - 1) as nat, kind, name);
        } else {
            let all = names_seen(records, n, kind);
            let k = all.index_of(name);
            assert(all[k] == name);
            if k < before.len() {
                assert(before[k] == name);
            }
            assert(records[n - 1].record_type == kind);
        }
    }
}

proof fn lemma_no_errors(records: Seq<LocalDnsRecord>, scope: Seq<char>, n: nat)
    requires
        n <= records.len(),
        sound_scope(records),
    ensures
        record_errors(records, scope, n).len() == 0,
    decreases n,
{
    if n > 0 {
        let i = (n - 1) as nat;
        lemma_no_errors(records, scope, i);
        let rec = records[i as int];
        let name = canonical(rec.domain@);
        assert(sound_record(rec));
        if names_seen(records, i, rec.record_type).contains(name) {
            lemma_names_seen_from(records, i, rec.record_type, name);
            let j = choose|j: int|
                0 <= j < i && (#[trigger] records[j]).record_type == rec.record_type && canonical(
                    records[j].domain@,
                ) == name;
            assert(compatible(records[j], records[i as int]));
        }
        assert(errors_at(records, i, scope).len() == 0);
    }
}

proof fn lemma_no_conflicts(
    scope: Seq<char>,
    cnames: Seq<Seq<char>>,
    v4: Seq<Seq<char>>,
    v6: Seq<Seq<char>>,
)
    requires
        forall|name: Seq<char>|
            cnames.contains(name) ==> !#[trigger] v4.contains(name) && !v6.contains(name),
    ensures
        conflict_errors(scope, cnames, v4, v6).len() == 0,
    decreases cnames.len(),
{
    if cnames.len() > 0 {
        let rest = cnames.drop_last();
        assert forall|name: Seq<char>| rest.contains(name) implies !#[trigger] v4.contains(name)
            && !v6.contains(name) by {
            let k = rest.index_of(name);
            assert(cnames[k] == name);
        }
        lemma_no_conflicts(scope, rest, v4, v6);
        assert(cnames.contains(cnames.last()));
        assert(!v4.contains(cnames.last()));
    }
}

/// A sound scope of local records validates silently.
pub proof fn sound_local_records_are_clean(
    records: Seq<LocalDnsRecord>,
    scope: Seq<char>,
    before: Seq<Seq<char>>,
    after: Seq<Seq<char>>,
)
    requires
        sound_scope(records),
        local_records_report(records, scope, before, after),
    ensures
        after == before,
{
    let n = records.len();
    let cn = names_seen(records, n, LocalDnsRecordType::CNAME);
    let v4 = names_seen(records, n, LocalDnsRecordType::A);
    let v6 = names_seen(records, n, LocalDnsRecordType::AAAA);
    lemma_no_errors(records, scope, n);
    assert forall|name: Seq<char>| cn.contains(name) implies !#[trigger] v4.contains(name)
        && !v6.contains(name) by {
        lemma_names_seen_from(records, n, LocalDnsRecordType::CNAME, name);
        let i = choose|i: int|
            0 <= i < n && (#[trigger] records[i]).record_type == LocalDnsRecordType::CNAME
                && canonical(records[i].domain@) == name;
        if v4.contains(name) {
            lemma_names_seen_from(records, n, LocalDnsRecordType::A, name);
            let j = choose|j: int|
                0 <= j < n && (#[trigger] records[j]).record_type == LocalDnsRecordType::A
                    && canonical(records[j].domain@) == name;
            assert(compatible(records[i], records[j]) || compatible(records[j], records[i]));
        }
        if v6.contains(name) {
            lemma_names_seen_from(records, n, LocalDnsRecordType::AAAA, name);
            let j = choose|j: int|
                0 <= j < n && (#[trigger] records[j]).record_type == LocalDnsRecordType::AAAA
                    && canonical(records[j].domain@) == name;
            assert(compatible(records[i], records[j]) || compatible(records[j], records[i]));
        }
    }
    lemma_no_conflicts(scope, cn, v4, v6);
    let most = before + record_errors(records, scope, n) + conflict_errors(scope, cn, v4, v6);
    assert(most =~= before);
}

/// Some items of a list, by their positions, in any order.
pub open spec fn picked<T>(items: Seq<T>, kept: Seq<int>) -> Seq<T> {
    Seq::new(kept.len(), |k: int| items[kept[k]])
}

/// `kept` picks items of a list of `n`, none of them twice.
pub open spec fn picks_from(kept: Seq<int>, n: int) -> bool {
    &&& kept.no_duplicates()
    &&& forall|k: int| 0 <= k < kept.len() ==> 0 <= #[trigger] kept[k] < n
}

/// The record leads from one name to another.
pub open spec fn leads_on(rec: LocalDnsRecord, from: Seq<char>, to: Seq<char>) -> bool {
    &&& rec.record_type == LocalDnsRecordType::CNAME
    &&& canonical(rec.domain@) == from && from.len() > 0
    &&& canonical(rec.value@) == to && to.len() > 0
}

proof fn lemma_cname_from(records: Seq<LocalDnsRecord>, name: Seq<char>)
    requires
        successor(cname_edges(records), name) is Some,
    ensures
        exists|i: int|
            0 <= i < records.len() && leads_on(
                #[trigger] records[i],
                name,
                successor(cname_edges(records), name)->0,
            ),
    decreases records.len(),
{
    if records.len() > 0 {
        let prior = records.drop_last();
        let rec = records.last();
        let edge = (canonical(rec.domain@), canonical(rec.value@));
        lemma_successor_push(cname_edges(prior), edge, name);
        if successor(cname_edges(prior), name) is Some {
            lemma_cname_from(prior, name);
            let i = choose|i: int|
                0 <= i < prior.len() && leads_on(
                    #[trigger] prior[i],
                    name,
                    successor(cname_edges(prior), name)->0,
                );
            assert(records[i] == prior[i]);
        } else {
            assert(leads_on(records[records.len() - 1], name, edge.1));
        }
    }
}

proof fn lemma_cname_leads(
    records: Seq<LocalDnsRecord>,
    i: int,
    from: Seq<char>,
    to: Seq<char>,
)
    requires
        0 <= i < records.len(),
        leads_on(records[i], from, to),
        forall|a: int, b: int|
            0 <= a < b < records.len() ==> compatible(#[trigger] records[a], #[trigger] records[b]),
    ensures
        successor(cname_edges(records), from) == Some(to),
    decreases records.len(),
{
    let prior = records.drop_last();
    let rec = records.last();
    let edge = (canonical(rec.domain@), canonical(rec.value@));
    lemma_successor_push(cname_edges(prior), edge, from);
    if i < prior.len() {
        assert(prior[i] == records[i]);
        assert forall|a: int, b: int| 0 <= a < b < prior.len() implies compatible(
            #[trigger] prior[a],
            #[trigger] prior[b],
        ) by {
            assert(compatible(records[a], records[b]));
        }
        lemma_cname_leads(prior, i, from, to);
    } else if successor(cname_edges(prior), from) is Some {
        lemma_cname_from(prior, from);
        let j = choose|j: int|
            0 <= j < prior.len() && leads_on(
                #[trigger] prior[j],
                from,
                successor(cname_edges(prior), from)->0,
            );
        assert(prior[j] == records[j]);
        assert(compatible(records[j], records[i]));
    }
}

/// A clean scope of local records stays clean when records are removed or
/// put in another order.
pub proof fn clean_local_records_stay_clean(
    records: Seq<LocalDnsRecord>,
    scope: Seq<char>,
    before: Seq<Seq<char>>,
    kept: Seq<int>,
    after: Seq<Seq<char>>,
)
    requires
        local_records_report(records, scope, before, before),
        picks_from(kept, records.len() as int),
        local_records_report(picked(records, kept), scope, before, after),
    ensures
        after == before,
{
    clean_local_records_are_sound(records, scope, before);
    let part = picked(records, kept);
    assert forall|i: int| 0 <= i < part.len() implies sound_record(#[trigger] part[i]) by {
        assert(sound_record(records[kept[i]]));
    }
    assert forall|i: int, j: int| 0 <= i < j < part.len() implies compatible(
        #[trigger] part[i],
        #[trigger] part[j],
    ) by {
        let a = kept[i];
        let b = kept[j];
        assert(a != b);
        assert(compatible(records[a], records[b]) || compatible(records[b], records[a]));
    }
    let few = cname_edges(part);
    let all = cname_edges(records);
    assert forall|x: Seq<char>| (#[trigger] successor(few, x)) is Some implies successor(all, x)
        == successor(few, x) by {
        lemma_cname_from(part, x);
        let to = successor(few, x)->0;
        let i = choose|i: int| 0 <= i < part.len() && leads_on(#[trigger] part[i], x, to);
        lemma_cname_leads(records, kept[i], x, to);
    }
    lemma_fewer_rules_stay_acyclic(few, all);
    sound_local_records_are_clean(part, scope, before, after);
}

/// Validation only adds messages: what was reported before stays in front.
pub proof fn validation_keeps_earlier_errors(
    records: Seq<LocalDnsRecord>,
    scope: Seq<char>,
    before: Seq<Seq<char>>,
    after: Seq<Seq<char>>,
)
    requires
        local_records_report(records, scope, before, after),
    ensures
        before.is_prefix_of(after),
{
}

/// A rewrite rule that may take effect: both names valid and not reserved,
/// different from each other, and no wildcard over a public suffix.
pub open spec fn sound_rule(rule: RewriteRule) -> bool {
    &&& fqdn_syntax(trimmed(rule.from@))
    &&& fqdn_syntax(trimmed(rule.to@))
    &&& rule.match_subdomains ==> !public_suffix(canonical(rule.from@))
    &&& !reserved_tld(canonical(rule.from@))
    &&& !reserved_tld(canonical(rule.to@))
    &&& canonical(rule.from@) != canonical(rule.to@)
}

proof fn lemma_rule_errors_cover(rules: Seq<RewriteRule>, scope: Seq<char>, n: nat, i: nat)
    requires
        i < n,
        rule_errors(rules, scope, n).len() == 0,
    ensures
        rule_errors_at(rules, i, scope).len() == 0,
    decreases n,
{
    if i < n - 1 {
        lemma_rule_errors_cover(rules, scope, (n - 1) as nat, i);
    }
}

/// A list of rewrite rules that validates without an error is sound: each
/// rule may take effect, no two rules have the same source and the same
/// wildcard flag, and no chain of exact rewrites returns to where it began.
pub proof fn clean_rewrite_rules_are_sound(
    rules: Seq<RewriteRule>,
    scope: Seq<char>,
    before: Seq<Seq<char>>,
)
    requires
        rewrite_rules_report(rules, scope, before, before),
    ensures
        forall|i: int| 0 <= i < rules.len() ==> sound_rule(#[trigger] rules[i]),
        forall|i: int, j: int|
            0 <= i < j < rules.len() && canonical((#[trigger] rules[i]).from@) == canonical(
                (#[trigger] rules[j]).from@,
            ) ==> rules[i].match_subdomains != rules[j].match_subdomains,
        forall|name: Seq<char>| !on_cycle(rewrite_edges(rules), name),
{
    let n = rules.len();
    let errs = rule_errors(rules, scope, n);
    assert((before + errs).len() == before.len() + errs.len());
    assert(errs.len() == 0);
    assert forall|i: int| 0 <= i < rules.len() implies sound_rule(#[trigger] rules[i]) by {
        lemma_rule_errors_cover(rules, scope, n, i as nat);
        if fqdn_syntax(trimmed(rules[i].from@)) {
            lemma_valid_domain_is_named(rules[i].from@);
        }
    }
    assert forall|i: int, j: int|
        0 <= i < j < rules.len() && canonical((#[trigger] rules[i]).from@) == canonical(
            (#[trigger] rules[j]).from@,
        ) implies rules[i].match_subdomains != rules[j].match_subdomains by {
        lemma_rule_errors_cover(rules, scope, n, j as nat);
        assert(sound_rule(rules[j]));
        lemma_valid_domain_is_named(rules[j].from@);
        if rules[i].match_subdomains == rules[j].match_subdomains {
            assert(repeats_rule(rules, j as nat));
        }
    }
}

/// A list of rewrite rules is sound: each rule may take effect, no two rules
/// have the same source and the same wildcard flag, and no chain of exact
/// rewrites returns to where it began.
pub open spec fn sound_rules(rules: Seq<RewriteRule>) -> bool {
    &&& forall|i: int| 0 <= i < rules.len() ==> sound_rule(#[trigger] rules[i])
    &&& forall|i: int, j: int|
        0 <= i < j < rules.len() ==> distinct_rules(#[trigger] rules[i], #[trigger] rules[j])
    &&& forall|name: Seq<char>| !#[trigger] on_cycle(rewrite_edges(rules), name)
}

/// Two rules differ in their source or in their wildcard flag.
pub open spec fn distinct_rules(a: RewriteRule, b: RewriteRule) -> bool {
    canonical(a.from@) == canonical(b.from@) ==> a.match_subdomains != b.match_subdomains
}

proof fn lemma_no_rule_errors(rules: Seq<RewriteRule>, scope: Seq<char>, n: nat)
    requires
        n <= rules.len(),
        sound_rules(rules),
    ensures
        rule_errors(rules, scope, n).len() == 0,
    decreases n,
{
    if n > 0 {
        let i = (n - 1) as nat;
        lemma_no_rule_errors(rules, scope, i);
        assert(sound_rule(rules[i as int]));
        if repeats_rule(rules, i) {
            let name = canonical(rules[i as int].from@);
            let j = choose|j: int|
                0 <= j < i && canonical((#[trigger] rules[j]).from@) == name
                    && rules[j].match_subdomains == rules[i as int].match_subdomains;
            assert(distinct_rules(rules[j], rules[i as int]));
        }
        assert(rule_errors_at(rules, i, scope).len() == 0);
    }
}

/// A sound list of rewrite rules validates silently.
pub proof fn sound_rewrite_rules_are_clean(
    rules: Seq<RewriteRule>,
    scope: Seq<char>,
    before: Seq<Seq<char>>,
    after: Seq<Seq<char>>,
)
    requires
        sound_rules(rules),
        rewrite_rules_report(rules, scope, before, after),
    ensures
        after == before,
{
    lemma_no_rule_errors(rules, scope, rules.len());
    assert(before + rule_errors(rules, scope, rules.len()) =~= before);
}

/// The rule rewrites one name to another, and no name below it.
pub open spec fn rewrites(rule: RewriteRule, from: Seq<char>, to: Seq<char>) -> bool {
    &&& !rule.match_subdomains
    &&& canonical(rule.from@) == from && from.len() > 0
    &&& canonical(rule.to@) == to && to.len() > 0
}

proof fn lemma_rewrite_from(rules: Seq<RewriteRule>, name: Seq<char>)
    requires
        successor(rewrite_edges(rules), name) is Some,
    ensures
        exists|i: int|
            0 <= i < rules.len() && rewrites(
                #[trigger] rules[i],
                name,
                successor(rewrite_edges(rules), name)->0,
            ),
    decreases rules.len(),
{
    if rules.len() > 0 {
        let prior = rules.drop_last();
        let rule = rules.last();
        let edge = (canonical(rule.from@), canonical(rule.to@));
        lemma_successor_push(rewrite_edges(prior), edge, name);
        if successor(rewrite_edges(prior), name) is Some {
            lemma_rewrite_from(prior, name);
            let i = choose|i: int|
                0 <= i < prior.len() && rewrites(
                    #[trigger] prior[i],
                    name,
                    successor(rewrite_edges(prior), name)->0,
                );
            assert(rules[i] == prior[i]);
        } else {
            assert(rewrites(rules[rules.len() - 1], name, edge.1));
        }
    }
}

proof fn lemma_rewrite_leads(rules: Seq<RewriteRule>, i: int, from: Seq<char>, to: Seq<char>)
    requires
        0 <= i < rules.len(),
        rewrites(rules[i], from, to),
        forall|a: int, b: int|
            0 <= a < b < rules.len() ==> distinct_rules(#[trigger] rules[a], #[trigger] rules[b]),
    ensures
        successor(rewrite_edges(rules), from) == Some(to),
    decreases rules.len(),
{
    let prior = rules.drop_last();
    let rule = rules.last();
    let edge = (canonical(rule.from@), canonical(rule.to@));
    lemma_successor_push(rewrite_edges(prior), edge, from);
    if i < prior.len() {
        assert(prior[i] == rules[i]);
        assert forall|a: int, b: int| 0 <= a < b < prior.len() implies distinct_rules(
            #[trigger] prior[a],
            #[trigger] prior[b],
        ) by {
            assert(distinct_rules(rules[a], rules[b]));
        }
        lemma_rewrite_leads(prior, i, from, to);
    } else if successor(rewrite_edges(prior), from) is Some {
        lemma_rewrite_from(prior, from);
        let j = choose|j: int|
            0 <= j < prior.len() && rewrites(
                #[trigger] prior[j],
                from,
                successor(rewrite_edges(prior), from)->0,
            );
        assert(prior[j] == rules[j]);
        assert(distinct_rules(rules[j], rules[i]));
    }
}

/// A clean list of rewrite rules stays clean when rules are removed or put in
/// another order.
pub proof fn clean_rewrite_rules_stay_clean(
    rules: Seq<RewriteRule>,
    scope: Seq<char>,
    before: Seq<Seq<char>>,
    kept: Seq<int>,
    after: Seq<Seq<char>>,
)
    requires
        rewrite_rules_report(rules, scope, before, before),
        picks_from(kept, rules.len() as int),
        rewrite_rules_report(picked(rules, kept), scope, before, after),
    ensures
        after == before,
{
    clean_rewrite_rules_are_sound(rules, scope, before);
    let part = picked(rules, kept);
    assert forall|i: int, j: int| 0 <= i < j < rules.len() implies distinct_rules(
        #[trigger] rules[i],
        #[trigger] rules[j],
    ) by {}
    assert forall|i: int| 0 <= i < part.len() implies sound_rule(#[trigger] part[i]) by {
        assert(sound_rule(rules[kept[i]]));
    }
    assert forall|i: int, j: int| 0 <= i < j < part.len() implies distinct_rules(
        #[trigger] part[i],
        #[trigger] part[j],
    ) by {
        let a = kept[i];
        let b = kept[j];
        assert(a != b);
        assert(distinct_rules(rules[a], rules[b]) || distinct_rules(rules[b], rules[a]));
    }
    let few = rewrite_edges(part);
    let all = rewrite_edges(rules);
    assert forall|x: Seq<char>| (#[trigger] successor(few, x)) is Some implies successor(all, x)
        == successor(few, x) by {
        lemma_rewrite_from(part, x);
        let to = successor(few, x)->0;
        let i = choose|i: int| 0 <= i < part.len() && rewrites(#[trigger] part[i], x, to);
        lemma_rewrite_leads(rules, kept[i], x, to);
    }
    lemma_fewer_rules_stay_acyclic(few, all);
    sound_rewrite_rules_are_clean(part, scope, before, after);
}

} // verus!
