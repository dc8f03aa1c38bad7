//! What holds of every lookup of local records.
use vstd::prelude::*;
use crate::answer::{
    below, entry_record, first_cname, lemma_parent_shorter, lookup_key, of_type, parent,
    pointer_of, pointers, row_answer, servable, served, wildcard_type, wildcards,
};
use crate::domain::{canonical, lemma_trimmed_twice};
use crate::local::{looked_up, nearest_wildcard, pointer_apex, tables_for, LocalTables, LookupV};
use crate::local_profile::{profile_answer, profile_tables, wildcard_answer, ProfileTables};
use crate::record::{parsed_name, type_of, NameV, RDataV, RecordType, RecordV};
use crate::settings::{LocalDnsRecord, LocalDnsRecordType};
use crate::validator_laws::sound_record;

verus! {

pub proof fn lemma_below_steps(name: Seq<char>, b: Seq<char>)
    requires
        below(name, b),
    ensures
        parent(name) is Some,
        b == parent(name)->0 || below(parent(name)->0, b),
{
    lemma_parent_shorter(name);
    let k = name.len() - b.len();
    assert(name[k - 1] == '.');
    let p = parent(name)->0;
    let m = name.len() - p.len();
    assert(m <= k);
    if m == k {
        assert(b == p);
    } else {
        assert(p.skip(k - m) =~= name.skip(k));
        assert(p[k - m - 1] == name[k - 1]);
    }
}

proof fn lemma_parent_is_above(name: Seq<char>)
    ensures
        parent(name) matches Some(p) ==> below(name, p),
{
    lemma_parent_shorter(name);
}

pub proof fn lemma_below_transitive(a: Seq<char>, b: Seq<char>, c: Seq<char>)
    requires
        below(a, b),
        below(b, c),
    ensures
        below(a, c),
{
    let i = a.len() - b.len();
    let j = b.len() - c.len();
    assert(a.skip(i).skip(j) =~= a.skip(i + j));
    assert(a.skip(i)[j - 1] == a[i + j - 1]);
}

/// The longest matching wildcard wins: the apex found for a name lies above
/// it, and no longer apex lies above it. Where none is found, none lies above.
pub proof fn longest_wildcard_wins(wild: Map<Seq<char>, Seq<RecordV>>, name: Seq<char>)
    ensures
        match nearest_wildcard(wild, name) {
            Some(apex) => wild.contains_key(apex) && below(name, apex) && forall|b: Seq<char>|
                #[trigger] wild.contains_key(b) && below(name, b) ==> b.len() <= apex.len(),
            None => forall|b: Seq<char>| #[trigger] wild.contains_key(b) ==> !below(name, b),
        },
    decreases name.len(),
{
    lemma_parent_shorter(name);
    match parent(name) {
        None => {
            assert forall|b: Seq<char>| #[trigger] wild.contains_key(b) implies !below(name, b) by {
                if below(name, b) {
                    lemma_below_steps(name, b);
                }
            }
        },
        Some(p) => {
            lemma_parent_is_above(name);
            if wild.contains_key(p) {
                assert forall|b: Seq<char>| #[trigger] wild.contains_key(b) && below(
                    name,
                    b,
                ) implies b.len() <= p.len() by {
                    lemma_below_steps(name, b);
                }
            } else {
                longest_wildcard_wins(wild, p);
                assert forall|b: Seq<char>| #[trigger] wild.contains_key(b) && below(
                    name,
                    b,
                ) implies below(p, b) by {
                    lemma_below_steps(name, b);
                }
                match nearest_wildcard(wild, p) {
                    Some(apex) => lemma_below_transitive(name, p, apex),
                    None => {},
                }
            }
        },
    }
}

/// An exact name beats every wildcard: what the wildcards hold makes no
/// difference to a name that is itself defined.
pub proof fn exact_name_beats_wildcards(
    t: LocalTables,
    other: Map<Seq<char>, Seq<RecordV>>,
    domain: Seq<char>,
    qtype: RecordType,
)
    requires
        t.forward.contains_key(domain),
    ensures
        looked_up(t, domain, qtype) == looked_up(
            (LocalTables {
                forward: t.forward,
                wildcard: other,
                reverse: t.reverse,
                ttl: t.ttl,
                nodata: t.nodata,
            }),
            domain,
            qtype,
        ),
{
}

/// A locally defined name does not leak: with answers for missing types
/// enabled, a probe of it is never a miss.
pub proof fn defined_names_do_not_leak(t: LocalTables, domain: Seq<char>, qtype: RecordType)
    requires
        t.nodata,
        t.forward.contains_key(domain),
    ensures
        looked_up(t, domain, qtype) !is Miss,
{
}

proof fn lemma_of_type_owned(records: Seq<RecordV>, qtype: RecordType, owner: NameV)
    ensures
        forall|i: int|
            0 <= i < of_type(records, qtype, Some(owner)).len() ==> (#[trigger] of_type(
                records,
                qtype,
                Some(owner),
            )[i]).name == owner,
    decreases records.len(),
{
    if records.len() > 0 {
        lemma_of_type_owned(records.drop_last(), qtype, owner);
    }
}

proof fn lemma_of_type_typed(records: Seq<RecordV>, qtype: RecordType, owner: Option<NameV>)
    ensures
        forall|i: int|
            0 <= i < of_type(records, qtype, owner).len() ==> type_of(
                (#[trigger] of_type(records, qtype, owner)[i]).data,
            ) == qtype,
    decreases records.len(),
{
    if records.len() > 0 {
        lemma_of_type_typed(records.drop_last(), qtype, owner);
    }
}

/// A wildcard answer is owned by the queried name: the first record of the
/// answer, and with it every record that is not behind a CNAME.
pub proof fn wildcard_answers_are_owned_by_the_query(
    forward: Map<Seq<char>, Seq<RecordV>>,
    records: Seq<RecordV>,
    qtype: RecordType,
    owner: NameV,
)
    requires
        row_answer(forward, records, qtype, Some(owner)) is Some,
    ensures
        ({
            let out = row_answer(forward, records, qtype, Some(owner))->0;
            &&& out.len() > 0
            &&& out[0].name == owner
            &&& type_of(out[0].data) == qtype ==> forall|i: int|
                0 <= i < out.len() ==> (#[trigger] out[i]).name == owner
        }),
{
    lemma_of_type_owned(records, qtype, owner);
    lemma_of_type_typed(records, qtype, Some(owner));
    lemma_first_cname_typed(records);
}

proof fn lemma_first_cname_typed(records: Seq<RecordV>)
    ensures
        first_cname(records) matches Some(rec) ==> type_of(rec.data) == RecordType::CNAME,
    decreases records.len(),
{
    if records.len() > 0 {
        lemma_first_cname_typed(records.drop_last());
    }
}

/// Every record of an answer has the queried type, or is the CNAME that leads
/// to it.
pub proof fn answers_have_the_queried_type(
    forward: Map<Seq<char>, Seq<RecordV>>,
    records: Seq<RecordV>,
    qtype: RecordType,
    owner: Option<NameV>,
)
    requires
        row_answer(forward, records, qtype, owner) is Some,
    ensures
        ({
            let out = row_answer(forward, records, qtype, owner)->0;
            &&& forall|i: int|
                1 <= i < out.len() ==> type_of((#[trigger] out[i]).data) == qtype
            &&& type_of(out[0].data) == qtype || type_of(out[0].data) == RecordType::CNAME
        }),
{
    lemma_of_type_typed(records, qtype, owner);
    lemma_first_cname_typed(records);
    match first_cname(records) {
        Some(rec) => match rec.data {
            RDataV::CNAME(target) => {
                let tail_row = crate::answer::row(forward, lookup_key(target));
                lemma_of_type_typed(tail_row, qtype, None);
                let tail = of_type(tail_row, qtype, None);
                let out = row_answer(forward, records, qtype, owner)->0;
                assert forall|i: int| 1 <= i < out.len() implies type_of((#[trigger] out[i]).data)
                    == qtype by {
                    if of_type(records, qtype, owner).len() == 0 {
                        assert(out[i] == tail[i - 1]);
                    }
                }
            },
            _ => {},
        },
        None => {},
    }
}

proof fn lemma_served_has(entries: Seq<LocalDnsRecord>, ttl: u32, i: int)
    requires
        0 <= i < entries.len(),
        entry_record(entries[i], ttl) is Some,
    ensures
        served(entries, ttl, canonical(entries[i].domain@)).contains(
            entry_record(entries[i], ttl)->0,
        ),
    decreases entries.len(),
{
    let key = canonical(entries[i].domain@);
    let rec = entry_record(entries[i], ttl)->0;
    let rest = served(entries.drop_last(), ttl, key);
    let all = served(entries, ttl, key);
    if i < entries.len() - 1 {
        lemma_served_has(entries.drop_last(), ttl, i);
        let j = rest.index_of(rec);
        assert(all[j] == rec);
    } else {
        assert(all[all.len() - 1] == rec);
    }
}

proof fn lemma_of_type_has(records: Seq<RecordV>, qtype: RecordType, rec: RecordV)
    requires
        records.contains(rec),
        type_of(rec.data) == qtype,
    ensures
        of_type(records, qtype, None).contains(rec),
    decreases records.len(),
{
    let j = records.index_of(rec);
    let rest = of_type(records.drop_last(), qtype, None);
    let all = of_type(records, qtype, None);
    if j < records.len() - 1 {
        assert(records.drop_last()[j] == rec);
        lemma_of_type_has(records.drop_last(), qtype, rec);
        let k = rest.index_of(rec);
        assert(all[k] == rec);
    } else {
        assert(records.last() == rec);
        assert(all[all.len() - 1] == rec);
    }
}

/// The query type that a configured record type answers.
pub open spec fn query_type(kind: LocalDnsRecordType) -> RecordType {
    match kind {
        LocalDnsRecordType::A => RecordType::A,
        LocalDnsRecordType::AAAA => RecordType::AAAA,
        LocalDnsRecordType::CNAME => RecordType::CNAME,
    }
}

/// What is configured is served: a query for the name and the type of an
/// entry that has a record is a hit under that name, and the record is in the
/// answer.
pub proof fn configured_entries_answer(
    entries: Seq<LocalDnsRecord>,
    ttl: u32,
    nodata: bool,
    i: int,
)
    requires
        0 <= i < entries.len(),
        entry_record(entries[i], ttl) is Some,
    ensures
        ({
            let key = canonical(entries[i].domain@);
            let out = looked_up(
                tables_for(entries, ttl, nodata),
                key,
                query_type(entries[i].record_type),
            );
            &&& out is Hit
            &&& out->Hit_1 == key
            &&& out->Hit_0.contains(entry_record(entries[i], ttl)->0)
        }),
{
    let key = canonical(entries[i].domain@);
    let qtype = query_type(entries[i].record_type);
    let rec = entry_record(entries[i], ttl)->0;
    let t = tables_for(entries, ttl, nodata);
    lemma_served_has(entries, ttl, i);
    let row = served(entries, ttl, key);
    assert(row.len() > 0);
    assert(t.forward.contains_key(key));
    assert(t.forward[key] == row);
    lemma_of_type_has(row, qtype, rec);
    assert(of_type(row, qtype, None).len() > 0);
}

/// A record that validates can be served: the validator and the tables agree
/// on what a usable spelling is.
pub proof fn sound_records_are_servable(rec: LocalDnsRecord)
    requires
        sound_record(rec),
    ensures
        servable(rec),
{
    lemma_trimmed_twice(rec.domain@);
    lemma_trimmed_twice(rec.value@);
}

proof fn lemma_wildcard_is_forward(entries: Seq<LocalDnsRecord>, ttl: u32, key: Seq<char>)
    ensures
        served(wildcards(entries), ttl, key).len() > 0 ==> served(entries, ttl, key).len() > 0,
    decreases entries.len(),
{
    if entries.len() > 0 {
        lemma_wildcard_is_forward(entries.drop_last(), ttl, key);
        let w = wildcards(entries);
        if entries.last().match_subdomains {
            assert(w.drop_last() =~= wildcards(entries.drop_last()));
            assert(w.last() == entries.last());
        }
    }
}

proof fn lemma_served_is_configured(entries: Seq<LocalDnsRecord>, ttl: u32, key: Seq<char>)
    requires
        served(entries, ttl, key).len() > 0,
    ensures
        exists|i: int|
            0 <= i < entries.len() && canonical((#[trigger] entries[i]).domain@) == key,
    decreases entries.len(),
{
    let last = entries.last();
    if entry_record(last, ttl) is Some && canonical(last.domain@) == key {
        assert(canonical(entries[entries.len() - 1].domain@) == key);
    } else {
        lemma_served_is_configured(entries.drop_last(), ttl, key);
        let i = choose|i: int|
            0 <= i < entries.drop_last().len() && canonical(
                (#[trigger] entries.drop_last()[i]).domain@,
            ) == key;
        assert(canonical(entries[i].domain@) == key);
    }
}

/// The name that a hit is counted under is one that the operator configured,
/// however many names below a wildcard are queried. A reverse hit is counted
/// under the name that its record points to.
pub proof fn hits_are_counted_under_configured_names(
    entries: Seq<LocalDnsRecord>,
    ttl: u32,
    nodata: bool,
    domain: Seq<char>,
    qtype: RecordType,
)
    ensures
        looked_up(tables_for(entries, ttl, nodata), domain, qtype) matches LookupV::Hit(out, apex)
            ==> (exists|i: int|
            0 <= i < entries.len() && canonical((#[trigger] entries[i]).domain@) == apex) || (qtype
            == RecordType::PTR && apex == pointer_apex(out)),
{
    let t = tables_for(entries, ttl, nodata);
    match looked_up(t, domain, qtype) {
        LookupV::Hit(out, apex) => {
            longest_wildcard_wins(t.wildcard, domain);
            if t.forward.contains_key(domain) {
                lemma_served_is_configured(entries, ttl, domain);
            } else if wildcard_type(qtype) && nearest_wildcard(t.wildcard, domain) is Some {
                let a = nearest_wildcard(t.wildcard, domain)->0;
                assert(t.wildcard.contains_key(a));
                lemma_wildcard_is_forward(entries, ttl, a);
                lemma_served_is_configured(entries, ttl, a);
            }
        },
        _ => {},
    }
}

proof fn lemma_pointers_has(entries: Seq<LocalDnsRecord>, ttl: u32, i: int)
    requires
        0 <= i < entries.len(),
        entry_record(entries[i], ttl) is Some,
        pointer_of(entry_record(entries[i], ttl)->0) is Some,
    ensures
        ({
            let (key, ptr) = pointer_of(entry_record(entries[i], ttl)->0)->0;
            pointers(entries, ttl, key).contains(ptr)
        }),
    decreases entries.len(),
{
    let (key, ptr) = pointer_of(entry_record(entries[i], ttl)->0)->0;
    let rest = pointers(entries.drop_last(), ttl, key);
    let all = pointers(entries, ttl, key);
    if i < entries.len() - 1 {
        lemma_pointers_has(entries.drop_last(), ttl, i);
        let j = rest.index_of(ptr);
        assert(all[j] == ptr);
    } else {
        assert(all[all.len() - 1] == ptr);
    }
}

/// Every address has a way back: the reverse name of a configured address
/// record leads to the name of the record, unless that reverse name is itself
/// configured as a forward name.
pub proof fn addresses_have_reverse_records(
    entries: Seq<LocalDnsRecord>,
    ttl: u32,
    nodata: bool,
    i: int,
)
    requires
        0 <= i < entries.len(),
        entry_record(entries[i], ttl) is Some,
        pointer_of(entry_record(entries[i], ttl)->0) is Some,
        ({
            let (key, _) = pointer_of(entry_record(entries[i], ttl)->0)->0;
            !tables_for(entries, ttl, nodata).forward.contains_key(key)
        }),
    ensures
        ({
            let rec = entry_record(entries[i], ttl)->0;
            let (key, ptr) = pointer_of(rec)->0;
            let out = looked_up(tables_for(entries, ttl, nodata), key, RecordType::PTR);
            &&& out is Hit
            &&& out->Hit_0.contains(ptr)
            &&& ptr.data == RDataV::PTR(rec.name)
            &&& ptr.ttl == rec.ttl
        }),
{
    lemma_pointers_has(entries, ttl, i);
    let (key, ptr) = pointer_of(entry_record(entries[i], ttl)->0)->0;
    let t = tables_for(entries, ttl, nodata);
    assert(pointers(entries, ttl, key).len() > 0);
    assert(t.reverse.contains_key(key));
}

// ── Answers in full ───────────────────────────────────────────────────

/// The records of a row that have the queried type, in their order.
pub open spec fn matching(records: Seq<RecordV>, qtype: RecordType) -> Seq<RecordV> {
    records.filter(|r: RecordV| type_of(r.data) == qtype)
}

/// A record under another owner is the same record in all else.
pub open spec fn owned_by(rec: RecordV, owner: Option<NameV>, shown: RecordV) -> bool {
    &&& shown.name == match owner {
        Some(name) => name,
        None => rec.name,
    }
    &&& shown.ttl == rec.ttl
    &&& shown.dns_class == rec.dns_class
    &&& shown.data == rec.data
}

/// The data of a record tells its type.
pub proof fn data_tells_the_type(data: RDataV)
    ensures
        data is A ==> type_of(data) == RecordType::A,
        data is AAAA ==> type_of(data) == RecordType::AAAA,
        data is CNAME ==> type_of(data) == RecordType::CNAME,
        data is PTR ==> type_of(data) == RecordType::PTR,
        data is SOA ==> type_of(data) == RecordType::SOA,
        data is HINFO ==> type_of(data) == RecordType::HINFO,
        data matches RDataV::Other(t, _) ==> type_of(data) == t,
{
}

proof fn lemma_of_type_is_matching(records: Seq<RecordV>, qtype: RecordType, owner: Option<NameV>)
    ensures
        of_type(records, qtype, owner).len() == matching(records, qtype).len(),
        forall|i: int|
            0 <= i < matching(records, qtype).len() ==> owned_by(
                matching(records, qtype)[i],
                owner,
                #[trigger] of_type(records, qtype, owner)[i],
            ),
        owner is None ==> of_type(records, qtype, owner) == matching(records, qtype),
    decreases records.len(),
{
    reveal(Seq::filter);
    if records.len() > 0 {
        lemma_of_type_is_matching(records.drop_last(), qtype, owner);
    }
    if owner is None {
        assert(of_type(records, qtype, owner) =~= matching(records, qtype));
    }
}

proof fn lemma_matching_has(records: Seq<RecordV>, qtype: RecordType)
    ensures
        matching(records, qtype).len() == 0 <==> forall|i: int|
            0 <= i < records.len() ==> type_of((#[trigger] records[i]).data) != qtype,
    decreases records.len(),
{
    reveal(Seq::filter);
    if records.len() > 0 {
        let prior = records.drop_last();
        lemma_matching_has(prior, qtype);
        assert(forall|i: int| 0 <= i < prior.len() ==> prior[i] == #[trigger] records[i]);
        if matching(records, qtype).len() == 0 {
            assert forall|i: int| 0 <= i < records.len() implies type_of(
                (#[trigger] records[i]).data,
            ) != qtype by {
                if i < prior.len() {
                    assert(prior[i] == records[i]);
                }
            }
        } else if forall|i: int|
            0 <= i < records.len() ==> type_of((#[trigger] records[i]).data) != qtype {
            assert forall|i: int| 0 <= i < prior.len() implies type_of(
                (#[trigger] prior[i]).data,
            ) != qtype by {
                assert(prior[i] == records[i]);
            }
            assert(records[records.len() - 1] == records.last());
        }
    }
}

proof fn lemma_first_cname_at(records: Seq<RecordV>, i: int)
    requires
        0 <= i < records.len(),
        type_of(records[i].data) == RecordType::CNAME,
        forall|j: int| 0 <= j < i ==> type_of((#[trigger] records[j]).data) != RecordType::CNAME,
    ensures
        first_cname(records) == Some(records[i]),
    decreases records.len(),
{
    let prior = records.drop_last();
    if i < records.len() - 1 {
        assert forall|j: int| 0 <= j < i implies type_of((#[trigger] prior[j]).data)
            != RecordType::CNAME by {
            assert(prior[j] == records[j]);
        }
        assert(prior[i] == records[i]);
        lemma_first_cname_at(prior, i);
    } else {
        lemma_first_cname_none(prior);
    }
}

proof fn lemma_first_cname_none(records: Seq<RecordV>)
    ensures
        first_cname(records) is None <==> forall|j: int|
            0 <= j < records.len() ==> type_of((#[trigger] records[j]).data) != RecordType::CNAME,
    decreases records.len(),
{
    if records.len() > 0 {
        let prior = records.drop_last();
        lemma_first_cname_none(prior);
        assert(forall|j: int| 0 <= j < prior.len() ==> prior[j] == #[trigger] records[j]);
        if first_cname(records) is None {
            assert forall|j: int| 0 <= j < records.len() implies type_of(
                (#[trigger] records[j]).data,
            ) != RecordType::CNAME by {
                if j < prior.len() {
                    assert(prior[j] == records[j]);
                }
            }
        } else if forall|j: int|
            0 <= j < records.len() ==> type_of((#[trigger] records[j]).data) != RecordType::CNAME {
            assert forall|j: int| 0 <= j < prior.len() implies type_of((#[trigger] prior[j]).data)
                != RecordType::CNAME by {
                assert(prior[j] == records[j]);
            }
            assert(records[records.len() - 1] == records.last());
        }
    }
}

/// A row that holds records of the queried type answers with exactly those, in
/// their order and under the owner, whatever the type is.
pub proof fn rows_answer_with_all_they_hold(
    forward: Map<Seq<char>, Seq<RecordV>>,
    records: Seq<RecordV>,
    qtype: RecordType,
    owner: Option<NameV>,
    k: int,
)
    requires
        0 <= k < records.len(),
        type_of(records[k].data) == qtype,
    ensures
        row_answer(forward, records, qtype, owner) matches Some(out) && out.len() == matching(
            records,
            qtype,
        ).len() && out.len() > 0 && forall|i: int|
            0 <= i < out.len() ==> owned_by(matching(records, qtype)[i], owner, #[trigger] out[i]),
{
    lemma_of_type_is_matching(records, qtype, owner);
    lemma_matching_has(records, qtype);
}

/// An alias answers for both address families: a row that holds a CNAME and no
/// record of the queried family answers with that CNAME under the owner, and
/// behind it exactly the records of the family that the target holds.
pub proof fn aliases_answer_for_both_families(
    forward: Map<Seq<char>, Seq<RecordV>>,
    records: Seq<RecordV>,
    qtype: RecordType,
    owner: Option<NameV>,
    k: int,
)
    requires
        qtype == RecordType::A || qtype == RecordType::AAAA,
        0 <= k < records.len(),
        records[k].data is CNAME,
        forall|j: int| 0 <= j < k ==> type_of((#[trigger] records[j]).data) != RecordType::CNAME,
        forall|j: int| 0 <= j < records.len() ==> type_of((#[trigger] records[j]).data) != qtype,
    ensures
        ({
            let target = lookup_key(records[k].data->CNAME_0);
            let behind = if forward.contains_key(target) {
                matching(forward[target], qtype)
            } else {
                Seq::empty()
            };
            row_answer(forward, records, qtype, owner) matches Some(out) && out.len() == 1
                + behind.len() && owned_by(records[k], owner, out[0]) && out.skip(1) == behind
        }),
{
    lemma_of_type_is_matching(records, qtype, owner);
    lemma_matching_has(records, qtype);
    lemma_first_cname_at(records, k);
    let target = lookup_key(records[k].data->CNAME_0);
    let row = crate::answer::row(forward, target);
    lemma_of_type_is_matching(row, qtype, None);
    reveal(Seq::filter);
    let out = row_answer(forward, records, qtype, owner)->0;
    let behind = if forward.contains_key(target) {
        matching(forward[target], qtype)
    } else {
        Seq::empty()
    };
    assert(behind =~= of_type(row, qtype, None));
    assert(out.skip(1) =~= behind);
}

/// A row has no answer exactly if it holds no record of the queried type, and
/// for an address no alias either.
pub proof fn rows_without_a_record_or_alias_are_silent(
    forward: Map<Seq<char>, Seq<RecordV>>,
    records: Seq<RecordV>,
    qtype: RecordType,
    owner: Option<NameV>,
)
    requires
        forall|j: int|
            0 <= j < records.len() ==> ((#[trigger] records[j]).data is CNAME <==> type_of(
                records[j].data,
            ) == RecordType::CNAME),
    ensures
        row_answer(forward, records, qtype, owner) is None <==> (forall|j: int|
            0 <= j < records.len() ==> type_of((#[trigger] records[j]).data) != qtype) && ((qtype
            != RecordType::A && qtype != RecordType::AAAA) || forall|j: int|
            0 <= j < records.len() ==> !((#[trigger] records[j]).data is CNAME)),
{
    lemma_of_type_is_matching(records, qtype, owner);
    lemma_matching_has(records, qtype);
    lemma_first_cname_none(records);
    if first_cname(records) is Some {
        lemma_first_cname_is_held(records);
    }
}

proof fn lemma_first_cname_is_held(records: Seq<RecordV>)
    requires
        first_cname(records) is Some,
    ensures
        exists|j: int|
            0 <= j < records.len() && first_cname(records) == Some(#[trigger] records[j])
                && type_of(records[j].data) == RecordType::CNAME,
    decreases records.len(),
{
    if records.len() > 0 {
        let prior = records.drop_last();
        if first_cname(prior) is Some {
            lemma_first_cname_is_held(prior);
            let j = choose|j: int|
                0 <= j < prior.len() && first_cname(prior) == Some(#[trigger] prior[j]) && type_of(
                    prior[j].data,
                ) == RecordType::CNAME;
            assert(prior[j] == records[j]);
        } else {
            assert(records[records.len() - 1] == records.last());
        }
    }
}

/// The alias of a defined name is followed for A and for AAAA, in the global
/// records and in those of a profile: both queries are hits under that name.
pub proof fn defined_aliases_are_hits(
    t: LocalTables,
    p: ProfileTables,
    domain: Seq<char>,
    qtype: RecordType,
    k: int,
)
    requires
        qtype == RecordType::A || qtype == RecordType::AAAA,
        t.forward.contains_key(domain),
        p.forward == t.forward,
        0 <= k < t.forward[domain].len(),
        t.forward[domain][k].data is CNAME,
        forall|j: int|
            0 <= j < k ==> type_of((#[trigger] t.forward[domain][j]).data) != RecordType::CNAME,
        forall|j: int|
            0 <= j < t.forward[domain].len() ==> type_of((#[trigger] t.forward[domain][j]).data)
                != qtype,
    ensures
        ({
            let target = lookup_key(t.forward[domain][k].data->CNAME_0);
            let behind = if t.forward.contains_key(target) {
                matching(t.forward[target], qtype)
            } else {
                Seq::empty()
            };
            let out = seq![t.forward[domain][k]] + behind;
            &&& looked_up(t, domain, qtype) == LookupV::Hit(out, domain)
            &&& profile_answer(p, domain, qtype) == Some((out, domain))
        }),
{
    aliases_answer_for_both_families(t.forward, t.forward[domain], qtype, None, k);
    let target = lookup_key(t.forward[domain][k].data->CNAME_0);
    let behind = if t.forward.contains_key(target) {
        matching(t.forward[target], qtype)
    } else {
        Seq::empty()
    };
    let out = row_answer(t.forward, t.forward[domain], qtype, None)->0;
    assert(out =~= seq![t.forward[domain][k]] + behind);
}

/// A defined name answers with its own records of the queried type, whatever
/// type that is. Without any, an address query follows its alias, and any other
/// is told that there is no data, or passed on where that is switched off.
pub proof fn defined_names_answer_for_themselves(
    t: LocalTables,
    domain: Seq<char>,
    qtype: RecordType,
)
    requires
        t.forward.contains_key(domain),
    ensures
        ({
            let own = matching(t.forward[domain], qtype);
            let found = looked_up(t, domain, qtype);
            &&& own.len() > 0 ==> found == LookupV::Hit(own, domain)
            &&& own.len() == 0 && qtype != RecordType::A && qtype != RecordType::AAAA ==> found
                == if t.nodata {
                LookupV::NodataSynthesis(t.ttl)
            } else {
                LookupV::Miss
            }
            &&& own.len() == 0 && (forall|j: int|
                0 <= j < t.forward[domain].len() ==> type_of(
                    (#[trigger] t.forward[domain][j]).data,
                ) != RecordType::CNAME) ==> found == if t.nodata {
                LookupV::NodataSynthesis(t.ttl)
            } else {
                LookupV::Miss
            }
        }),
{
    lemma_of_type_is_matching(t.forward[domain], qtype, None);
    lemma_first_cname_none(t.forward[domain]);
}

/// A name that is not defined itself is answered for A, AAAA and CNAME by the
/// longest wildcard above it, under its own name; for PTR by the reverse table;
/// and for no other type. Where nothing is above it, it is a miss.
pub proof fn undefined_names_fall_to_wildcards_and_pointers(
    t: LocalTables,
    domain: Seq<char>,
    qtype: RecordType,
)
    requires
        !t.forward.contains_key(domain),
    ensures
        ({
            let found = looked_up(t, domain, qtype);
            let wild = qtype == RecordType::A || qtype == RecordType::AAAA || qtype
                == RecordType::CNAME;
            let above = exists|b: Seq<char>| #[trigger]
                t.wildcard.contains_key(b) && below(domain, b);
            &&& wild && above ==> exists|apex: Seq<char>| #[trigger]
                t.wildcard.contains_key(apex) && below(domain, apex) && (forall|b: Seq<char>|
                    #[trigger]
                    t.wildcard.contains_key(b) && below(domain, b) ==> b.len() <= apex.len()) && (
                match row_answer(
                    t.forward,
                    t.wildcard[apex],
                    qtype,
                    parsed_name(domain.push('.')),
                ) {
                    Some(out) => found == LookupV::Hit(out, apex),
                    None => found == if t.nodata {
                        LookupV::NodataSynthesis(t.ttl)
                    } else {
                        LookupV::Miss
                    },
                })
            &&& wild && !above ==> found is Miss
            &&& qtype == RecordType::PTR ==> if t.reverse.contains_key(domain) {
                found matches LookupV::Hit(out, _) && out == t.reverse[domain]
            } else {
                found is Miss
            }
            &&& !wild && qtype != RecordType::PTR ==> found is Miss
        }),
{
    longest_wildcard_wins(t.wildcard, domain);
    match nearest_wildcard(t.wildcard, domain) {
        Some(apex) => {
            assert(t.wildcard.contains_key(apex) && below(domain, apex));
        },
        None => {},
    }
}

/// A configured entry becomes a record of class IN with its own type, its own
/// TTL or that of its section, and the value that was written.
pub proof fn entries_become_the_records_they_spell(entry: LocalDnsRecord, default_ttl: u32)
    ensures
        entry_record(entry, default_ttl) matches Some(rec) ==> {
            &&& rec.dns_class == crate::record::DNSClass::IN
            &&& Some(rec.name) == parsed_name(canonical(entry.domain@).push('.'))
            &&& entry.ttl_secs matches Some(n) ==> rec.ttl == n
            &&& entry.ttl_secs is None ==> rec.ttl == default_ttl
            &&& type_of(rec.data) == query_type(entry.record_type)
            &&& entry.record_type == LocalDnsRecordType::A ==> (rec.data matches RDataV::A(ip)
                && crate::net::v4_of(entry.value@) == Some(ip))
            &&& entry.record_type == LocalDnsRecordType::AAAA ==> (rec.data matches RDataV::AAAA(
                ip,
            ) && crate::net::v6_of(entry.value@) == Some(ip))
            &&& entry.record_type == LocalDnsRecordType::CNAME ==> (
            rec.data matches RDataV::CNAME(to) && parsed_name(canonical(entry.value@).push('.'))
                == Some(to))
        },
{
}

/// The records under a name are those of the entries with that canonical name,
/// each of them, in the order of the configuration, and no others.
pub proof fn rows_hold_the_entries_of_their_name(
    entries: Seq<LocalDnsRecord>,
    ttl: u32,
    key: Seq<char>,
)
    ensures
        ({
            let own = entries.filter(
                |e: LocalDnsRecord| canonical(e.domain@) == key && entry_record(e, ttl) is Some,
            );
            &&& served(entries, ttl, key).len() == own.len()
            &&& forall|i: int|
                0 <= i < own.len() ==> Some(#[trigger] served(entries, ttl, key)[i])
                    == entry_record(own[i], ttl)
        }),
    decreases entries.len(),
{
    reveal(Seq::filter);
    if entries.len() > 0 {
        rows_hold_the_entries_of_their_name(entries.drop_last(), ttl, key);
    }
}

/// The wildcards of a list are its entries that cover the names below them.
pub proof fn wildcards_are_the_marked_entries(entries: Seq<LocalDnsRecord>)
    ensures
        wildcards(entries) == entries.filter(|e: LocalDnsRecord| e.match_subdomains),
    decreases entries.len(),
{
    reveal(Seq::filter);
    if entries.len() > 0 {
        wildcards_are_the_marked_entries(entries.drop_last());
    }
}

/// The tables of a section: a name is defined exactly if some entry is served
/// under it, and a wildcard exactly if some marked entry is.
pub proof fn tables_hold_what_is_configured(
    entries: Seq<LocalDnsRecord>,
    ttl: u32,
    nodata: bool,
    key: Seq<char>,
)
    ensures
        ({
            let t = tables_for(entries, ttl, nodata);
            let p = profile_tables(entries, ttl);
            &&& t.forward.contains_key(key) <==> exists|i: int|
                0 <= i < entries.len() && canonical((#[trigger] entries[i]).domain@) == key
                    && entry_record(entries[i], ttl) is Some
            &&& t.wildcard.contains_key(key) <==> exists|i: int|
                0 <= i < entries.len() && canonical((#[trigger] entries[i]).domain@) == key
                    && entry_record(entries[i], ttl) is Some && entries[i].match_subdomains
            &&& t.forward.contains_key(key) ==> t.forward[key] == served(entries, ttl, key)
            &&& t.ttl == ttl && t.nodata == nodata
            &&& p.forward == t.forward && p.wildcard == t.wildcard
        }),
{
    lemma_served_some(entries, ttl, key);
    lemma_marked_some(entries, ttl, key);
    let t = tables_for(entries, ttl, nodata);
    let p = profile_tables(entries, ttl);
    assert(p.forward =~= t.forward);
    assert(p.wildcard =~= t.wildcard);
}

/// The entry is served under a name.
spec fn serves(entry: LocalDnsRecord, ttl: u32, key: Seq<char>) -> bool {
    canonical(entry.domain@) == key && entry_record(entry, ttl) is Some
}

proof fn lemma_marked_some(entries: Seq<LocalDnsRecord>, ttl: u32, key: Seq<char>)
    ensures
        served(wildcards(entries), ttl, key).len() > 0 <==> exists|i: int|
            0 <= i < entries.len() && canonical((#[trigger] entries[i]).domain@) == key
                && entry_record(entries[i], ttl) is Some && entries[i].match_subdomains,
    decreases entries.len(),
{
    if entries.len() > 0 {
        let prior = entries.drop_last();
        let last = entries.last();
        lemma_marked_some(prior, ttl, key);
        let w = wildcards(entries);
        if last.match_subdomains {
            assert(w.drop_last() =~= wildcards(prior));
            assert(w.last() == last);
        }
        assert(served(w, ttl, key).len() > 0 <==> served(wildcards(prior), ttl, key).len() > 0 || (
        last.match_subdomains && serves(last, ttl, key)));
        if served(wildcards(prior), ttl, key).len() > 0 {
            let i = choose|i: int|
                0 <= i < prior.len() && canonical((#[trigger] prior[i]).domain@) == key
                    && entry_record(prior[i], ttl) is Some && prior[i].match_subdomains;
            assert(entries[i] == prior[i]);
        } else if last.match_subdomains && serves(last, ttl, key) {
            assert(entries[entries.len() - 1] == last);
        } else {
            assert forall|i: int| 0 <= i < entries.len() implies !(canonical(
                (#[trigger] entries[i]).domain@,
            ) == key && entry_record(entries[i], ttl) is Some && entries[i].match_subdomains) by {
                if i < prior.len() {
                    assert(prior[i] == entries[i]);
                }
            }
        }
    }
}

proof fn lemma_served_some(entries: Seq<LocalDnsRecord>, ttl: u32, key: Seq<char>)
    ensures
        served(entries, ttl, key).len() > 0 <==> exists|i: int|
            0 <= i < entries.len() && canonical((#[trigger] entries[i]).domain@) == key
                && entry_record(entries[i], ttl) is Some,
    decreases entries.len(),
{
    if entries.len() > 0 {
        let prior = entries.drop_last();
        lemma_served_some(prior, ttl, key);
        if served(prior, ttl, key).len() > 0 {
            let i = choose|i: int|
                0 <= i < prior.len() && canonical((#[trigger] prior[i]).domain@) == key
                    && entry_record(prior[i], ttl) is Some;
            assert(entries[i] == prior[i]);
        }
        if exists|i: int|
            0 <= i < entries.len() && canonical((#[trigger] entries[i]).domain@) == key
                && entry_record(entries[i], ttl) is Some {
            let i = choose|i: int|
                0 <= i < entries.len() && canonical((#[trigger] entries[i]).domain@) == key
                    && entry_record(entries[i], ttl) is Some;
            if i < prior.len() {
                assert(prior[i] == entries[i]);
            }
        }
        if served(entries, ttl, key).len() > 0 && served(prior, ttl, key).len() == 0 {
            assert(entries[entries.len() - 1] == entries.last());
        }
    }
}

/// A pointer record leads from the reverse name of an address to the name that
/// has the address, for both families, and lives as long as that record does.
pub proof fn pointers_lead_back(rec: RecordV)
    ensures
        pointer_of(rec) matches Some((key, ptr)) ==> {
            &&& ptr.data == RDataV::PTR(rec.name)
            &&& ptr.ttl == rec.ttl
            &&& rec.data matches RDataV::A(ip) ==> key == crate::net::v4_ptr(ip)
            &&& rec.data matches RDataV::AAAA(ip) ==> key == crate::net::v6_ptr(ip)
            &&& rec.data is A || rec.data is AAAA
            &&& parsed_name(key.push('.')) == Some(ptr.name)
        },
        (rec.data matches RDataV::A(ip) && parsed_name(crate::net::v4_ptr(ip).push('.')) is Some)
            ==> pointer_of(rec) is Some,
        (rec.data matches RDataV::AAAA(ip) && parsed_name(crate::net::v6_ptr(ip).push('.')) is Some)
            ==> pointer_of(rec) is Some,
{
}

// ── Profiles ──────────────────────────────────────────────────────────

/// A profile answers A, AAAA and CNAME queries alone: it never holds reverse
/// records, and never stands in the way of another type.
pub proof fn profiles_answer_no_other_type(
    t: ProfileTables,
    domain: Seq<char>,
    qtype: RecordType,
)
    requires
        !wildcard_type(qtype),
    ensures
        profile_answer(t, domain, qtype) is None,
{
}

proof fn lemma_wildcard_answer_apex(
    t: ProfileTables,
    name: Seq<char>,
    qtype: RecordType,
    owner: Option<NameV>,
)
    ensures
        wildcard_answer(t, name, qtype, owner) matches Some((out, apex)) ==> below(name, apex)
            && t.wildcard.contains_key(apex) && row_answer(
            t.forward,
            t.wildcard[apex],
            qtype,
            owner,
        ) == Some(out) && forall|b: Seq<char>| #[trigger]
            t.wildcard.contains_key(b) && below(name, b) && b.len() > apex.len() ==> row_answer(
                t.forward,
                t.wildcard[b],
                qtype,
                owner,
            ) is None,
    decreases name.len(),
{
    lemma_parent_shorter(name);
    match parent(name) {
        None => {},
        Some(p) => {
            lemma_parent_is_above(name);
            lemma_wildcard_answer_apex(t, p, qtype, owner);
            match wildcard_answer(t, name, qtype, owner) {
                Some((out, apex)) => {
                    if apex != p {
                        lemma_below_transitive(name, p, apex);
                    }
                    assert forall|b: Seq<char>| #[trigger]
                        t.wildcard.contains_key(b) && below(name, b) && b.len()
                            > apex.len() implies row_answer(
                        t.forward,
                        t.wildcard[b],
                        qtype,
                        owner,
                    ) is None by {
                        lemma_below_steps(name, b);
                    }
                },
                None => {},
            }
        },
    }
}

/// In a profile too the longest wildcard that has an answer wins, and its
/// answer is owned by the queried name.
pub proof fn longest_profile_wildcard_wins(
    t: ProfileTables,
    domain: Seq<char>,
    qtype: RecordType,
)
    ensures
        profile_answer(t, domain, qtype) matches Some((out, apex)) ==> apex == domain || (below(
            domain,
            apex,
        ) && t.wildcard.contains_key(apex) && (forall|b: Seq<char>| #[trigger]
            t.wildcard.contains_key(b) && below(domain, b) && b.len() > apex.len() ==> row_answer(
                t.forward,
                t.wildcard[b],
                qtype,
                parsed_name(domain.push('.')),
            ) is None) && (parsed_name(domain.push('.')) matches Some(owner) ==> out.len() > 0
            && out[0].name == owner)),
{
    let owner = parsed_name(domain.push('.'));
    lemma_wildcard_answer_apex(t, domain, qtype, owner);
    match profile_answer(t, domain, qtype) {
        Some((out, apex)) => {
            if owner is Some && apex != domain {
                wildcard_answers_are_owned_by_the_query(
                    t.forward,
                    t.wildcard[apex],
                    qtype,
                    owner->0,
                );
            }
        },
        None => {},
    }
}

proof fn lemma_no_wildcard_answer(
    t: ProfileTables,
    name: Seq<char>,
    qtype: RecordType,
    owner: Option<NameV>,
)
    requires
        wildcard_answer(t, name, qtype, owner) is None,
    ensures
        forall|b: Seq<char>| #[trigger]
            t.wildcard.contains_key(b) && below(name, b) ==> row_answer(
                t.forward,
                t.wildcard[b],
                qtype,
                owner,
            ) is None,
    decreases name.len(),
{
    lemma_parent_shorter(name);
    if let Some(p) = parent(name) {
        lemma_no_wildcard_answer(t, p, qtype, owner);
    }
    assert forall|b: Seq<char>| #[trigger] t.wildcard.contains_key(b) && below(
        name,
        b,
    ) implies row_answer(t.forward, t.wildcard[b], qtype, owner) is None by {
        lemma_below_steps(name, b);
    }
}

/// A profile that gives no answer to a type that it serves has none to give:
/// neither the name itself nor any wildcard above it holds a usable record.
pub proof fn silent_profiles_have_no_candidate(
    t: ProfileTables,
    domain: Seq<char>,
    qtype: RecordType,
)
    requires
        wildcard_type(qtype),
        profile_answer(t, domain, qtype) is None,
    ensures
        t.forward.contains_key(domain) ==> row_answer(t.forward, t.forward[domain], qtype, None)
            is None,
        forall|b: Seq<char>| #[trigger]
            t.wildcard.contains_key(b) && below(domain, b) ==> row_answer(
                t.forward,
                t.wildcard[b],
                qtype,
                parsed_name(domain.push('.')),
            ) is None,
{
    lemma_no_wildcard_answer(t, domain, qtype, parsed_name(domain.push('.')));
}

/// What is configured for a profile is served there.
pub proof fn configured_profile_entries_answer(
    entries: Seq<LocalDnsRecord>,
    ttl: u32,
    i: int,
)
    requires
        0 <= i < entries.len(),
        entry_record(entries[i], ttl) is Some,
    ensures
        ({
            let key = canonical(entries[i].domain@);
            let out = profile_answer(
                profile_tables(entries, ttl),
                key,
                query_type(entries[i].record_type),
            );
            &&& out matches Some((records, apex))
            &&& apex == key
            &&& records.contains(entry_record(entries[i], ttl)->0)
        }),
{
    let key = canonical(entries[i].domain@);
    let qtype = query_type(entries[i].record_type);
    let rec = entry_record(entries[i], ttl)->0;
    let t = profile_tables(entries, ttl);
    lemma_served_has(entries, ttl, i);
    let row = served(entries, ttl, key);
    assert(row.len() > 0);
    assert(t.forward.contains_key(key));
    assert(t.forward[key] == row);
    lemma_of_type_has(row, qtype, rec);
    assert(of_type(row, qtype, None).len() > 0);
}

/// A name is looked up without its root dot: one dot at the end is taken off, and
/// nothing else is.
pub proof fn names_are_looked_up_without_the_root(s: Seq<char>, name: NameV)
    ensures
        crate::answer::without_root(s.push('.')) == s,
        s.len() > 0 && s.last() != '.' ==> crate::answer::without_root(s) == s,
        crate::record::rendered_name(name.0, name.1) == s.push('.') ==> lookup_key(name) == s,
{
    assert(s.push('.').drop_last() =~= s);
}

/// In a profile a name that is defined itself answers with its own records,
/// before any wildcard is looked at and under its own name.
pub proof fn profiles_answer_for_defined_names_first(
    t: ProfileTables,
    domain: Seq<char>,
    qtype: RecordType,
    k: int,
)
    requires
        qtype == RecordType::A || qtype == RecordType::AAAA || qtype == RecordType::CNAME,
        t.forward.contains_key(domain),
        0 <= k < t.forward[domain].len(),
        type_of(t.forward[domain][k].data) == qtype,
    ensures
        profile_answer(t, domain, qtype) is Some,
        (profile_answer(t, domain, qtype)->0).0.len() == matching(t.forward[domain], qtype).len(),
        (profile_answer(t, domain, qtype)->0).1 == domain,
{
    rows_answer_with_all_they_hold(t.forward, t.forward[domain], qtype, None, k);
}

/// An optional owner is seen as what it is.
pub proof fn optional_owners_are_kept(name: crate::record::Name)
    ensures
        crate::answer::owner_view(Some(name)) == Some(name@),
        crate::answer::owner_view(None) is None,
{
}

/// By default nothing is served locally: every probe is a miss.
pub proof fn default_sections_answer_nothing(
    config: crate::settings::LocalDnsConfig,
    domain: Seq<char>,
    qtype: RecordType,
)
    requires
        crate::settings::default_local_dns(config),
    ensures
        looked_up(
            tables_for(config.records@, config.ttl_secs, config.nodata_for_missing_types),
            domain,
            qtype,
        ) is Miss,
        config.ttl_secs == 3600,
        config.dynamic_ttl_secs == 30,
{
    let t = tables_for(config.records@, config.ttl_secs, config.nodata_for_missing_types);
    assert(config.records@ =~= Seq::<LocalDnsRecord>::empty());
    assert(wildcards(config.records@).len() == 0);
    longest_wildcard_wins(t.wildcard, domain);
    if nearest_wildcard(t.wildcard, domain) is Some {
        assert(t.wildcard.contains_key(nearest_wildcard(t.wildcard, domain)->0));
    }
}

} // verus!
