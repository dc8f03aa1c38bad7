//! What the configured local records turn into, and how a row of records
//! answers a query: shared by the global and the per-profile tables.
use vstd::prelude::*;
use crate::domain::{canonical, canonical_of_valid_name, canonicalize_domain, fqdn_syntax};
use crate::net::{self, v4_of, v4_ptr, v6_of, v6_ptr};
use crate::record::{
    internet_record, parse_name, parsed_name, push_record, record_views, render_name, rendered_name, type_of, Name,
    NameV, RData, RDataV, Record, RecordType, RecordV, wire_name,
};
use crate::settings::{LocalDnsRecord, LocalDnsRecordType};
use crate::table::{all_well_named, well_named, RecordTable};
use crate::text::{to_chars, to_text};

verus! {

// ── Configured rows ───────────────────────────────────────────────────

/// The TTL of a record: its own, or else that of its section.
pub open spec fn effective_ttl(entry: LocalDnsRecord, default_ttl: u32) -> u32 {
    match entry.ttl_secs {
        Some(n) => n,
        None => default_ttl,
    }
}

/// The record that a configured entry is served as. An entry whose name or
/// value cannot be parsed is not served.
pub open spec fn entry_record(entry: LocalDnsRecord, default_ttl: u32) -> Option<RecordV> {
    let ttl = effective_ttl(entry, default_ttl);
    match parsed_name(canonical(entry.domain@).push('.')) {
        None => None,
        Some(name) => match entry.record_type {
            LocalDnsRecordType::A => match v4_of(entry.value@) {
                Some(ip) => Some(internet_record(name, ttl, RDataV::A(ip))),
                None => None,
            },
            LocalDnsRecordType::AAAA => match v6_of(entry.value@) {
                Some(ip) => Some(internet_record(name, ttl, RDataV::AAAA(ip))),
                None => None,
            },
            LocalDnsRecordType::CNAME => match parsed_name(canonical(entry.value@).push('.')) {
                Some(target) => Some(internet_record(name, ttl, RDataV::CNAME(target))),
                None => None,
            },
        },
    }
}

/// The records served under the name `key`, in configuration order.
pub open spec fn served(
    entries: Seq<LocalDnsRecord>,
    default_ttl: u32,
    key: Seq<char>,
) -> Seq<RecordV>
    decreases entries.len(),
{
    if entries.len() == 0 {
        Seq::empty()
    } else {
        let rest = served(entries.drop_last(), default_ttl, key);
        let entry = entries.last();
        match entry_record(entry, default_ttl) {
            Some(rec) => if canonical(entry.domain@) == key {
                rest.push(rec)
            } else {
                rest
            },
            None => rest,
        }
    }
}

/// The entries that also answer for the names below their own.
pub open spec fn wildcards(entries: Seq<LocalDnsRecord>) -> Seq<LocalDnsRecord>
    decreases entries.len(),
{
    if entries.len() == 0 {
        Seq::empty()
    } else {
        let rest = wildcards(entries.drop_last());
        if entries.last().match_subdomains {
            rest.push(entries.last())
        } else {
            rest
        }
    }
}

/// The reverse record of an address record, and the name it stands under.
pub open spec fn pointer_of(rec: RecordV) -> Option<(Seq<char>, RecordV)> {
    let key = match rec.data {
        RDataV::A(ip) => Some(v4_ptr(ip)),
        RDataV::AAAA(ip) => Some(v6_ptr(ip)),
        _ => None,
    };
    match key {
        None => None,
        Some(k) => match parsed_name(k.push('.')) {
            Some(name) => Some(
                (k, internet_record(name, rec.ttl, RDataV::PTR(rec.name))),
            ),
            None => None,
        },
    }
}

/// The reverse records served under the name `key`, in configuration order.
pub open spec fn pointers(
    entries: Seq<LocalDnsRecord>,
    default_ttl: u32,
    key: Seq<char>,
) -> Seq<RecordV>
    decreases entries.len(),
{
    if entries.len() == 0 {
        Seq::empty()
    } else {
        let rest = pointers(entries.drop_last(), default_ttl, key);
        match entry_record(entries.last(), default_ttl) {
            Some(rec) => match pointer_of(rec) {
                Some((k, ptr)) => if k == key {
                    rest.push(ptr)
                } else {
                    rest
                },
                None => rest,
            },
            None => rest,
        }
    }
}

/// The map that holds `rows(k)` for every `k` for which it is not empty.
pub open spec fn table_of(rows: spec_fn(Seq<char>) -> Seq<RecordV>) -> Map<
    Seq<char>,
    Seq<RecordV>,
> {
    Map::new(|k: Seq<char>| rows(k).len() > 0, |k: Seq<char>| rows(k))
}

/// An entry that is spelled so that it can be served: a name with valid
/// syntax, and a value that is an address or a name with valid syntax.
pub open spec fn servable(entry: LocalDnsRecord) -> bool {
    &&& fqdn_syntax(entry.domain@)
    &&& match entry.record_type {
        LocalDnsRecordType::A => v4_of(entry.value@) is Some,
        LocalDnsRecordType::AAAA => v6_of(entry.value@) is Some,
        LocalDnsRecordType::CNAME => fqdn_syntax(entry.value@),
    }
}

/// Builds the record of one configured entry. Every servable entry is built.
pub fn build_record(entry: &LocalDnsRecord, default_ttl: u32) -> (r: Option<Record>)
    ensures
        match r {
            Some(rec) => entry_record(*entry, default_ttl) == Some(rec@) && well_named(rec@),
            None => entry_record(*entry, default_ttl) is None,
        },
        servable(*entry) ==> r is Some,
{
    proof {
        if servable(*entry) {
            canonical_of_valid_name(entry.domain@);
            if entry.record_type == LocalDnsRecordType::CNAME {
                canonical_of_valid_name(entry.value@);
            }
        }
    }
    let ttl = match entry.ttl_secs {
        Some(n) => n,
        None => default_ttl,
    };
    let mut spelled = canonicalize_domain(&entry.domain);
    spelled.push('.');
    let name = match parse_name(&spelled) {
        Some(name) => name,
        None => {
            return None;
        },
    };
    match entry.record_type {
        LocalDnsRecordType::A => match net::parse_v4(&entry.value) {
            Some(ip) => Some(Record::from_rdata(name, ttl, RData::A(ip))),
            None => None,
        },
        LocalDnsRecordType::AAAA => match net::parse_v6(&entry.value) {
            Some(ip) => Some(Record::from_rdata(name, ttl, RData::AAAA(ip))),
            None => None,
        },
        LocalDnsRecordType::CNAME => {
            let mut target = canonicalize_domain(&entry.value);
            target.push('.');
            match parse_name(&target) {
                Some(to) => Some(Record::from_rdata(name, ttl, RData::CNAME(to))),
                None => None,
            }
        },
    }
}

/// Builds the reverse record of an address record. Every address record has
/// one.
pub fn build_pointer(rec: &Record) -> (r: Option<(String, Record)>)
    requires
        well_named(rec@),
    ensures
        match r {
            Some((k, ptr)) => pointer_of(rec@) == Some((k@, ptr@)) && well_named(ptr@),
            None => pointer_of(rec@) is None,
        },
        (rec@.data is A || rec@.data is AAAA) ==> r is Some,
{
    proof {
        match rec@.data {
            RDataV::A(ip) => net::lemma_v4_ptr_is_plain(ip),
            RDataV::AAAA(ip) => net::lemma_v6_ptr_is_plain(ip),
            _ => {},
        }
    }
    let key = match &rec.data {
        RData::A(ip) => net::ipv4_to_ptr(ip),
        RData::AAAA(ip) => net::ipv6_to_ptr(ip),
        _ => {
            return None;
        },
    };
    let mut spelled = key.as_str().to_owned();
    spelled.push('.');
    match parse_name(&spelled) {
        Some(name) => {
            let ptr = Record::from_rdata(name, rec.ttl, RData::PTR(rec.name.copy()));
            Some((key, ptr))
        },
        None => None,
    }
}

// ── Answers from one row ──────────────────────────────────────────────

/// `rec` under the owner name `owner`, where one is given.
pub open spec fn reowned(rec: RecordV, owner: Option<NameV>) -> RecordV {
    match owner {
        Some(name) => RecordV { name, ..rec },
        None => rec,
    }
}

/// The records of type `qtype`, under the owner name `owner`.
pub open spec fn of_type(
    records: Seq<RecordV>,
    qtype: RecordType,
    owner: Option<NameV>,
) -> Seq<RecordV>
    decreases records.len(),
{
    if records.len() == 0 {
        Seq::empty()
    } else {
        let rest = of_type(records.drop_last(), qtype, owner);
        if type_of(records.last().data) == qtype {
            rest.push(reowned(records.last(), owner))
        } else {
            rest
        }
    }
}

/// The first CNAME record of a list.
pub open spec fn first_cname(records: Seq<RecordV>) -> Option<RecordV>
    decreases records.len(),
{
    if records.len() == 0 {
        None
    } else {
        match first_cname(records.drop_last()) {
            Some(rec) => Some(rec),
            None => if type_of(records.last().data) == RecordType::CNAME {
                Some(records.last())
            } else {
                None
            },
        }
    }
}

/// `s` without one trailing dot.
pub open spec fn without_root(s: Seq<char>) -> Seq<char> {
    if s.len() > 0 && s.last() == '.' {
        s.drop_last()
    } else {
        s
    }
}

/// The name under which records for `name` are looked up.
pub open spec fn lookup_key(name: NameV) -> Seq<char> {
    without_root(rendered_name(name.0, name.1))
}

/// The row of `key` in a table, empty where there is none.
pub open spec fn row(table: Map<Seq<char>, Seq<RecordV>>, key: Seq<char>) -> Seq<RecordV> {
    if table.contains_key(key) {
        table[key]
    } else {
        Seq::empty()
    }
}

/// The answer of a row: its records of the queried type, or for an address
/// query its CNAME followed by the addresses that `forward` holds for the
/// target. The records of the row are owned by `owner`, those of the target
/// keep their own name.
pub open spec fn row_answer(
    forward: Map<Seq<char>, Seq<RecordV>>,
    records: Seq<RecordV>,
    qtype: RecordType,
    owner: Option<NameV>,
) -> Option<Seq<RecordV>> {
    let direct = of_type(records, qtype, owner);
    if direct.len() > 0 {
        Some(direct)
    } else if qtype == RecordType::A || qtype == RecordType::AAAA {
        match first_cname(records) {
            Some(rec) => match rec.data {
                RDataV::CNAME(target) => Some(
                    seq![reowned(rec, owner)] + of_type(
                        row(forward, lookup_key(target)),
                        qtype,
                        None,
                    ),
                ),
                _ => None,
            },
            None => None,
        }
    } else {
        None
    }
}

/// The view of an optional owner name.
pub open spec fn owner_view(owner: Option<Name>) -> Option<NameV> {
    match owner {
        Some(name) => Some(name@),
        None => None,
    }
}

fn reown(rec: &Record, owner: &Option<Name>) -> (r: Record)
    ensures
        r@ == reowned(rec@, owner_view(*owner)),
{
    let mut out = rec.copy();
    match owner {
        Some(name) => {
            out.name = name.copy();
        },
        None => {},
    }
    out
}

fn filter_type(records: &Vec<Record>, qtype: RecordType, owner: &Option<Name>) -> (r: Vec<Record>)
    ensures
        record_views(r@) == of_type(record_views(records@), qtype, owner_view(*owner)),
{
    let ghost all = record_views(records@);
    let ghost who = owner_view(*owner);
    let mut out: Vec<Record> = Vec::new();
    let mut i: usize = 0;
    proof {
        assert(record_views(out@) =~= of_type(all.take(0), qtype, who));
    }
    while i < records.len()
        invariant
            i <= records.len(),
            all == record_views(records@),
            who == owner_view(*owner),
            record_views(out@) == of_type(all.take(i as int), qtype, who),
        decreases records.len() - i,
    {
        proof {
            assert(all.take(i + 1).drop_last() =~= all.take(i as int));
            assert(all.take(i + 1).last() == records@[i as int]@);
        }
        if records[i].record_type() == qtype {
            push_record(&mut out, reown(&records[i], owner));
        }
        i += 1;
    }
    proof {
        assert(all.take(all.len() as int) =~= all);
    }
    out
}

fn find_cname(records: &Vec<Record>) -> (r: Option<usize>)
    ensures
        match r {
            Some(i) => i < records.len() && first_cname(record_views(records@)) == Some(
                records@[i as int]@,
            ) && type_of(records@[i as int]@.data) == RecordType::CNAME,
            None => first_cname(record_views(records@)) is None,
        },
{
    let ghost all = record_views(records@);
    let mut i: usize = 0;
    while i < records.len()
        invariant
            i <= records.len(),
            all == record_views(records@),
            first_cname(all.take(i as int)) is None,
        decreases records.len() - i,
    {
        proof {
            assert(all.take(i + 1).drop_last() =~= all.take(i as int));
            assert(all.take(i + 1).last() == records@[i as int]@);
        }
        if records[i].record_type() == RecordType::CNAME {
            proof {
                lemma_first_cname_prefix(all, i + 1);
            }
            return Some(i);
        }
        i += 1;
    }
    proof {
        assert(all.take(all.len() as int) =~= all);
    }
    None
}

proof fn lemma_first_cname_prefix(records: Seq<RecordV>, k: int)
    requires
        0 <= k <= records.len(),
        first_cname(records.take(k)) is Some,
    ensures
        first_cname(records) == first_cname(records.take(k)),
    decreases records.len() - k,
{
    if k < records.len() {
        assert(records.take(k + 1).drop_last() =~= records.take(k));
        lemma_first_cname_prefix(records, k + 1);
    } else {
        assert(records.take(k) =~= records);
    }
}

/// The lookup key of a name.
pub fn key_of(name: &Name) -> (r: String)
    requires
        wire_name(name@),
    ensures
        r@ == lookup_key(name@),
{
    let shown = render_name(name);
    let chars = to_chars(&shown);
    let n = chars.len();
    if n > 0 && chars[n - 1] == '.' {
        proof {
            assert(shown@.subrange(0, n - 1) =~= shown@.drop_last());
        }
        to_text(&chars, 0, n - 1)
    } else {
        shown
    }
}

/// Answers a query from one row of a table.
pub fn answer_row(
    forward: &RecordTable,
    records: &Vec<Record>,
    qtype: RecordType,
    owner: &Option<Name>,
) -> (r: Option<Vec<Record>>)
    requires
        forward.wf(),
        all_well_named(record_views(records@)),
    ensures
        match r {
            Some(out) => row_answer(
                forward@,
                record_views(records@),
                qtype,
                owner_view(*owner),
            ) == Some(record_views(out@)),
            None => row_answer(
                forward@,
                record_views(records@),
                qtype,
                owner_view(*owner),
            ) is None,
        },
{
    let direct = filter_type(records, qtype, owner);
    proof {
        assert(record_views(direct@).len() == direct.len());
    }
    if direct.len() > 0 {
        return Some(direct);
    }
    if qtype != RecordType::A && qtype != RecordType::AAAA {
        return None;
    }
    let at = match find_cname(records) {
        Some(i) => i,
        None => {
            return None;
        },
    };
    let rec = &records[at];
    proof {
        assert(record_views(records@)[at as int] == rec@);
        assert(well_named(record_views(records@)[at as int]));
    }
    match &rec.data {
        RData::CNAME(target) => {
            let key = key_of(target);
            let mut out: Vec<Record> = Vec::new();
            push_record(&mut out, reown(rec, owner));
            let ghost head = record_views(out@);
            proof {
                assert(head =~= seq![reowned(rec@, owner_view(*owner))]);
            }
            let none: Option<Name> = None;
            match forward.get(&key) {
                Some(target_row) => {
                    let more = filter_type(target_row, qtype, &none);
                    let ghost tail = record_views(more@);
                    let mut i: usize = 0;
                    while i < more.len()
                        invariant
                            i <= more.len(),
                            tail == record_views(more@),
                            record_views(out@) =~= head + tail.take(i as int),
                        decreases more.len() - i,
                    {
                        push_record(&mut out, more[i].copy());
                        i += 1;
                    }
                    proof {
                        assert(tail.take(tail.len() as int) =~= tail);
                    }
                },
                None => {
                    proof {
                        assert(head + Seq::<RecordV>::empty() =~= head);
                    }
                },
            }
            Some(out)
        },
        _ => None,
    }
}

// ── Ancestors of a name ───────────────────────────────────────────────

/// What follows the first dot of `s`, if it has one.
pub open spec fn parent(s: Seq<char>) -> Option<Seq<char>>
    decreases s.len(),
{
    if s.len() == 0 {
        None
    } else if s[0] == '.' {
        Some(s.skip(1))
    } else {
        parent(s.skip(1))
    }
}

/// The parent starts behind the first dot.
pub proof fn lemma_parent_shorter(s: Seq<char>)
    ensures
        match parent(s) {
            Some(p) => p.len() < s.len() && p == s.skip(s.len() - p.len()) && s[s.len() - p.len()
                - 1] == '.' && forall|j: int|
                0 <= j < s.len() - p.len() - 1 ==> #[trigger] s[j] != '.',
            None => forall|j: int| 0 <= j < s.len() ==> #[trigger] s[j] != '.',
        },
    decreases s.len(),
{
    if s.len() > 0 && s[0] != '.' {
        let rest = s.skip(1);
        lemma_parent_shorter(rest);
        assert forall|j: int| 1 <= j < s.len() implies #[trigger] s[j] == rest[j - 1] by {}
        match parent(rest) {
            Some(p) => {
                assert(rest.skip(s.len() - 1 - p.len()) =~= s.skip(s.len() - p.len()));
            },
            None => {},
        }
    }
}

/// Where the parent of `chars[from..]` starts.
pub fn parent_start(chars: &Vec<char>, from: usize) -> (r: Option<usize>)
    requires
        from <= chars.len(),
    ensures
        match r {
            Some(p) => from < p <= chars.len() && parent(chars@.skip(from as int)) == Some(
                chars@.skip(p as int),
            ),
            None => parent(chars@.skip(from as int)) is None,
        },
{
    let mut i: usize = from;
    while i < chars.len()
        invariant
            from <= i <= chars.len(),
            parent(chars@.skip(i as int)) == parent(chars@.skip(from as int)),
        decreases chars.len() - i,
    {
        proof {
            assert(chars@.skip(i as int).skip(1) =~= chars@.skip(i + 1));
        }
        if chars[i] == '.' {
            return Some(i + 1);
        }
        i += 1;
    }
    None
}

/// `a` is a name below `apex`.
pub open spec fn below(a: Seq<char>, apex: Seq<char>) -> bool {
    &&& a.len() > apex.len()
    &&& a.skip(a.len() - apex.len()) == apex
    &&& a[a.len() - apex.len() - 1] == '.'
}

/// Whether records of the type can stand under a wildcard.
pub open spec fn wildcard_type(qtype: RecordType) -> bool {
    qtype == RecordType::A || qtype == RecordType::AAAA || qtype == RecordType::CNAME
}

} // verus!
