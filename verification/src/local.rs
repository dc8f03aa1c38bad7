//! Static local DNS records: exact names, wildcards and reverse lookups.
//!
//! A query that matches a local record bypasses the filter and the upstream.
use vstd::prelude::*;
use crate::answer::{
    answer_row, build_pointer, build_record, entry_record, key_of, lookup_key, owner_view, parent, parent_start,
    pointer_of, pointers, row_answer, servable, served, table_of, wildcard_type,
    wildcards,
};
use crate::record::{
    copy_records, parse_name, parsed_name, record_views, Name, NameV, RData, RDataV, Record, RecordType,
    RecordV,
};
use crate::settings::{LocalDnsConfig, LocalDnsRecord};
use crate::table::{
    all_well_named, suffix_order, suffix_position, suffix_row, well_named, RecordTable, SuffixIndex,
};
use crate::text::{to_chars, to_text};

verus! {

/// Outcome of a probe of the local records.
pub enum LocalLookup {
    /// Records of the queried type, possibly behind one local CNAME, and the
    /// configured name that they were found under.
    Hit { records: Vec<Record>, apex: String },
    /// The name is locally defined but holds no records of the queried type.
    NodataSynthesis { ttl: u32 },
    /// The name is not locally defined.
    Miss,
}

/// The outcome of a probe as mathematical values.
pub enum LookupV {
    Hit(Seq<RecordV>, Seq<char>),
    NodataSynthesis(u32),
    Miss,
}

impl View for LocalLookup {
    type V = LookupV;

    open spec fn view(&self) -> LookupV {
        match self {
            LocalLookup::Hit { records, apex } => LookupV::Hit(record_views(records@), apex@),
            LocalLookup::NodataSynthesis { ttl } => LookupV::NodataSynthesis(*ttl),
            LocalLookup::Miss => LookupV::Miss,
        }
    }
}

impl LocalLookup {
    /// The records of a hit.
    pub fn hit(self) -> (r: Option<Vec<Record>>)
        ensures
            match self@ {
                LookupV::Hit(records, _) => r is Some && record_views(r->0@) == records,
                _ => r is None,
            },
    {
        match self {
            LocalLookup::Hit { records, .. } => Some(records),
            _ => None,
        }
    }
}

/// The tables of the local records: by exact name, by wildcard apex and by
/// reverse name; the negative TTL; and whether a missing type is answered.
pub struct LocalTables {
    pub forward: Map<Seq<char>, Seq<RecordV>>,
    pub wildcard: Map<Seq<char>, Seq<RecordV>>,
    pub reverse: Map<Seq<char>, Seq<RecordV>>,
    pub ttl: u32,
    pub nodata: bool,
}

/// The tables that a list of entries makes.
pub open spec fn tables_for(
    entries: Seq<LocalDnsRecord>,
    ttl: u32,
    nodata: bool,
) -> LocalTables {
    LocalTables {
        forward: table_of(|k: Seq<char>| served(entries, ttl, k)),
        wildcard: table_of(|k: Seq<char>| served(wildcards(entries), ttl, k)),
        reverse: table_of(|k: Seq<char>| pointers(entries, ttl, k)),
        ttl,
        nodata,
    }
}

/// The nearest proper ancestor of `name` that is a wildcard apex.
pub open spec fn nearest_wildcard(
    wildcard: Map<Seq<char>, Seq<RecordV>>,
    name: Seq<char>,
) -> Option<Seq<char>>
    decreases name.len(),
    via nearest_wildcard_terminates
{
    match parent(name) {
        None => None,
        Some(p) => if wildcard.contains_key(p) {
            Some(p)
        } else {
            nearest_wildcard(wildcard, p)
        },
    }
}

#[via_fn]
proof fn nearest_wildcard_terminates(wildcard: Map<Seq<char>, Seq<RecordV>>, name: Seq<char>) {
    crate::answer::lemma_parent_shorter(name);
}

/// The configured name that a reverse record belongs to.
pub open spec fn pointer_apex(records: Seq<RecordV>) -> Seq<char> {
    if records.len() == 0 {
        Seq::empty()
    } else {
        match records[0].data {
            RDataV::PTR(target) => lookup_key(target),
            _ => Seq::empty(),
        }
    }
}

/// The outcome for a name that is locally defined by `records`.
pub open spec fn resolved(
    t: LocalTables,
    records: Seq<RecordV>,
    qtype: RecordType,
    owner: Option<NameV>,
    apex: Seq<char>,
) -> LookupV {
    match row_answer(t.forward, records, qtype, owner) {
        Some(out) => LookupV::Hit(out, apex),
        None => if t.nodata {
            LookupV::NodataSynthesis(t.ttl)
        } else {
            LookupV::Miss
        },
    }
}

/// The outcome of a probe: the exact name first, then for address and CNAME
/// queries the nearest wildcard apex, then for PTR queries the reverse table.
pub open spec fn looked_up(t: LocalTables, domain: Seq<char>, qtype: RecordType) -> LookupV {
    let apex = nearest_wildcard(t.wildcard, domain);
    if t.forward.contains_key(domain) {
        resolved(t, t.forward[domain], qtype, None, domain)
    } else if wildcard_type(qtype) && apex is Some {
        resolved(
            t,
            t.wildcard[apex->0],
            qtype,
            parsed_name(domain.push('.')),
            apex->0,
        )
    } else if qtype == RecordType::PTR && t.reverse.contains_key(domain) {
        LookupV::Hit(t.reverse[domain], pointer_apex(t.reverse[domain]))
    } else {
        LookupV::Miss
    }
}

/// A servable entry has a record, and an address record has a reverse record.
pub open spec fn entry_served(entry: LocalDnsRecord, ttl: u32) -> bool {
    &&& servable(entry) ==> entry_record(entry, ttl) is Some
    &&& entry_record(entry, ttl) matches Some(rec) ==> (rec.data is A || rec.data is AAAA)
        ==> pointer_of(rec) is Some
}

/// No servable entry of a list is left out.
pub open spec fn all_served(entries: Seq<LocalDnsRecord>, ttl: u32) -> bool {
    forall|i: int| 0 <= i < entries.len() ==> entry_served(#[trigger] entries[i], ttl)
}

/// The local records of the global section.
pub struct LocalRecords {
    forward: RecordTable,
    reverse: RecordTable,
    suffix_index: SuffixIndex,
    ttl: u32,
    nodata_for_missing_types: bool,
}

/// The map of a suffix index.
pub open spec fn suffix_table(rows: Seq<(Seq<char>, Seq<RecordV>)>) -> Map<
    Seq<char>,
    Seq<RecordV>,
> {
    Map::new(
        |k: Seq<char>| suffix_position(rows, k) is Some,
        |k: Seq<char>| suffix_row(rows, k),
    )
}

/// All rows of a table hold well-named records.
pub open spec fn table_well_named(table: Map<Seq<char>, Seq<RecordV>>) -> bool {
    forall|k: Seq<char>| #[trigger] table.contains_key(k) ==> all_well_named(table[k])
}

impl View for LocalRecords {
    type V = LocalTables;

    closed spec fn view(&self) -> LocalTables {
        LocalTables {
            forward: self.forward@,
            wildcard: suffix_table(self.suffix_index@),
            reverse: self.reverse@,
            ttl: self.ttl,
            nodata: self.nodata_for_missing_types,
        }
    }
}

impl LocalRecords {
    /// The tables are internally consistent, and every name in them is within
    /// the limits of the wire format.
    pub closed spec fn wf(&self) -> bool {
        &&& self.forward.wf()
        &&& self.reverse.wf()
        &&& suffix_order(self.suffix_index@)
        &&& table_well_named(self.forward@)
        &&& table_well_named(self.reverse@)
        &&& table_well_named(suffix_table(self.suffix_index@))
    }

    /// Builds the tables of a section: forward, wildcard and reverse.
    pub fn build(config: &LocalDnsConfig) -> (r: LocalRecords)
        ensures
            r.wf(),
            r@ == tables_for(config.records@, config.ttl_secs, config.nodata_for_missing_types),
            all_served(config.records@, config.ttl_secs),
    {
        let ghost ttl = config.ttl_secs;
        let ghost nodata = config.nodata_for_missing_types;
        let mut r = LocalRecords {
            forward: RecordTable::new(),
            reverse: RecordTable::new(),
            suffix_index: SuffixIndex::new(),
            ttl: config.ttl_secs,
            nodata_for_missing_types: config.nodata_for_missing_types,
        };
        let ghost all = config.records@;
        let mut i: usize = 0;
        proof {
            lemma_no_entries(ttl, nodata);
            assert(all.take(0) =~= Seq::<LocalDnsRecord>::empty());
            assert(suffix_table(r.suffix_index@) =~= Map::<Seq<char>, Seq<RecordV>>::empty());
            assert(r@ == tables_for(all.take(0), ttl, nodata));
        }
        while i < config.records.len()
            invariant
                i <= config.records.len(),
                all == config.records@,
                ttl == config.ttl_secs,
                r.wf(),
                r@ == tables_for(all.take(i as int), ttl, nodata),
                forall|j: int| 0 <= j < i ==> entry_served(#[trigger] all[j], ttl),
            decreases config.records.len() - i,
        {
            proof {
                assert(all.take(i + 1).drop_last() =~= all.take(i as int));
                assert(all.take(i + 1).last() == all[i as int]);
            }
            r.insert(&config.records[i], config.ttl_secs, Ghost(all.take(i as int)), Ghost(nodata));
            proof {
                assert(all.take(i as int).push(all[i as int]) =~= all.take(i + 1));
            }
            i += 1;
        }
        proof {
            assert(all.take(all.len() as int) =~= all);
        }
        r
    }

    fn insert(
        &mut self,
        entry: &LocalDnsRecord,
        default_ttl: u32,
        Ghost(before): Ghost<Seq<LocalDnsRecord>>,
        Ghost(nodata): Ghost<bool>,
    )
        requires
            old(self).wf(),
            old(self)@ == tables_for(before, default_ttl, nodata),
        ensures
            final(self).wf(),
            final(self)@ == tables_for(before.push(*entry), default_ttl, nodata),
            entry_served(*entry, default_ttl),
    {
        let ghost t0 = self@;
        let ghost after = before.push(*entry);
        let ghost suffix0 = self.suffix_index@;
        proof {
            assert(after.drop_last() =~= before);
            assert(after.last() == *entry);
            lemma_tables_step(before, *entry, default_ttl, nodata);
        }
        let rec = match build_record(entry, default_ttl) {
            Some(rec) => rec,
            None => {
                return;
            },
        };
        let ghost new = rec@;
        let key = crate::domain::canonicalize_domain(&entry.domain);
        match build_pointer(&rec) {
            Some((k, ptr)) => {
                self.reverse.push(&k, ptr);
            },
            None => {},
        }
        if entry.match_subdomains {
            self.suffix_index.push(&key, rec.copy());
            proof {
                assert(suffix_table(self.suffix_index@) =~= suffix_table(suffix0).insert(
                    key@,
                    crate::answer::row(suffix_table(suffix0), key@).push(new),
                ));
            }
        }
        self.forward.push(&key, rec);
        proof {
            assert(self@.forward == tables_for(after, default_ttl, nodata).forward);
            assert(self@.reverse == tables_for(after, default_ttl, nodata).reverse);
            assert(self@.wildcard == tables_for(after, default_ttl, nodata).wildcard);
        }
    }

    /// Replaces the tables by those of a new section.
    pub fn swap(&mut self, config: &LocalDnsConfig)
        ensures
            final(self).wf(),
            final(self)@ == tables_for(
                config.records@,
                config.ttl_secs,
                config.nodata_for_missing_types,
            ),
            all_served(config.records@, config.ttl_secs),
    {
        *self = LocalRecords::build(config);
    }

    fn resolve_forward(
        &self,
        records: &Vec<Record>,
        qtype: RecordType,
        owner: &Option<Name>,
        apex: String,
    ) -> (r: LocalLookup)
        requires
            self.wf(),
            all_well_named(record_views(records@)),
        ensures
            r@ == resolved(self@, record_views(records@), qtype, owner_view(*owner), apex@),
    {
        match answer_row(&self.forward, records, qtype, owner) {
            Some(out) => LocalLookup::Hit { records: out, apex },
            None => {
                if self.nodata_for_missing_types {
                    LocalLookup::NodataSynthesis { ttl: self.ttl }
                } else {
                    LocalLookup::Miss
                }
            },
        }
    }

    /// Looks up the local records for a name and a query type.
    pub fn lookup(&self, domain: &str, qtype: RecordType) -> (r: LocalLookup)
        requires
            self.wf(),
        ensures
            r@ == looked_up(self@, domain@, qtype),
    {
        match self.forward.get(domain) {
            Some(records) => {
                let none: Option<Name> = None;
                return self.resolve_forward(records, qtype, &none, domain.to_owned());
            },
            None => {},
        }
        let ghost wild = self@.wildcard;
        if qtype == RecordType::A || qtype == RecordType::AAAA || qtype == RecordType::CNAME {
            if self.suffix_index.len() > 0 {
                let chars = to_chars(domain);
                let mut at: usize = 0;
                proof {
                    assert(chars@.skip(0) =~= domain@);
                }
                let mut going = true;
                while going
                    invariant
                        at <= chars.len(),
                        chars@ == domain@,
                        self.wf(),
                        wild == self@.wildcard,
                        !self@.forward.contains_key(domain@),
                        wildcard_type(qtype),
                        going ==> nearest_wildcard(wild, domain@) == nearest_wildcard(
                            wild,
                            domain@.skip(at as int),
                        ),
                        !going ==> nearest_wildcard(wild, domain@) is None,
                    decreases going as int, chars.len() - at,
                {
                    match parent_start(&chars, at) {
                        None => {
                            going = false;
                        },
                        Some(p) => {
                            let apex = to_text(&chars, p, chars.len());
                            proof {
                                assert(apex@ =~= domain@.skip(p as int));
                                assert(wild.contains_key(apex@) == (suffix_position(
                                    self.suffix_index@,
                                    apex@,
                                ) is Some));
                            }
                            match self.suffix_index.get(&apex) {
                                Some(records) => {
                                    let mut spelled = domain.to_owned();
                                    spelled.push('.');
                                    let owner = parse_name(&spelled);
                                    proof {
                                        assert(wild.contains_key(apex@));
                                        assert(all_well_named(wild[apex@]));
                                    }
                                    return self.resolve_forward(records, qtype, &owner, apex);
                                },
                                None => {},
                            }
                            at = p;
                        },
                    }
                }
            } else {
                proof {
                    lemma_no_wildcards(wild, domain@);
                }
            }
        }
        if qtype == RecordType::PTR {
            match self.reverse.get(domain) {
                Some(records) => {
                    proof {
                        assert(self@.reverse.contains_key(domain@));
                        assert(all_well_named(self@.reverse[domain@]));
                    }
                    let apex = ptr_apex(records);
                    return LocalLookup::Hit { records: copy_records(records), apex };
                },
                None => {},
            }
        }
        LocalLookup::Miss
    }

    /// Whether a forward name is locally defined.
    pub fn has_domain(&self, domain: &str) -> (r: bool)
        ensures
            r == self@.forward.contains_key(domain@),
    {
        self.forward.contains(domain)
    }

    /// The number of forward names.
    pub fn forward_count(&self) -> (r: usize)
        requires
            self.wf(),
        ensures
            r == self@.forward.len(),
    {
        self.forward.len()
    }

    /// The number of reverse names.
    pub fn reverse_count(&self) -> (r: usize)
        requires
            self.wf(),
        ensures
            r == self@.reverse.len(),
    {
        self.reverse.len()
    }

    /// The number of wildcard apexes.
    pub fn suffix_count(&self) -> (r: usize)
        requires
            self.wf(),
        ensures
            r == self@.wildcard.len(),
    {
        proof {
            lemma_suffix_table_len(self.suffix_index@);
        }
        self.suffix_index.len()
    }

    /// Whether any record answers for the names below its own.
    pub fn has_subdomain_records(&self) -> (r: bool)
        ensures
            r == exists|k: Seq<char>| self@.wildcard.contains_key(k),
    {
        let n = self.suffix_index.len();
        proof {
            let rows = self.suffix_index@;
            if n > 0 {
                assert(rows[0].0 == rows[0].0);
                assert(suffix_position(rows, rows[0].0) is Some);
                assert(self@.wildcard.contains_key(rows[0].0));
            }
        }
        n > 0
    }
}

fn ptr_apex(records: &Vec<Record>) -> (r: String)
    requires
        all_well_named(record_views(records@)),
    ensures
        r@ == pointer_apex(record_views(records@)),
{
    if records.len() == 0 {
        return String::new();
    }
    proof {
        assert(record_views(records@)[0] == records@[0]@);
        assert(well_named(record_views(records@)[0]));
    }
    match &records[0].data {
        RData::PTR(target) => key_of(target),
        _ => String::new(),
    }
}

/// A suffix index has as many apexes as rows.
pub proof fn lemma_suffix_table_len(rows: Seq<(Seq<char>, Seq<RecordV>)>)
    requires
        suffix_order(rows),
    ensures
        suffix_table(rows).len() == rows.len(),
{
    let keys = rows.map_values(|r: (Seq<char>, Seq<RecordV>)| r.0);
    assert(keys.no_duplicates()) by {
        assert forall|i: int, j: int| 0 <= i < keys.len() && 0 <= j < keys.len() && i != j implies
            keys[i] != keys[j] by {
            if i < j {
                assert(rows[i].0 != rows[j].0);
            } else {
                assert(rows[j].0 != rows[i].0);
            }
        }
    }
    keys.unique_seq_to_set();
    assert forall|k: Seq<char>| suffix_table(rows).dom().contains(k) == keys.to_set().contains(
        k,
    ) by {
        if suffix_position(rows, k) is Some {
            let i = choose|i: int| 0 <= i < rows.len() && (#[trigger] rows[i]).0 == k;
            assert(keys[i] == k);
        }
        if keys.contains(k) {
            let i = keys.index_of(k);
            assert(rows[i].0 == k);
        }
    }
    assert(suffix_table(rows).dom() =~= keys.to_set());
}

proof fn lemma_no_entries(ttl: u32, nodata: bool)
    ensures
        ({
            let t = tables_for(Seq::<LocalDnsRecord>::empty(), ttl, nodata);
            &&& t.forward == Map::<Seq<char>, Seq<RecordV>>::empty()
            &&& t.wildcard == Map::<Seq<char>, Seq<RecordV>>::empty()
            &&& t.reverse == Map::<Seq<char>, Seq<RecordV>>::empty()
        }),
{
    let t = tables_for(Seq::<LocalDnsRecord>::empty(), ttl, nodata);
    assert(t.forward =~= Map::<Seq<char>, Seq<RecordV>>::empty());
    assert(t.wildcard =~= Map::<Seq<char>, Seq<RecordV>>::empty());
    assert(t.reverse =~= Map::<Seq<char>, Seq<RecordV>>::empty());
}

proof fn lemma_no_wildcards(wild: Map<Seq<char>, Seq<RecordV>>, name: Seq<char>)
    requires
        forall|k: Seq<char>| !wild.contains_key(k),
    ensures
        nearest_wildcard(wild, name) is None,
    decreases name.len(),
{
    crate::answer::lemma_parent_shorter(name);
    match parent(name) {
        Some(p) => lemma_no_wildcards(wild, p),
        None => {},
    }
}

/// How one more entry changes the tables.
pub proof fn lemma_tables_step(
    before: Seq<LocalDnsRecord>,
    entry: LocalDnsRecord,
    ttl: u32,
    nodata: bool,
)
    ensures
        ({
            let t0 = tables_for(before, ttl, nodata);
            let t1 = tables_for(before.push(entry), ttl, nodata);
            let key = crate::domain::canonical(entry.domain@);
            match crate::answer::entry_record(entry, ttl) {
                None => t1 == t0,
                Some(rec) => {
                    &&& t1.forward == t0.forward.insert(
                        key,
                        crate::answer::row(t0.forward, key).push(rec),
                    )
                    &&& t1.wildcard == (if entry.match_subdomains {
                        t0.wildcard.insert(key, crate::answer::row(t0.wildcard, key).push(rec))
                    } else {
                        t0.wildcard
                    })
                    &&& t1.reverse == (match pointer_of(rec) {
                        Some((k, ptr)) => t0.reverse.insert(
                            k,
                            crate::answer::row(t0.reverse, k).push(ptr),
                        ),
                        None => t0.reverse,
                    })
                },
            }
        }),
{
    let after = before.push(entry);
    let t0 = tables_for(before, ttl, nodata);
    let t1 = tables_for(after, ttl, nodata);
    let key = crate::domain::canonical(entry.domain@);
    assert(after.drop_last() =~= before);
    assert(after.last() == entry);
    if entry.match_subdomains {
        assert(wildcards(after) == wildcards(before).push(entry));
        assert(wildcards(after).drop_last() =~= wildcards(before));
        assert(wildcards(after).last() == entry);
    }
    match crate::answer::entry_record(entry, ttl) {
        None => {
            assert(t1.forward =~= t0.forward);
            assert(t1.wildcard =~= t0.wildcard);
            assert(t1.reverse =~= t0.reverse);
        },
        Some(rec) => {
            assert forall|k: Seq<char>| k != key implies served(after, ttl, k) == served(
                before,
                ttl,
                k,
            ) by {}
            assert(served(after, ttl, key) == served(before, ttl, key).push(rec));
            assert(crate::answer::row(t0.forward, key) =~= served(before, ttl, key));
            assert(t1.forward =~= t0.forward.insert(
                key,
                crate::answer::row(t0.forward, key).push(rec),
            ));
            assert(crate::answer::row(t0.wildcard, key) =~= served(wildcards(before), ttl, key));
            if entry.match_subdomains {
                assert(t1.wildcard =~= t0.wildcard.insert(
                    key,
                    crate::answer::row(t0.wildcard, key).push(rec),
                ));
            } else {
                assert(t1.wildcard =~= t0.wildcard);
            }
            match pointer_of(rec) {
                Some((k, ptr)) => {
                    assert(crate::answer::row(t0.reverse, k) =~= pointers(before, ttl, k));
                    assert(t1.reverse =~= t0.reverse.insert(
                        k,
                        crate::answer::row(t0.reverse, k).push(ptr),
                    ));
                },
                None => {
                    assert(t1.reverse =~= t0.reverse);
                },
            }
        },
    }
}

} // verus!
