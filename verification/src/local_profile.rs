//! Local DNS records of one profile: exact names and wildcards over A, AAAA
//! and CNAME.
//!
//! Unlike the global records, a profile never answers for a missing type and
//! holds no reverse records: what it does not answer goes on to the global
//! records and the upstream.
use vstd::prelude::*;
use crate::answer::{
    answer_row, build_record, entry_record, owner_view, parent, parent_start, row_answer, servable,
    served, table_of, wildcard_type, wildcards,
};
use crate::local::{suffix_table, table_well_named};
use crate::record::{parse_name, parsed_name, record_views, Name, NameV, Record, RecordType, RecordV};
use crate::settings::LocalDnsRecord;
use crate::table::{
    all_well_named, suffix_order, suffix_position, RecordTable, SuffixIndex,
};
use crate::text::{to_chars, to_text};

verus! {

/// The tables of the records of a profile: by exact name and by wildcard apex.
pub struct ProfileTables {
    pub forward: Map<Seq<char>, Seq<RecordV>>,
    pub wildcard: Map<Seq<char>, Seq<RecordV>>,
}

/// The tables that a list of entries makes.
pub open spec fn profile_tables(entries: Seq<LocalDnsRecord>, ttl: u32) -> ProfileTables {
    ProfileTables {
        forward: table_of(|k: Seq<char>| served(entries, ttl, k)),
        wildcard: table_of(|k: Seq<char>| served(wildcards(entries), ttl, k)),
    }
}

/// The answer of the nearest wildcard apex above `name` that has one, and
/// that apex.
pub open spec fn wildcard_answer(
    t: ProfileTables,
    name: Seq<char>,
    qtype: RecordType,
    owner: Option<NameV>,
) -> Option<(Seq<RecordV>, Seq<char>)>
    decreases name.len(),
    via wildcard_answer_terminates
{
    match parent(name) {
        None => None,
        Some(p) => {
            let answer = row_answer(t.forward, t.wildcard[p], qtype, owner);
            if t.wildcard.contains_key(p) && answer is Some {
                Some((answer->0, p))
            } else {
                wildcard_answer(t, p, qtype, owner)
            }
        },
    }
}

#[via_fn]
proof fn wildcard_answer_terminates(
    t: ProfileTables,
    name: Seq<char>,
    qtype: RecordType,
    owner: Option<NameV>,
) {
    crate::answer::lemma_parent_shorter(name);
}

/// The answer of a profile: the exact name first, then the wildcards above it.
pub open spec fn profile_answer(t: ProfileTables, domain: Seq<char>, qtype: RecordType) -> Option<
    (Seq<RecordV>, Seq<char>),
> {
    let exact = row_answer(t.forward, t.forward[domain], qtype, None);
    if !wildcard_type(qtype) {
        None
    } else if t.forward.contains_key(domain) && exact is Some {
        Some((exact->0, domain))
    } else {
        wildcard_answer(t, domain, qtype, parsed_name(domain.push('.')))
    }
}

/// The records that answer a query, and the configured name that they were
/// found under.
pub struct ProfileLocalHit {
    pub records: Vec<Record>,
    pub apex: String,
}

/// The local records of one profile.
pub struct ProfileLocalRecords {
    forward: RecordTable,
    suffix_index: SuffixIndex,
}

impl View for ProfileLocalRecords {
    type V = ProfileTables;

    closed spec fn view(&self) -> ProfileTables {
        ProfileTables { forward: self.forward@, wildcard: suffix_table(self.suffix_index@) }
    }
}

impl Default for ProfileLocalRecords {
    /// The records of a profile that has none.
    fn default() -> (r: ProfileLocalRecords)
        ensures
            r.wf(),
            r@ == profile_tables(Seq::empty(), 0),
    {
        let none: Vec<LocalDnsRecord> = Vec::new();
        proof {
            assert(none@ =~= Seq::<LocalDnsRecord>::empty());
        }
        ProfileLocalRecords::build(none.as_slice(), 0)
    }
}

impl ProfileLocalRecords {
    /// The tables are internally consistent, and every name in them is within
    /// the limits of the wire format.
    pub closed spec fn wf(&self) -> bool {
        &&& self.forward.wf()
        &&& suffix_order(self.suffix_index@)
        &&& table_well_named(self.forward@)
        &&& table_well_named(suffix_table(self.suffix_index@))
    }

    /// Builds the tables of a profile. `default_ttl` is the TTL of records
    /// without one of their own.
    pub fn build(records: &[LocalDnsRecord], default_ttl: u32) -> (r: ProfileLocalRecords)
        ensures
            r.wf(),
            r@ == profile_tables(records@, default_ttl),
            forall|i: int|
                0 <= i < records@.len() && servable(#[trigger] records@[i]) ==> entry_record(
                    records@[i],
                    default_ttl,
                ) is Some,
    {
        let mut r = ProfileLocalRecords {
            forward: RecordTable::new(),
            suffix_index: SuffixIndex::new(),
        };
        let ghost all = records@;
        let mut i: usize = 0;
        proof {
            let t = profile_tables(all.take(0), default_ttl);
            assert(t.forward =~= Map::<Seq<char>, Seq<RecordV>>::empty());
            assert(t.wildcard =~= Map::<Seq<char>, Seq<RecordV>>::empty());
            assert(suffix_table(r.suffix_index@) =~= Map::<Seq<char>, Seq<RecordV>>::empty());
        }
        while i < records.len()
            invariant
                i <= records.len(),
                all == records@,
                r.wf(),
                r@ == profile_tables(all.take(i as int), default_ttl),
                forall|j: int|
                    0 <= j < i && servable(#[trigger] all[j]) ==> entry_record(
                        all[j],
                        default_ttl,
                    ) is Some,
            decreases records.len() - i,
        {
            r.insert(&records[i], default_ttl, Ghost(all.take(i as int)));
            proof {
                assert(all.take(i as int).push(all[i as int]) =~= all.take(i + 1));
            }
            i += 1;
        }
        proof {
            assert(all.take(all.len() as int) =~= all);
        }
        r
    }

    fn insert(
        &mut self,
        entry: &LocalDnsRecord,
        default_ttl: u32,
        Ghost(before): Ghost<Seq<LocalDnsRecord>>,
    )
        requires
            old(self).wf(),
            old(self)@ == profile_tables(before, default_ttl),
        ensures
            final(self).wf(),
            final(self)@ == profile_tables(before.push(*entry), default_ttl),
            servable(*entry) ==> entry_record(*entry, default_ttl) is Some,
    {
        let ghost suffix0 = self.suffix_index@;
        proof {
            crate::local::lemma_tables_step(before, *entry, default_ttl, true);
        }
        let rec = match build_record(entry, default_ttl) {
            Some(rec) => rec,
            None => {
                return;
            },
        };
        let ghost new = rec@;
        let key = crate::domain::canonicalize_domain(&entry.domain);
        if entry.match_subdomains {
            self.suffix_index.push(&key, rec.copy());
            proof {
                assert(suffix_table(self.suffix_index@) =~= suffix_table(suffix0).insert(
                    key@,
                    crate::answer::row(suffix_table(suffix0), key@).push(new),
                ));
            }
        }
        self.forward.push(&key, rec);
        proof {
            let t = profile_tables(before.push(*entry), default_ttl);
            assert(self@.forward == t.forward);
            assert(self@.wildcard == t.wildcard);
        }
    }

    /// The records that answer a query.
    pub fn lookup(&self, domain: &str, qtype: RecordType) -> (r: Option<Vec<Record>>)
        requires
            self.wf(),
        ensures
            match profile_answer(self@, domain@, qtype) {
                Some((records, _)) => r is Some && record_views(r->0@) == records,
                None => r is None,
            },
    {
        match self.lookup_with_apex(domain, qtype) {
            Some(hit) => Some(hit.records),
            None => None,
        }
    }

    /// The records that answer a query, and the configured name that they
    /// were found under.
    pub fn lookup_with_apex(&self, domain: &str, qtype: RecordType) -> (r: Option<ProfileLocalHit>)
        requires
            self.wf(),
        ensures
            match r {
                Some(hit) => profile_answer(self@, domain@, qtype) == Some(
                    (record_views(hit.records@), hit.apex@),
                ),
                None => profile_answer(self@, domain@, qtype) is None,
            },
    {
        if !(qtype == RecordType::A || qtype == RecordType::AAAA || qtype == RecordType::CNAME) {
            return None;
        }
        match self.forward.get(domain) {
            Some(records) => {
                proof {
                    assert(all_well_named(self@.forward[domain@]));
                }
                let none: Option<Name> = None;
                match answer_row(&self.forward, records, qtype, &none) {
                    Some(out) => {
                        return Some(ProfileLocalHit { records: out, apex: domain.to_owned() });
                    },
                    None => {},
                }
            },
            None => {},
        }
        let ghost wild = self@.wildcard;
        if self.suffix_index.len() == 0 {
            proof {
                lemma_nothing_wild(self@, domain@, qtype, parsed_name(domain@.push('.')));
            }
            return None;
        }
        let mut spelled = domain.to_owned();
        spelled.push('.');
        let owner = parse_name(&spelled);
        let ghost who = owner_view(owner);
        let chars = to_chars(domain);
        let mut at: usize = 0;
        proof {
            assert(chars@.skip(0) =~= domain@);
        }
        loop
            invariant
                at <= chars.len(),
                chars@ == domain@,
                self.wf(),
                wild == self@.wildcard,
                who == owner_view(owner),
                profile_answer(self@, domain@, qtype) == wildcard_answer(
                    self@,
                    domain@.skip(at as int),
                    qtype,
                    who,
                ),
            decreases chars.len() - at,
        {
            match parent_start(&chars, at) {
                None => {
                    return None;
                },
                Some(p) => {
                    let apex = to_text(&chars, p, chars.len());
                    proof {
                        assert(apex@ =~= domain@.skip(p as int));
                        assert(wild.contains_key(apex@) == (suffix_position(
                            self.suffix_index@,
                            apex@,
                        ) is Some));
                    }
                    match self.suffix_index.get(&apex) {
                        Some(records) => {
                            proof {
                                assert(wild.contains_key(apex@));
                                assert(all_well_named(wild[apex@]));
                            }
                            match answer_row(&self.forward, records, qtype, &owner) {
                                Some(out) => {
                                    return Some(ProfileLocalHit { records: out, apex });
                                },
                                None => {},
                            }
                        },
                        None => {},
                    }
                    at = p;
                },
            }
        }
    }

    /// Whether the profile has no records.
    pub fn is_empty(&self) -> (r: bool)
        requires
            self.wf(),
        ensures
            r == (self@.forward.len() == 0),
    {
        self.forward.len() == 0
    }

    /// The number of names.
    pub fn forward_count(&self) -> (r: usize)
        requires
            self.wf(),
        ensures
            r == self@.forward.len(),
    {
        self.forward.len()
    }

    /// The number of wildcard apexes.
    pub fn suffix_count(&self) -> (r: usize)
        requires
            self.wf(),
        ensures
            r == self@.wildcard.len(),
    {
        proof {
            crate::local::lemma_suffix_table_len(self.suffix_index@);
        }
        self.suffix_index.len()
    }

    /// Whether any record answers for the names below its own.
    pub fn has_subdomain_records(&self) -> (r: bool)
        ensures
            r == exists|k: Seq<char>| self@.wildcard.contains_key(k),
    {
        let n = self.suffix_index.len();
        proof {
            let rows = self.suffix_index@;
            if n > 0 {
                assert(rows[0].0 == rows[0].0);
                assert(suffix_position(rows, rows[0].0) is Some);
                assert(self@.wildcard.contains_key(rows[0].0));
            }
        }
        n > 0
    }
}

proof fn lemma_nothing_wild(
    t: ProfileTables,
    name: Seq<char>,
    qtype: RecordType,
    owner: Option<NameV>,
)
    requires
        forall|k: Seq<char>| !t.wildcard.contains_key(k),
    ensures
        wildcard_answer(t, name, qtype, owner) is None,
    decreases name.len(),
{
    crate::answer::lemma_parent_shorter(name);
    match parent(name) {
        Some(p) => lemma_nothing_wild(t, p, qtype, owner),
        None => {},
    }
}

} // verus!
