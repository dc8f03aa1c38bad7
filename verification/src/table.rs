//! Lookup tables of records: by exact name, and by the apex of a wildcard.
use vstd::prelude::*;
use vstd::hash_map::StringHashMap;
use crate::domain::{label_count, labels_in};
use crate::record::{push_record, record_views, RDataV, Record, RecordV, wire_name};
use crate::text::same_text;

verus! {

/// The names inside a record are within the limits of the wire format.
pub open spec fn well_named(rec: RecordV) -> bool {
    &&& wire_name(rec.name)
    &&& rec.data matches RDataV::CNAME(n) ==> wire_name(n)
    &&& rec.data matches RDataV::PTR(n) ==> wire_name(n)
}

/// All records of a list are well named.
pub open spec fn all_well_named(records: Seq<RecordV>) -> bool {
    forall|i: int| 0 <= i < records.len() ==> well_named(#[trigger] records[i])
}

// ── Exact names ───────────────────────────────────────────────────────

/// Records by name. The rows are kept in the order in which their names
/// first appeared.
pub struct RecordTable {
    index: StringHashMap<usize>,
    rows: Vec<Vec<Record>>,
}

impl View for RecordTable {
    type V = Map<Seq<char>, Seq<RecordV>>;

    closed spec fn view(&self) -> Map<Seq<char>, Seq<RecordV>> {
        Map::new(
            |k: Seq<char>| self.index@.contains_key(k),
            |k: Seq<char>| record_views(self.rows@[self.index@[k] as int]@),
        )
    }
}

impl RecordTable {
    /// Every name has a row of its own, and no row is empty.
    pub closed spec fn wf(&self) -> bool {
        &&& self.index@.len() == self.rows@.len()
        &&& self.index@.dom().finite()
        &&& forall|k: Seq<char>| #[trigger]
            self.index@.contains_key(k) ==> self.index@[k] < self.rows@.len()
        &&& forall|a: Seq<char>, b: Seq<char>|
            self.index@.contains_key(a) && self.index@.contains_key(b) && #[trigger] self.index@[a]
                == #[trigger] self.index@[b] ==> a == b
    }

    /// The table without records.
    pub fn new() -> (r: RecordTable)
        ensures
            r.wf(),
            r@ == Map::<Seq<char>, Seq<RecordV>>::empty(),
    {
        let r = RecordTable { index: StringHashMap::new(), rows: Vec::new() };
        proof {
            assert(r@ =~= Map::<Seq<char>, Seq<RecordV>>::empty());
        }
        r
    }

    /// Appends a record to the row of `key`.
    pub fn push(&mut self, key: &str, rec: Record)
        requires
            old(self).wf(),
        ensures
            final(self).wf(),
            final(self)@ == old(self)@.insert(
                key@,
                (if old(self)@.contains_key(key@) {
                    old(self)@[key@]
                } else {
                    Seq::empty()
                }).push(rec@),
            ),
    {
        let ghost before = self@;
        let ghost index0 = self.index@;
        let ghost rows0 = self.rows@;
        let found: Option<usize> = match self.index.get(key) {
            Some(i) => Some(*i),
            None => None,
        };
        match found {
            Some(i) => {
                push_record(&mut self.rows[i], rec);
                proof {
                    assert forall|k: Seq<char>| #[trigger]
                        self.index@.contains_key(k) && k != key@ implies self@[k] == before[k] by {
                        assert(self.index@[k] != i);
                    }
                    assert(self@ =~= before.insert(key@, before[key@].push(rec@)));
                }
            },
            None => {
                let mut row: Vec<Record> = Vec::new();
                proof {
                    assert(record_views(row@) =~= Seq::<RecordV>::empty());
                }
                push_record(&mut row, rec);
                let n = self.rows.len();
                self.rows.push(row);
                self.index.insert(key.to_owned(), n);
                proof {
                    assert(self.index@ =~= index0.insert(key@, n));
                    assert forall|k: Seq<char>| #[trigger]
                        index0.contains_key(k) implies record_views(
                        self.rows@[index0[k] as int]@,
                    ) == before[k] by {
                        assert(self.rows@[index0[k] as int] == rows0[index0[k] as int]);
                    }
                    assert(self@ =~= before.insert(key@, Seq::<RecordV>::empty().push(rec@)));
                }
            },
        }
    }

    /// The records of `key`.
    pub fn get(&self, key: &str) -> (r: Option<&Vec<Record>>)
        requires
            self.wf(),
        ensures
            match r {
                Some(row) => self@.contains_key(key@) && record_views(row@) == self@[key@],
                None => !self@.contains_key(key@),
            },
    {
        match self.index.get(key) {
            Some(i) => Some(&self.rows[*i]),
            None => None,
        }
    }

    /// Whether `key` has records.
    pub fn contains(&self, key: &str) -> (r: bool)
        ensures
            r == self@.contains_key(key@),
    {
        self.index.contains_key(key)
    }

    /// The number of names.
    pub fn len(&self) -> (r: usize)
        requires
            self.wf(),
        ensures
            r == self@.len(),
            self@.dom().finite(),
    {
        proof {
            assert(self@.dom() =~= self.index@.dom());
        }
        self.rows.len()
    }
}

// ── Wildcard apexes ───────────────────────────────────────────────────

/// The records of wildcard apexes, deepest apex first.
pub struct SuffixIndex {
    rows: Vec<(String, Vec<Record>)>,
}

impl View for SuffixIndex {
    type V = Seq<(Seq<char>, Seq<RecordV>)>;

    closed spec fn view(&self) -> Seq<(Seq<char>, Seq<RecordV>)> {
        self.rows@.map_values(|r: (String, Vec<Record>)| (r.0@, record_views(r.1@)))
    }
}

/// The position of `key` in a suffix index.
pub open spec fn suffix_position(rows: Seq<(Seq<char>, Seq<RecordV>)>, key: Seq<char>) -> Option<
    int,
> {
    if exists|i: int| 0 <= i < rows.len() && (#[trigger] rows[i]).0 == key {
        Some(choose|i: int| 0 <= i < rows.len() && (#[trigger] rows[i]).0 == key)
    } else {
        None
    }
}

/// The records under the apex `key`; none where there is no such apex.
pub open spec fn suffix_row(rows: Seq<(Seq<char>, Seq<RecordV>)>, key: Seq<char>) -> Seq<RecordV> {
    match suffix_position(rows, key) {
        Some(i) => rows[i].1,
        None => Seq::empty(),
    }
}

/// No apex has two rows, and deeper apexes come first.
pub open spec fn suffix_order(rows: Seq<(Seq<char>, Seq<RecordV>)>) -> bool {
    &&& forall|i: int, j: int|
        0 <= i < j < rows.len() ==> labels_in((#[trigger] rows[i]).0) >= labels_in(
            (#[trigger] rows[j]).0,
        )
    &&& forall|i: int, j: int|
        0 <= i < j < rows.len() ==> (#[trigger] rows[i]).0 != (#[trigger] rows[j]).0
}

pub proof fn lemma_suffix_position(
    rows: Seq<(Seq<char>, Seq<RecordV>)>,
    key: Seq<char>,
    i: int,
)
    requires
        suffix_order(rows),
        0 <= i < rows.len(),
        rows[i].0 == key,
    ensures
        suffix_position(rows, key) == Some(i),
{
    let j = choose|j: int| 0 <= j < rows.len() && (#[trigger] rows[j]).0 == key;
    if j < i {
        assert(rows[j].0 != rows[i].0);
    } else if i < j {
        assert(rows[i].0 != rows[j].0);
    }
}

impl SuffixIndex {
    /// The index without rows.
    pub fn new() -> (r: SuffixIndex)
        ensures
            r@ == Seq::<(Seq<char>, Seq<RecordV>)>::empty(),
            suffix_order(r@),
    {
        let r = SuffixIndex { rows: Vec::new() };
        proof {
            assert(r@ =~= Seq::<(Seq<char>, Seq<RecordV>)>::empty());
        }
        r
    }

    /// The number of apexes.
    pub fn len(&self) -> (r: usize)
        ensures
            r == self@.len(),
    {
        self.rows.len()
    }

    fn find(&self, key: &str) -> (r: Option<usize>)
        requires
            suffix_order(self@),
        ensures
            match r {
                Some(i) => i < self@.len() && self@[i as int].0 == key@ && suffix_position(
                    self@,
                    key@,
                ) == Some(i as int),
                None => suffix_position(self@, key@) is None,
            },
    {
        let mut i: usize = 0;
        while i < self.rows.len()
            invariant
                i <= self.rows.len() == self@.len(),
                suffix_order(self@),
                forall|k: int| 0 <= k < i ==> (#[trigger] self@[k]).0 != key@,
            decreases self.rows.len() - i,
        {
            proof {
                assert(self@[i as int].0 == self.rows@[i as int].0@);
            }
            if same_text(&self.rows[i].0, key) {
                proof {
                    lemma_suffix_position(self@, key@, i as int);
                }
                return Some(i);
            }
            i += 1;
        }
        None
    }

    /// The records under the apex `key`.
    pub fn get(&self, key: &str) -> (r: Option<&Vec<Record>>)
        requires
            suffix_order(self@),
        ensures
            match r {
                Some(row) => suffix_position(self@, key@) is Some && record_views(row@)
                    == suffix_row(self@, key@),
                None => suffix_position(self@, key@) is None,
            },
    {
        match self.find(key) {
            Some(i) => {
                proof {
                    assert(self@[i as int].1 == record_views(self.rows@[i as int].1@));
                }
                Some(&self.rows[i].1)
            },
            None => None,
        }
    }

    /// Appends a record to the row of `key`. A new row is placed behind all
    /// rows that are at least as deep.
    pub fn push(&mut self, key: &str, rec: Record)
        requires
            suffix_order(old(self)@),
        ensures
            suffix_order(final(self)@),
            forall|k: Seq<char>| #[trigger]
                suffix_row(final(self)@, k) == (if k == key@ {
                    suffix_row(old(self)@, k).push(rec@)
                } else {
                    suffix_row(old(self)@, k)
                }),
            forall|k: Seq<char>|
                (#[trigger] suffix_position(final(self)@, k) is Some) == (k == key@
                    || suffix_position(old(self)@, k) is Some),
            final(self)@.len() > 0,
    {
        let ghost before = self@;
        match self.find(key) {
            Some(i) => {
                let ghost rows0 = self.rows@;
                push_record(&mut self.rows[i].1, rec);
                proof {
                    let after = self@;
                    assert(after =~= before.update(
                        i as int,
                        (before[i as int].0, before[i as int].1.push(rec@)),
                    ));
                    lemma_update_row(before, i as int, rec@);
                }
            },
            None => {
                let depth = label_count(key);
                let mut at: usize = 0;
                while at < self.rows.len() && label_count(&self.rows[at].0) >= depth
                    invariant
                        at <= self.rows.len() == before.len(),
                        self@ == before,
                        depth == labels_in(key@),
                        forall|k: int|
                            0 <= k < at ==> labels_in((#[trigger] before[k]).0) >= depth,
                    decreases self.rows.len() - at,
                {
                    proof {
                        assert(before[at as int].0 == self.rows@[at as int].0@);
                    }
                    at += 1;
                }
                proof {
                    if at < before.len() {
                        assert(before[at as int].0 == self.rows@[at as int].0@);
                    }
                }
                let mut row: Vec<Record> = Vec::new();
                proof {
                    assert(record_views(row@) =~= Seq::<RecordV>::empty());
                }
                push_record(&mut row, rec);
                self.rows.insert(at, (key.to_owned(), row));
                proof {
                    let item = (key@, Seq::<RecordV>::empty().push(rec@));
                    assert(self@ =~= before.insert(at as int, item));
                    lemma_insert_row(before, at as int, key@, rec@);
                }
            },
        }
    }
}

proof fn lemma_update_row(rows: Seq<(Seq<char>, Seq<RecordV>)>, i: int, rec: RecordV)
    requires
        suffix_order(rows),
        0 <= i < rows.len(),
    ensures
        ({
            let after = rows.update(i, (rows[i].0, rows[i].1.push(rec)));
            &&& suffix_order(after)
            &&& forall|k: Seq<char>| #[trigger]
                suffix_row(after, k) == (if k == rows[i].0 {
                    suffix_row(rows, k).push(rec)
                } else {
                    suffix_row(rows, k)
                })
            &&& forall|k: Seq<char>|
                (#[trigger] suffix_position(after, k) is Some) == (k == rows[i].0
                    || suffix_position(rows, k) is Some)
        }),
{
    let after = rows.update(i, (rows[i].0, rows[i].1.push(rec)));
    assert forall|a: int| 0 <= a < rows.len() implies (#[trigger] after[a]).0 == rows[a].0 by {}
    assert(suffix_order(after));
    assert forall|k: Seq<char>| true implies #[trigger] suffix_position(after, k)
        == suffix_position(rows, k) by {
        if suffix_position(rows, k) is Some {
            let a = choose|a: int| 0 <= a < rows.len() && (#[trigger] rows[a]).0 == k;
            lemma_suffix_position(rows, k, a);
            lemma_suffix_position(after, k, a);
        } else if suffix_position(after, k) is Some {
            let a = choose|a: int| 0 <= a < after.len() && (#[trigger] after[a]).0 == k;
            assert(rows[a].0 == k);
        }
    }
    lemma_suffix_position(rows, rows[i].0, i);
    assert forall|k: Seq<char>| true implies #[trigger] suffix_row(after, k) == (if k
        == rows[i].0 {
        suffix_row(rows, k).push(rec)
    } else {
        suffix_row(rows, k)
    }) by {
        assert(suffix_position(after, k) == suffix_position(rows, k));
        if suffix_position(rows, k) is Some {
            let a = choose|a: int| 0 <= a < rows.len() && (#[trigger] rows[a]).0 == k;
            lemma_suffix_position(rows, k, a);
        }
    }
}

proof fn lemma_insert_row(
    rows: Seq<(Seq<char>, Seq<RecordV>)>,
    at: int,
    key: Seq<char>,
    rec: RecordV,
)
    requires
        suffix_order(rows),
        0 <= at <= rows.len(),
        suffix_position(rows, key) is None,
        forall|k: int| 0 <= k < at ==> labels_in((#[trigger] rows[k]).0) >= labels_in(key),
        at < rows.len() ==> labels_in(rows[at].0) < labels_in(key),
    ensures
        ({
            let after = rows.insert(at, (key, Seq::<RecordV>::empty().push(rec)));
            &&& suffix_order(after)
            &&& forall|k: Seq<char>| #[trigger]
                suffix_row(after, k) == (if k == key {
                    suffix_row(rows, k).push(rec)
                } else {
                    suffix_row(rows, k)
                })
            &&& forall|k: Seq<char>|
                (#[trigger] suffix_position(after, k) is Some) == (k == key || suffix_position(
                    rows,
                    k,
                ) is Some)
        }),
{
    let item = (key, Seq::<RecordV>::empty().push(rec));
    let after = rows.insert(at, item);
    rows.insert_ensures(at, item);
    assert forall|i: int, j: int| 0 <= i < j < after.len() implies labels_in(
        (#[trigger] after[i]).0,
    ) >= labels_in((#[trigger] after[j]).0) && after[i].0 != after[j].0 by {
        let a = if i < at {
            i
        } else {
            i - 1
        };
        let b = if j < at {
            j
        } else {
            j - 1
        };
        if i == at {
            assert(after[j] == rows[b]);
            if at < b {
                assert(labels_in(rows[at].0) >= labels_in(rows[b].0));
            }
        } else if j == at {
            assert(after[i] == rows[a]);
        } else {
            assert(after[i] == rows[a]);
            assert(after[j] == rows[b]);
        }
    }
    assert(suffix_order(after));
    assert(after[at] == item);
    lemma_suffix_position(after, key, at);
    assert forall|k: Seq<char>| k != key implies #[trigger] suffix_row(after, k) == suffix_row(
        rows,
        k,
    ) by {
        lemma_insert_keeps(rows, at, item, k);
    }
    assert forall|k: Seq<char>| k != key implies (#[trigger] suffix_position(after, k) is Some)
        == (suffix_position(rows, k) is Some) by {
        lemma_insert_keeps(rows, at, item, k);
    }
}

proof fn lemma_insert_keeps(
    rows: Seq<(Seq<char>, Seq<RecordV>)>,
    at: int,
    item: (Seq<char>, Seq<RecordV>),
    k: Seq<char>,
)
    requires
        suffix_order(rows),
        suffix_order(rows.insert(at, item)),
        0 <= at <= rows.len(),
        k != item.0,
    ensures
        suffix_row(rows.insert(at, item), k) == suffix_row(rows, k),
        (suffix_position(rows.insert(at, item), k) is Some) == (suffix_position(rows, k) is Some),
{
    let after = rows.insert(at, item);
    rows.insert_ensures(at, item);
    if suffix_position(rows, k) is Some {
        let a = choose|a: int| 0 <= a < rows.len() && (#[trigger] rows[a]).0 == k;
        lemma_suffix_position(rows, k, a);
        let b = if a < at {
            a
        } else {
            a + 1
        };
        assert(after[b] == rows[a]);
        lemma_suffix_position(after, k, b);
    } else if suffix_position(after, k) is Some {
        let b = choose|b: int| 0 <= b < after.len() && (#[trigger] after[b]).0 == k;
        let a = if b < at {
            b
        } else {
            b - 1
        };
        assert(rows[a] == after[b]);
    }
}

} // verus!
