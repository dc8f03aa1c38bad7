//! DNS names, record types and records as plain values.
//!
//! A name is parsed from and rendered to its presentation form by
//! `hickory-proto`; everything else about it is read from its labels.
use vstd::prelude::*;
use crate::domain::{valid_label, valid_name};
use crate::net::{Ipv4Addr, Ipv6Addr};
use crate::text::split;

verus! {

/// A domain name: its labels from the host to the root, and whether it is
/// fully qualified.
#[derive(Clone, Debug, PartialEq, Eq)]
pub struct Name {
    pub labels: Vec<Vec<u8>>,
    pub fqdn: bool,
}

/// The labels of a name, and whether it is fully qualified.
pub type NameV = (Seq<Seq<u8>>, bool);

/// The octets of a list of labels.
pub open spec fn label_octets(labels: Seq<Vec<u8>>) -> Seq<Seq<u8>> {
    labels.map_values(|l: Vec<u8>| l@)
}

impl View for Name {
    type V = NameV;

    open spec fn view(&self) -> NameV {
        (label_octets(self.labels@), self.fqdn)
    }
}

/// The number of octets that labels take on the wire, the root included.
pub open spec fn wire_len(labels: Seq<Seq<u8>>) -> nat
    decreases labels.len(),
{
    if labels.len() == 0 {
        1
    } else {
        wire_len(labels.drop_last()) + labels.last().len() + 1
    }
}

/// A name within the limits of the wire format: labels of 1 to 63 octets,
/// 255 octets in all.
pub open spec fn wire_name(n: NameV) -> bool {
    &&& forall|i: int| 0 <= i < n.0.len() ==> 1 <= (#[trigger] n.0[i]).len() <= 63
    &&& wire_len(n.0) <= 255
}

/// The octets of an ASCII text.
pub open spec fn ascii_octets(s: Seq<char>) -> Seq<u8> {
    Seq::new(s.len(), |i: int| s[i] as u8)
}

/// The labels of a dotted name.
pub open spec fn dotted_labels(d: Seq<char>) -> Seq<Seq<u8>> {
    split(d, '.').map_values(|l: Seq<char>| ascii_octets(l))
}

/// A label whose spelling is left alone by name parsing and rendering: valid,
/// in lower case, and without hyphens in both its third and fourth place.
pub open spec fn plain_label(l: Seq<char>) -> bool {
    &&& valid_label(l)
    &&& forall|i: int| 0 <= i < l.len() ==> !('A' <= #[trigger] l[i] <= 'Z')
    &&& !(l.len() >= 4 && l[2] == '-' && l[3] == '-')
}

/// A valid name of plain labels.
pub open spec fn plain_name(d: Seq<char>) -> bool {
    &&& valid_name(d)
    &&& forall|i: int| 0 <= i < split(d, '.').len() ==> plain_label(#[trigger] split(d, '.')[i])
}

// ── Presentation form, by hickory-proto ───────────────────────────────

/// The name that `hickory_proto::rr::Name::from_str` reads from a text, if
/// it reads one.
pub uninterp spec fn parsed_name(text: Seq<char>) -> Option<NameV>;

/// The name that `hickory_proto::rr::Name::from_ascii` reads from a text, if
/// it reads one.
pub uninterp spec fn parsed_ascii_name(text: Seq<char>) -> Option<NameV>;

/// The text that `Display` writes for a `hickory_proto::rr::Name` with the
/// given labels.
pub uninterp spec fn rendered_name(labels: Seq<Seq<u8>>, fqdn: bool) -> Seq<char>;

/// `Name::from_str` of `hickory-proto`: tries the internationalised reading
/// of the name and falls back to the ASCII reading of the whole of it. What it reads is within the
/// limits of the wire format. It reads every valid name with a trailing dot,
/// and takes the labels of a plain name as they are spelled.
#[verifier::external_body]
pub(crate) fn parse_name(text: &str) -> (r: Option<Name>)
    ensures
        match r {
            Some(n) => parsed_name(text@) == Some(n@) && wire_name(n@),
            None => parsed_name(text@) is None,
        },
        forall|d: Seq<char>|
            text@ == #[trigger] d.push('.') && valid_name(d) ==> r is Some && (plain_name(d)
                ==> r->0@ == (dotted_labels(d), true)),
{
    let name = text.parse::<hickory_proto::rr::Name>().ok()?;
    let labels: Vec<Vec<u8>> = name.iter().map(|l| l.to_vec()).collect();
    Some(Name { labels, fqdn: name.is_fqdn() })
}

/// `Name::from_ascii` of `hickory-proto`: takes the labels as they are
/// spelled. What it reads is within the limits of the wire format, and it
/// reads every valid name with a trailing dot.
#[verifier::external_body]
pub(crate) fn parse_ascii_name(text: &str) -> (r: Option<Name>)
    ensures
        match r {
            Some(n) => parsed_ascii_name(text@) == Some(n@) && wire_name(n@),
            None => parsed_ascii_name(text@) is None,
        },
        forall|d: Seq<char>|
            text@ == #[trigger] d.push('.') && valid_name(d) ==> r is Some && r->0@ == (
                dotted_labels(d),
                true,
            ),
{
    let name = hickory_proto::rr::Name::from_ascii(text).ok()?;
    let labels: Vec<Vec<u8>> = name.iter().map(|l| l.to_vec()).collect();
    Some(Name { labels, fqdn: name.is_fqdn() })
}

/// `Display` of `hickory_proto::rr::Name`: the labels separated by dots, with
/// a trailing dot on a fully qualified name. Plain labels are written as they
/// are; others may be escaped or shown in their internationalised form.
#[verifier::external_body]
pub(crate) fn render_name(name: &Name) -> (r: String)
    requires
        wire_name(name@),
    ensures
        r@ == rendered_name(name@.0, name@.1),
        forall|d: Seq<char>|
            name@ == (#[trigger] dotted_labels(d), true) && plain_name(d) ==> r@ == d.push('.'),
{
    let labels = name.labels.iter().map(|l| l.as_slice());
    let mut built = hickory_proto::rr::Name::from_labels(labels).unwrap_or_default();
    built.set_fqdn(name.fqdn);
    built.to_string()
}

impl Name {
    /// A copy of the name.
    pub fn copy(&self) -> (r: Name)
        ensures
            r@ == self@,
    {
        let mut labels: Vec<Vec<u8>> = Vec::new();
        let mut i: usize = 0;
        while i < self.labels.len()
            invariant
                i <= self.labels.len(),
                label_octets(labels@) =~= self@.0.take(i as int),
            decreases self.labels.len() - i,
        {
            let l = self.labels[i].clone();
            proof {
                assert(l@ =~= self.labels@[i as int]@);
            }
            let ghost before = labels@;
            labels.push(l);
            proof {
                assert(label_octets(labels@) =~= label_octets(before).push(l@));
            }
            i += 1;
        }
        proof {
            assert(self@.0.take(self.labels@.len() as int) =~= self@.0);
        }
        Name { labels, fqdn: self.fqdn }
    }
}

// ── Equality of names ─────────────────────────────────────────────────

/// The ASCII lower-case form of one octet.
pub open spec fn lower_octet(b: u8) -> u8 {
    if 65 <= b <= 90 {
        (b + 32) as u8
    } else {
        b
    }
}

/// Two labels are the same, the case of ASCII letters aside.
pub open spec fn same_label(a: Seq<u8>, b: Seq<u8>) -> bool {
    &&& a.len() == b.len()
    &&& forall|i: int| 0 <= i < a.len() ==> lower_octet(#[trigger] a[i]) == lower_octet(b[i])
}

/// Two names are the same, the case of ASCII letters aside.
pub open spec fn same_name(a: NameV, b: NameV) -> bool {
    &&& a.1 == b.1
    &&& a.0.len() == b.0.len()
    &&& forall|i: int| 0 <= i < a.0.len() ==> same_label(#[trigger] a.0[i], b.0[i])
}

fn to_lower_octet(b: u8) -> (r: u8)
    ensures
        r == lower_octet(b),
{
    if 65 <= b && b <= 90 {
        b + 32
    } else {
        b
    }
}

fn labels_match(a: &Vec<u8>, b: &Vec<u8>) -> (r: bool)
    ensures
        r == same_label(a@, b@),
{
    if a.len() != b.len() {
        return false;
    }
    let mut i: usize = 0;
    while i < a.len()
        invariant
            i <= a.len() == b.len(),
            forall|k: int| 0 <= k < i ==> lower_octet(#[trigger] a@[k]) == lower_octet(b@[k]),
        decreases a.len() - i,
    {
        if to_lower_octet(a[i]) != to_lower_octet(b[i]) {
            proof {
                assert(lower_octet(a@[i as int]) != lower_octet(b@[i as int]));
            }
            return false;
        }
        i += 1;
    }
    true
}

/// Whether two names are the same, the case of ASCII letters aside.
pub fn names_match(a: &Name, b: &Name) -> (r: bool)
    ensures
        r == same_name(a@, b@),
{
    if a.fqdn != b.fqdn || a.labels.len() != b.labels.len() {
        return false;
    }
    let mut i: usize = 0;
    while i < a.labels.len()
        invariant
            i <= a.labels.len() == b.labels.len(),
            forall|k: int| 0 <= k < i ==> same_label(#[trigger] a@.0[k], b@.0[k]),
        decreases a.labels.len() - i,
    {
        proof {
            assert(a@.0[i as int] == a.labels@[i as int]@);
            assert(b@.0[i as int] == b.labels@[i as int]@);
        }
        if !labels_match(&a.labels[i], &b.labels[i]) {
            return false;
        }
        i += 1;
    }
    true
}

// ── Record types, codes and classes ───────────────────────────────────

/// A record type. The types that the policy names have variants of their own;
/// any other is held by its number.
#[derive(Clone, Copy, Debug, PartialEq, Eq, Structural, Hash)]
pub enum RecordType {
    A,
    NS,
    CNAME,
    SOA,
    PTR,
    HINFO,
    MX,
    TXT,
    AAAA,
    SRV,
    SVCB,
    HTTPS,
    TLSA,
    ANY,
    Other(u16),
}

/// A response code. The codes that the policy names have variants of their
/// own; any other is held by its number.
#[derive(Clone, Copy, Debug, PartialEq, Eq, Structural)]
pub enum ResponseCode {
    NoError,
    FormErr,
    ServFail,
    NXDomain,
    NotImp,
    Refused,
    Other(u16),
}

/// A DNS class. Classes without a variant are held by their number.
#[derive(Clone, Copy, Debug, PartialEq, Eq, Structural, Hash)]
pub enum DNSClass {
    IN,
    CH,
    Other(u16),
}

// ── Records ───────────────────────────────────────────────────────────

/// The fields of a start-of-authority record.
#[derive(Clone, Debug, PartialEq, Eq)]
pub struct Soa {
    pub mname: Name,
    pub rname: Name,
    pub serial: u32,
    pub refresh: i32,
    pub retry: i32,
    pub expire: i32,
    pub minimum: u32,
}

/// Record data. Types that the policy does not look into keep their octets.
#[derive(Clone, Debug, PartialEq, Eq)]
pub enum RData {
    A(Ipv4Addr),
    AAAA(Ipv6Addr),
    CNAME(Name),
    PTR(Name),
    SOA(Soa),
    HINFO(Vec<u8>, Vec<u8>),
    Other(RecordType, Vec<u8>),
}

/// A resource record.
#[derive(Clone, Debug, PartialEq, Eq)]
pub struct Record {
    pub name: Name,
    pub dns_class: DNSClass,
    pub ttl: u32,
    pub data: RData,
}

/// Record data as mathematical values.
pub enum RDataV {
    A(Seq<u8>),
    AAAA(Seq<u16>),
    CNAME(NameV),
    PTR(NameV),
    SOA(NameV, NameV, u32, i32, i32, i32, u32),
    HINFO(Seq<u8>, Seq<u8>),
    Other(RecordType, Seq<u8>),
}

/// A record as mathematical values.
pub struct RecordV {
    pub name: NameV,
    pub dns_class: DNSClass,
    pub ttl: u32,
    pub data: RDataV,
}

/// A record of class IN.
pub open spec fn internet_record(name: NameV, ttl: u32, data: RDataV) -> RecordV {
    RecordV { name, dns_class: DNSClass::IN, ttl, data }
}

impl View for RData {
    type V = RDataV;

    open spec fn view(&self) -> RDataV {
        match self {
            RData::A(ip) => RDataV::A(ip@),
            RData::AAAA(ip) => RDataV::AAAA(ip@),
            RData::CNAME(n) => RDataV::CNAME(n@),
            RData::PTR(n) => RDataV::PTR(n@),
            RData::SOA(s) => RDataV::SOA(
                s.mname@,
                s.rname@,
                s.serial,
                s.refresh,
                s.retry,
                s.expire,
                s.minimum,
            ),
            RData::HINFO(a, b) => RDataV::HINFO(a@, b@),
            RData::Other(t, b) => RDataV::Other(*t, b@),
        }
    }
}

impl View for Record {
    type V = RecordV;

    open spec fn view(&self) -> RecordV {
        RecordV {
            name: self.name@,
            dns_class: self.dns_class,
            ttl: self.ttl,
            data: self.data@,
        }
    }
}

/// The type of record data.
pub open spec fn type_of(data: RDataV) -> RecordType {
    match data {
        RDataV::A(_) => RecordType::A,
        RDataV::AAAA(_) => RecordType::AAAA,
        RDataV::CNAME(_) => RecordType::CNAME,
        RDataV::PTR(_) => RecordType::PTR,
        RDataV::SOA(..) => RecordType::SOA,
        RDataV::HINFO(..) => RecordType::HINFO,
        RDataV::Other(t, _) => t,
    }
}

/// A list of records as mathematical values.
pub open spec fn record_views(records: Seq<Record>) -> Seq<RecordV> {
    records.map_values(|r: Record| r@)
}

fn copy_octets(v: &Vec<u8>) -> (r: Vec<u8>)
    ensures
        r@ == v@,
{
    let r = v.clone();
    proof {
        assert(r@ =~= v@);
    }
    r
}

impl RData {
    /// A copy of the data.
    pub fn copy(&self) -> (r: RData)
        ensures
            r@ == self@,
    {
        match self {
            RData::A(ip) => RData::A(*ip),
            RData::AAAA(ip) => RData::AAAA(*ip),
            RData::CNAME(n) => RData::CNAME(n.copy()),
            RData::PTR(n) => RData::PTR(n.copy()),
            RData::SOA(s) => RData::SOA(
                Soa {
                    mname: s.mname.copy(),
                    rname: s.rname.copy(),
                    serial: s.serial,
                    refresh: s.refresh,
                    retry: s.retry,
                    expire: s.expire,
                    minimum: s.minimum,
                },
            ),
            RData::HINFO(a, b) => RData::HINFO(copy_octets(a), copy_octets(b)),
            RData::Other(t, b) => RData::Other(*t, copy_octets(b)),
        }
    }
}

impl Record {
    /// A record of class IN from its parts.
    pub fn from_rdata(name: Name, ttl: u32, data: RData) -> (r: Record)
        ensures
            r@ == internet_record(name@, ttl, data@),
    {
        Record { name, dns_class: DNSClass::IN, ttl, data }
    }

    /// The type of the record.
    pub fn record_type(&self) -> (r: RecordType)
        ensures
            r == type_of(self@.data),
    {
        match &self.data {
            RData::A(_) => RecordType::A,
            RData::AAAA(_) => RecordType::AAAA,
            RData::CNAME(_) => RecordType::CNAME,
            RData::PTR(_) => RecordType::PTR,
            RData::SOA(_) => RecordType::SOA,
            RData::HINFO(_, _) => RecordType::HINFO,
            RData::Other(t, _) => *t,
        }
    }

    /// A copy of the record.
    pub fn copy(&self) -> (r: Record)
        ensures
            r@ == self@,
    {
        Record {
            name: self.name.copy(),
            dns_class: self.dns_class,
            ttl: self.ttl,
            data: self.data.copy(),
        }
    }
}

/// A copy of a list of records.
pub fn copy_records(records: &Vec<Record>) -> (r: Vec<Record>)
    ensures
        record_views(r@) == record_views(records@),
{
    let mut out: Vec<Record> = Vec::new();
    let mut i: usize = 0;
    while i < records.len()
        invariant
            i <= records.len(),
            record_views(out@) =~= record_views(records@).take(i as int),
        decreases records.len() - i,
    {
        push_record(&mut out, records[i].copy());
        i += 1;
    }
    proof {
        assert(record_views(records@).take(records@.len() as int) =~= record_views(records@));
    }
    out
}

/// Appends a record to a list.
pub fn push_record(list: &mut Vec<Record>, rec: Record)
    ensures
        record_views(final(list)@) == record_views(old(list)@).push(rec@),
{
    list.push(rec);
    proof {
        assert(record_views(list@) =~= record_views(old(list)@).push(rec@));
    }
}

} // verus!
