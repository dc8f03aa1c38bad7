//! Address ranges in prefix notation, and the source access list.
use vstd::prelude::*;
use crate::client_subnet::{
    bit_at, family_bits, family_of, mask_octets, masked, masks_agree_where_prefixes_do,
    AddressFamily,
};
use crate::net::{
    embedded_v4, ip_octets, is_mapped, octets_of, parse_v4, parse_v6, to_mapped_v4, v4_of,
    v4_text, v6_octets, v6_of, v6_text, IpAddr,
};
use crate::text::{decimal, split, split_on, texts};

verus! {

/// A range of addresses: those that agree with `address` on the first
/// `prefix` bits.
#[derive(Clone, Debug, PartialEq, Eq)]
pub struct Cidr {
    address: IpAddr,
    prefix: u8,
}

impl View for Cidr {
    type V = (Seq<u8>, u8);

    closed spec fn view(&self) -> (Seq<u8>, u8) {
        (ip_octets(self.address), self.prefix)
    }
}

/// `octets` lie in the range of `c`: the same family, and the same bits up to
/// the prefix.
pub open spec fn in_range(c: (Seq<u8>, u8), octets: Seq<u8>) -> bool {
    &&& octets.len() == c.0.len()
    &&& masked(octets, c.1 as int) == masked(c.0, c.1 as int)
}

/// The octets that an address is matched by: those of the embedded IPv4
/// address for a mapped one.
pub open spec fn match_octets(ip: IpAddr) -> Seq<u8> {
    match ip {
        IpAddr::V4(v4) => v4@,
        IpAddr::V6(v6) => if is_mapped(v6@) {
            embedded_v4(v6@)
        } else {
            v6_octets(v6@)
        },
    }
}

/// Some range of the list holds the address.
pub open spec fn in_list(acl: Seq<Cidr>, ip: IpAddr) -> bool {
    exists|i: int| 0 <= i < acl.len() && in_range((#[trigger] acl[i])@, match_octets(ip))
}

/// A source may query: there is no list, the list is empty, or some range of
/// it holds the source.
pub open spec fn allowed(ip: IpAddr, allow_from: Option<Seq<Cidr>>) -> bool {
    match allow_from {
        None => true,
        Some(acl) => acl.len() == 0 || in_list(acl, ip),
    }
}

/// The octets that a text spells as an address of either family.
pub open spec fn address_of(s: Seq<char>) -> Option<Seq<u8>> {
    match v4_of(s) {
        Some(o) => Some(o),
        None => match v6_of(s) {
            Some(g) => Some(v6_octets(g)),
            None => None,
        },
    }
}

/// `s` spells the range `c`: an address, a slash, and a decimal prefix length
/// that fits the address.
pub open spec fn reads_as_range(s: Seq<char>, c: (Seq<u8>, u8)) -> bool {
    let parts = split(s, '/');
    &&& parts.len() == 2
    &&& address_of(parts[0]) == Some(c.0)
    &&& parts[1] == decimal(c.1 as nat)
    &&& c.1 <= 8 * c.0.len()
}

fn same_octets(a: &Vec<u8>, b: &Vec<u8>) -> (r: bool)
    ensures
        r == (a@ == b@),
{
    if a.len() != b.len() {
        return false;
    }
    let mut i: usize = 0;
    while i < a.len()
        invariant
            i <= a.len() == b.len(),
            forall|k: int| 0 <= k < i ==> a@[k] == b@[k],
        decreases a.len() - i,
    {
        if a[i] != b[i] {
            return false;
        }
        i += 1;
    }
    proof {
        assert(a@ =~= b@);
    }
    true
}

fn to_match_octets(ip: &IpAddr) -> (r: Vec<u8>)
    ensures
        r@ == match_octets(*ip),
{
    match ip {
        IpAddr::V4(_) => octets_of(ip),
        IpAddr::V6(v6) => match to_mapped_v4(v6) {
            Some(v4) => octets_of(&IpAddr::V4(v4)),
            None => octets_of(ip),
        },
    }
}

impl Cidr {
    /// The range of addresses that agree with `address` on `prefix` bits. A
    /// prefix longer than the address makes no range.
    pub fn new(address: IpAddr, prefix: u8) -> (r: Option<Cidr>)
        ensures
            match r {
                Some(c) => prefix <= family_bits(family_of(address)) && c@ == (
                    ip_octets(address),
                    prefix,
                ),
                None => prefix > family_bits(family_of(address)),
            },
    {
        if prefix > AddressFamily::of(&address).max_prefix() {
            None
        } else {
            Some(Cidr { address, prefix })
        }
    }

    /// Reads a range such as `10.0.0.0/8`.
    pub fn parse(s: &str) -> (r: Option<Cidr>)
        ensures
            match r {
                Some(c) => reads_as_range(s@, c@),
                None => forall|c: (Seq<u8>, u8)| !reads_as_range(s@, c),
            },
    {
        let parts = split_on(s, '/');
        let ghost p = split(s@, '/');
        proof {
            assert(p.len() == parts.len());
        }
        if parts.len() != 2 {
            return None;
        }
        proof {
            assert(texts(parts@)[0] == parts@[0]@);
            assert(texts(parts@)[1] == parts@[1]@);
        }
        let address = match parse_v4(&parts[0]) {
            Some(ip) => IpAddr::V4(ip),
            None => match parse_v6(&parts[0]) {
                Some(ip) => IpAddr::V6(ip),
                None => {
                    return None;
                },
            },
        };
        proof {
            assert(address_of(p[0]) == Some(ip_octets(address)));
        }
        match crate::net::parse_octet(&parts[1]) {
            None => None,
            Some(prefix) => {
                proof {
                    assert forall|c: (Seq<u8>, u8)| reads_as_range(s@, c) implies c.1 == prefix by {
                        crate::net::lemma_decimal_injective(c.1 as nat, prefix as nat);
                    }
                }
                Cidr::new(address, prefix)
            },
        }
    }

    /// Whether the range holds the octets of an address.
    fn holds(&self, octets: &Vec<u8>) -> (r: bool)
        ensures
            r == in_range(self@, octets@),
    {
        let mut a = octets_of(&self.address);
        if a.len() != octets.len() {
            return false;
        }
        let mut b = octets.clone();
        proof {
            assert(b@ =~= octets@);
        }
        mask_octets(&mut a, self.prefix);
        mask_octets(&mut b, self.prefix);
        same_octets(&a, &b)
    }

    /// Whether the range holds an address, family for family.
    pub fn contains(&self, ip: &IpAddr) -> (r: bool)
        ensures
            r == in_range(self@, ip_octets(*ip)),
    {
        let octets = octets_of(ip);
        self.holds(&octets)
    }
}

/// Whether some range of the list holds the address. An IPv4-mapped address
/// is matched as the IPv4 address that it carries.
pub fn any_contains(acl: &[Cidr], ip: &IpAddr) -> (r: bool)
    ensures
        r == in_list(acl@, *ip),
{
    let octets = to_match_octets(ip);
    let mut i: usize = 0;
    while i < acl.len()
        invariant
            i <= acl.len(),
            octets@ == match_octets(*ip),
            forall|k: int| 0 <= k < i ==> !in_range((#[trigger] acl@[k])@, match_octets(*ip)),
        decreases acl.len() - i,
    {
        if acl[i].holds(&octets) {
            proof {
                assert(in_range(acl@[i as int]@, match_octets(*ip)));
            }
            return true;
        }
        i += 1;
    }
    false
}

/// Whether a source may query under an access list. No list and an empty one
/// accept every source.
pub fn source_allowed(client_ip: &IpAddr, allow_from: Option<&[Cidr]>) -> (r: bool)
    ensures
        r == allowed(
            *client_ip,
            match allow_from {
                Some(acl) => Some(acl@),
                None => None,
            },
        ),
{
    match allow_from {
        None => true,
        Some(acl) => acl.len() == 0 || any_contains(acl, client_ip),
    }
}

/// A source is vouched for by name: there is a list, and a range of it holds
/// the source.
pub open spec fn vouched(ip: IpAddr, allow_from: Option<Seq<Cidr>>) -> bool {
    match allow_from {
        Some(acl) => acl.len() > 0 && in_list(acl, ip),
        None => false,
    }
}

/// Whether a source is vouched for by name.
pub fn source_vouched(client_ip: &IpAddr, allow_from: Option<&[Cidr]>) -> (r: bool)
    ensures
        r == vouched(
            *client_ip,
            match allow_from {
                Some(acl) => Some(acl@),
                None => None,
            },
        ),
{
    match allow_from {
        None => false,
        Some(acl) => acl.len() > 0 && any_contains(acl, client_ip),
    }
}

/// A list admits an IPv4 client in the same way whether it arrives over IPv4
/// or as a mapped address on a dual-stack socket.
pub proof fn mapped_sources_match_as_ipv4(acl: Seq<Cidr>, v4: IpAddr, v6: IpAddr)
    requires
        v4 is V4,
        v6 is V6,
        is_mapped(v6->V6_0@),
        embedded_v4(v6->V6_0@) == v4->V4_0@,
    ensures
        in_list(acl, v4) == in_list(acl, v6),
{
    assert(match_octets(v4) == match_octets(v6));
}

/// A range holds an address exactly if the two are of one family and agree on
/// each of the first `prefix` bits.
pub proof fn ranges_go_by_the_bits_of_their_prefix(c: (Seq<u8>, u8), octets: Seq<u8>)
    ensures
        in_range(c, octets) <==> octets.len() == c.0.len() && forall|at: int|
            0 <= at < 8 * octets.len() && at < c.1 ==> #[trigger] bit_at(octets, at) == bit_at(
                c.0,
                at,
            ),
{
    if octets.len() == c.0.len() {
        masks_agree_where_prefixes_do(octets, c.0, c.1 as int);
    }
}

/// A source is admitted exactly if there is no list, nothing is listed, or some
/// range of the list agrees with it on each bit of its prefix.
pub proof fn sources_are_admitted_by_the_bits(ip: IpAddr, acl: Seq<Cidr>)
    ensures
        allowed(ip, None),
        allowed(ip, Some(Seq::empty())),
        acl.len() > 0 ==> (allowed(ip, Some(acl)) <==> exists|i: int|
            0 <= i < acl.len() && agrees_on_prefix(#[trigger] acl[i], match_octets(ip))),
        !vouched(ip, None),
        !vouched(ip, Some(Seq::empty())),
        acl.len() > 0 ==> vouched(ip, Some(acl)) == allowed(ip, Some(acl)),
{
    assert forall|i: int| 0 <= i < acl.len() implies in_range(
        (#[trigger] acl[i])@,
        match_octets(ip),
    ) == agrees_on_prefix(acl[i], match_octets(ip)) by {
        ranges_go_by_the_bits_of_their_prefix(acl[i]@, match_octets(ip));
    }
}

/// An address agrees with a range on each bit of its prefix, and is as long.
pub open spec fn agrees_on_prefix(c: Cidr, octets: Seq<u8>) -> bool {
    &&& octets.len() == c@.0.len()
    &&& forall|at: int|
        0 <= at < 8 * octets.len() && at < c@.1 ==> #[trigger] bit_at(octets, at) == bit_at(
            c@.0,
            at,
        )
}

/// An IPv4 address is matched by its four octets, an IPv6 address by its
/// sixteen, the high octet of each group first. Only `::ffff:0:0/96` is matched
/// as IPv4, by the last four of its octets.
pub proof fn addresses_are_matched_by_their_octets(ip: IpAddr)
    ensures
        ip matches IpAddr::V4(v4) ==> match_octets(ip) == v4@,
        ip matches IpAddr::V6(v6) ==> ({
            let g = v6@;
            let mapped = g[0] == 0 && g[1] == 0 && g[2] == 0 && g[3] == 0 && g[4] == 0 && g[5]
                == 0xffff;
            let o = match_octets(ip);
            if mapped {
                o.len() == 4 && o[0] * 256 + o[1] == g[6] && o[2] * 256 + o[3] == g[7]
            } else {
                o.len() == 16 && forall|i: int|
                    0 <= i < 8 ==> #[trigger] g[i] == o[2 * i] * 256 + o[2 * i + 1]
            }
        }),
{
}

/// Every address of a range agrees with every other on its prefix, so a range
/// of the full length holds one address alone.
pub proof fn full_prefix_holds_one_address(c: (Seq<u8>, u8), octets: Seq<u8>)
    requires
        c.1 == 8 * c.0.len(),
        in_range(c, octets),
    ensures
        octets == c.0,
{
    assert forall|i: int| 0 <= i < octets.len() implies octets[i] == c.0[i] by {
        assert(masked(octets, c.1 as int)[i] == octets[i]);
        assert(masked(c.0, c.1 as int)[i] == c.0[i]);
    }
    assert(octets =~= c.0);
}

/// What is written of a range reads as that range: an address of either family,
/// a slash and the number of bits. A longer prefix than the address has bits is
/// not read as one.
pub proof fn ranges_are_read_back(o: Seq<u8>, g: Seq<u16>, prefix: u8)
    requires
        o.len() == 4,
        g.len() == 8,
    ensures
        reads_as_range(v4_text(o).push('/') + decimal(prefix as nat), (o, prefix)) <==> prefix
            <= 32,
        reads_as_range(v6_text(g).push('/') + decimal(prefix as nat), (v6_octets(g), prefix))
            <==> prefix <= 128,
{
    let bits = decimal(prefix as nat);
    crate::text_laws::decimals_spell_their_number(prefix as nat);
    assert forall|i: int| 0 <= i < bits.len() implies #[trigger] bits[i] != '/' by {
        assert('0' <= bits[i] <= '9');
    }
    crate::text::lemma_split_single(bits, '/');
    crate::net_laws::dotted_texts_are_read_back(v4_text(o), o);
    crate::net_laws::colon_texts_are_read_back(g);
    crate::net_laws::address_texts_hold_no_slash(o, g);
    crate::text::lemma_split_single(v4_text(o), '/');
    crate::text::lemma_split_single(v6_text(g), '/');
    crate::text::lemma_split_append(v4_text(o), bits, '/');
    crate::text::lemma_split_append(v6_text(g), bits, '/');
    let p4 = split(v4_text(o).push('/') + bits, '/');
    let p6 = split(v6_text(g).push('/') + bits, '/');
    assert(p4 =~= seq![v4_text(o), bits]);
    assert(p6 =~= seq![v6_text(g), bits]);
    if v4_of(v6_text(g)) is Some {
        crate::net_laws::colon_texts_hold_a_colon(g);
        crate::net_laws::dotted_texts_have_four_numbers(v6_text(g));
        let x = v4_of(v6_text(g))->0;
        crate::net_laws::dotted_texts_are_read_back(v6_text(g), x);
        crate::net_laws::dotted_texts_hold_no_colon(x);
    }
}

/// A text reads as at most one range.
pub proof fn ranges_are_read_one_way(s: Seq<char>, a: (Seq<u8>, u8), b: (Seq<u8>, u8))
    requires
        reads_as_range(s, a),
        reads_as_range(s, b),
    ensures
        a.0 == b.0,
        a.1 == b.1,
        a.1 <= 8 * a.0.len(),
{
    crate::net::lemma_decimal_injective(a.1 as nat, b.1 as nat);
}

} // verus!
