//! EDNS Client Subnet (RFC 7871): the part of a client address that an
//! upstream may see, and the cache bucket that it selects.
use vstd::prelude::*;
use crate::net::{ip_octets, octets_of, v6_octets, IpAddr, Ipv4Addr, Ipv6Addr};

verus! {

/// Why a client subnet cannot be made.
#[derive(Clone, Copy, Debug, PartialEq, Eq, Structural)]
pub enum EcsError {
    /// The prefix is longer than an address of the family.
    PrefixOutOfRange { family: AddressFamily, prefix: u8, max: u8 },
}

/// The address family of a client subnet.
#[derive(Clone, Copy, Debug, PartialEq, Eq, Structural)]
pub enum AddressFamily {
    /// IPv4, code 1 on the wire.
    V4,
    /// IPv6, code 2 on the wire.
    V6,
}

/// The family of an address.
pub open spec fn family_of(ip: IpAddr) -> AddressFamily {
    match ip {
        IpAddr::V4(_) => AddressFamily::V4,
        IpAddr::V6(_) => AddressFamily::V6,
    }
}

/// The number of bits in an address of the family.
pub open spec fn family_bits(family: AddressFamily) -> u8 {
    match family {
        AddressFamily::V4 => 32,
        AddressFamily::V6 => 128,
    }
}

impl AddressFamily {
    /// The longest prefix of the family.
    pub fn max_prefix(self) -> (r: u8)
        ensures
            r == family_bits(self),
    {
        match self {
            AddressFamily::V4 => 32,
            AddressFamily::V6 => 128,
        }
    }

    /// The family of an address.
    pub fn of(addr: &IpAddr) -> (r: AddressFamily)
        ensures
            r == family_of(*addr),
    {
        match addr {
            IpAddr::V4(_) => AddressFamily::V4,
            IpAddr::V6(_) => AddressFamily::V6,
        }
    }

    fn unspecified_addr(self) -> (r: IpAddr)
        ensures
            family_of(r) == self,
            ip_octets(r) == zeros(family_bits(self) as nat / 8),
    {
        match self {
            AddressFamily::V4 => {
                let r = IpAddr::V4(Ipv4Addr { octets: [0, 0, 0, 0] });
                proof {
                    assert(ip_octets(r) =~= zeros(4));
                }
                r
            },
            AddressFamily::V6 => {
                let r = IpAddr::V6(Ipv6Addr { groups: [0, 0, 0, 0, 0, 0, 0, 0] });
                proof {
                    assert(ip_octets(r) =~= zeros(16));
                }
                r
            },
        }
    }
}

// ── Masking ───────────────────────────────────────────────────────────

/// `n` zero octets.
pub open spec fn zeros(n: nat) -> Seq<u8> {
    Seq::new(n, |i: int| 0u8)
}

/// Two to the power of `k`, for `k` at most 8.
pub open spec fn power(k: int) -> int {
    if k <= 0 {
        1
    } else if k == 1 {
        2
    } else if k == 2 {
        4
    } else if k == 3 {
        8
    } else if k == 4 {
        16
    } else if k == 5 {
        32
    } else if k == 6 {
        64
    } else if k == 7 {
        128
    } else {
        256
    }
}

/// `b` with its lowest `k` bits cleared.
pub open spec fn low_cleared(b: u8, k: int) -> u8 {
    (b - b as int % power(k)) as u8
}

/// Octets with every bit behind the first `prefix` cleared.
pub open spec fn masked(octets: Seq<u8>, prefix: int) -> Seq<u8> {
    Seq::new(octets.len(), |i: int| low_cleared(octets[i], 8 * i + 8 - prefix))
}

fn clear_low(b: u8, k: u8) -> (r: u8)
    requires
        k <= 8,
    ensures
        r == low_cleared(b, k as int),
{
    if k == 8 {
        return 0;
    }
    let step: u8 = if k == 0 {
        1
    } else if k == 1 {
        2
    } else if k == 2 {
        4
    } else if k == 3 {
        8
    } else if k == 4 {
        16
    } else if k == 5 {
        32
    } else if k == 6 {
        64
    } else {
        128
    };
    b - b % step
}

/// Clears every bit of `octets` behind the first `prefix`.
pub fn mask_octets(octets: &mut Vec<u8>, prefix: u8)
    ensures
        final(octets)@ == masked(old(octets)@, prefix as int),
{
    let ghost before = octets@;
    let n = octets.len();
    let mut i: usize = 0;
    while i < n
        invariant
            i <= n == octets.len() == before.len(),
            forall|k: int| 0 <= k < i ==> #[trigger] octets@[k] == masked(before, prefix as int)[k],
            forall|k: int| i <= k < n ==> #[trigger] octets@[k] == before[k],
        decreases n - i,
    {
        let whole: usize = prefix as usize / 8;
        let part: u8 = prefix % 8;
        let drop: u8 = if i < whole {
            0
        } else if i == whole {
            8 - part
        } else {
            8
        };
        let b = clear_low(octets[i], drop);
        proof {
            let k = 8 * i + 8 - prefix;
            assert(power(k) == power(drop as int));
            assert(b == masked(before, prefix as int)[i as int]);
        }
        octets.set(i, b);
        i += 1;
    }
    proof {
        assert(octets@ =~= masked(before, prefix as int));
    }
}

fn from_octets(octets: &Vec<u8>, family: AddressFamily) -> (r: IpAddr)
    requires
        octets.len() == family_bits(family) as nat / 8,
    ensures
        family_of(r) == family,
        ip_octets(r) == octets@,
{
    match family {
        AddressFamily::V4 => {
            let r = IpAddr::V4(
                Ipv4Addr { octets: [octets[0], octets[1], octets[2], octets[3]] },
            );
            proof {
                assert(ip_octets(r) =~= octets@);
            }
            r
        },
        AddressFamily::V6 => {
            let mut groups: [u16; 8] = [0, 0, 0, 0, 0, 0, 0, 0];
            let mut i: usize = 0;
            while i < 8
                invariant
                    i <= 8,
                    octets.len() == 16,
                    forall|k: int|
                        0 <= k < i ==> #[trigger] groups@[k] == octets@[2 * k] * 256 + octets@[2 * k
                            + 1],
                decreases 8 - i,
            {
                groups[i] = octets[2 * i] as u16 * 256 + octets[2 * i + 1] as u16;
                i += 1;
            }
            let r = IpAddr::V6(Ipv6Addr { groups });
            proof {
                assert forall|j: int| 0 <= j < 16 implies #[trigger] v6_octets(groups@)[j]
                    == octets@[j] by {
                    let k = j / 2;
                    assert(groups@[k] == octets@[2 * k] * 256 + octets@[2 * k + 1]);
                }
                assert(ip_octets(r) =~= octets@);
            }
            r
        },
    }
}

/// An address with every bit behind the first `prefix` cleared.
pub fn mask_address(address: &IpAddr, prefix: u8) -> (r: IpAddr)
    ensures
        family_of(r) == family_of(*address),
        ip_octets(r) == masked(ip_octets(*address), prefix as int),
{
    let family = AddressFamily::of(address);
    let mut octets = octets_of(address);
    mask_octets(&mut octets, prefix);
    from_octets(&octets, family)
}

// ── The option ────────────────────────────────────────────────────────

/// A client subnet option: an address and its two prefix lengths.
#[derive(Clone, Copy, Debug, PartialEq, Eq)]
pub struct ClientSubnet {
    pub address: IpAddr,
    pub source_prefix: u8,
    pub scope_prefix: u8,
}

/// The family code of the wire format.
pub open spec fn family_code(family: AddressFamily) -> u8 {
    match family {
        AddressFamily::V4 => 1,
        AddressFamily::V6 => 2,
    }
}

/// The wire form of a client subnet option: the family, the two prefix
/// lengths, and as many octets of the address as the source prefix covers.
pub open spec fn subnet_wire(subnet: ClientSubnet) -> Seq<u8> {
    seq![
        0u8,
        family_code(family_of(subnet.address)),
        subnet.source_prefix,
        subnet.scope_prefix,
    ] + ip_octets(subnet.address).take((subnet.source_prefix as int + 7) / 8)
}

/// The wire form that `hickory_proto::rr::rdata::opt::ClientSubnet` encodes to:
/// family, source and scope prefix, and the octets that the source prefix
/// covers. A source prefix that covers more octets than the address has is
/// refused.
#[verifier::external_body]
fn encode_subnet(subnet: &ClientSubnet) -> (r: Option<Vec<u8>>)
    ensures
        match r {
            Some(bytes) => subnet.source_prefix <= family_bits(family_of(subnet.address))
                && bytes@ == subnet_wire(*subnet),
            None => subnet.source_prefix > family_bits(family_of(subnet.address)),
        },
{
    let address = match subnet.address {
        IpAddr::V4(ip) => ip.octets.into(),
        IpAddr::V6(ip) => ip.groups.into(),
    };
    let option = hickory_proto::rr::rdata::opt::ClientSubnet::new(
        address,
        subnet.source_prefix,
        subnet.scope_prefix,
    );
    Vec::try_from(&option).ok()
}

/// A client subnet as a query carries it: the prefix fits the family, the
/// address holds no bit behind the prefix, and the scope is zero.
#[derive(Clone, Debug, PartialEq, Eq)]
pub struct EdnsClientSubnet {
    subnet: ClientSubnet,
}

/// The cache bucket of queries that carry a client subnet.
#[derive(Clone, Copy, Debug, PartialEq, Eq, Hash)]
pub struct EcsPrefix {
    pub addr: IpAddr,
    pub prefix: u8,
}

impl View for EdnsClientSubnet {
    type V = ClientSubnet;

    closed spec fn view(&self) -> ClientSubnet {
        self.subnet
    }
}

/// What becomes of a client address that is cut to `source_prefix` bits.
pub open spec fn cut_to(
    address: IpAddr,
    source_prefix: u8,
    made: Result<ClientSubnet, EcsError>,
) -> bool {
    match made {
        Ok(s) => {
            &&& source_prefix <= family_bits(family_of(address))
            &&& s.source_prefix == source_prefix
            &&& s.scope_prefix == 0
            &&& family_of(s.address) == family_of(address)
            &&& ip_octets(s.address) == masked(ip_octets(address), source_prefix as int)
        },
        Err(e) => {
            &&& source_prefix > family_bits(family_of(address))
            &&& e == EcsError::PrefixOutOfRange {
                family: family_of(address),
                prefix: source_prefix,
                max: family_bits(family_of(address)),
            }
        },
    }
}

/// The option that says nothing of a client of the family.
pub open spec fn anonymous_subnet(family: AddressFamily, s: ClientSubnet) -> bool {
    &&& s.source_prefix == 0
    &&& s.scope_prefix == 0
    &&& family_of(s.address) == family
    &&& ip_octets(s.address) == zeros(family_bits(family) as nat / 8)
}

/// The cache bucket that an option selects.
pub open spec fn cache_bucket(s: ClientSubnet) -> Option<EcsPrefix> {
    if s.source_prefix == 0 {
        None
    } else {
        Some(EcsPrefix { addr: s.address, prefix: s.source_prefix })
    }
}

impl EdnsClientSubnet {
    /// Well-formedness of the option.
    pub open spec fn wf(&self) -> bool {
        &&& self@.source_prefix <= family_bits(family_of(self@.address))
        &&& ip_octets(self@.address) == masked(
            ip_octets(self@.address),
            self@.source_prefix as int,
        )
        &&& self@.scope_prefix == 0
    }

    /// The option for a client address cut to `source_prefix` bits.
    pub fn new(address: IpAddr, source_prefix: u8) -> (r: Result<EdnsClientSubnet, EcsError>)
        ensures
            match r {
                Ok(ecs) => ecs.wf() && cut_to(address, source_prefix, Ok(ecs@)),
                Err(e) => cut_to(address, source_prefix, Err(e)),
            },
    {
        let family = AddressFamily::of(&address);
        let max = family.max_prefix();
        if source_prefix > max {
            return Err(EcsError::PrefixOutOfRange { family, prefix: source_prefix, max });
        }
        let cut = mask_address(&address, source_prefix);
        proof {
            masking_is_idempotent(ip_octets(address), source_prefix as int);
        }
        Ok(
            EdnsClientSubnet {
                subnet: ClientSubnet { address: cut, source_prefix, scope_prefix: 0 },
            },
        )
    }

    /// The option that tells nothing of the client: no prefix, no address.
    pub fn anonymous(family: AddressFamily) -> (r: EdnsClientSubnet)
        ensures
            r.wf(),
            anonymous_subnet(family, r@),
    {
        let address = family.unspecified_addr();
        let r = EdnsClientSubnet {
            subnet: ClientSubnet { address, source_prefix: 0, scope_prefix: 0 },
        };
        proof {
            assert(masked(ip_octets(address), 0) =~= ip_octets(address));
        }
        r
    }

    /// The family of the address.
    pub fn family(&self) -> (r: AddressFamily)
        ensures
            r == family_of(self@.address),
    {
        AddressFamily::of(&self.subnet.address)
    }

    /// The number of bits of the client address that the option carries.
    pub fn source_prefix(&self) -> (r: u8)
        ensures
            r == self@.source_prefix,
    {
        self.subnet.source_prefix
    }

    /// The masked address.
    pub fn address(&self) -> (r: IpAddr)
        ensures
            r == self@.address,
    {
        self.subnet.address
    }

    /// The option itself.
    pub fn into_proto(self) -> (r: ClientSubnet)
        ensures
            r == self@,
    {
        self.subnet
    }

    /// The wire form of the option.
    pub fn wire(&self) -> (r: Vec<u8>)
        requires
            self.wf(),
        ensures
            r@ == subnet_wire(self@),
    {
        match encode_subnet(&self.subnet) {
            Some(bytes) => bytes,
            None => Vec::new(),
        }
    }

    /// The cache bucket that the option selects. An option without a prefix
    /// selects none, whatever its family.
    pub fn as_cache_prefix(&self) -> (r: Option<EcsPrefix>)
        ensures
            r == cache_bucket(self@),
    {
        if self.subnet.source_prefix == 0 {
            None
        } else {
            Some(EcsPrefix { addr: self.subnet.address, prefix: self.subnet.source_prefix })
        }
    }
}

// ── Laws ──────────────────────────────────────────────────────────────

proof fn lemma_power_sum(a: int, b: int)
    requires
        0 <= a,
        0 <= b,
        a + b <= 8,
    ensures
        power(a + b) == power(a) * power(b),
{
    if a == 0 {
    } else if a == 1 {
    } else if a == 2 {
    } else if a == 3 {
    } else if a == 4 {
    } else if a == 5 {
    } else if a == 6 {
    } else if a == 7 {
    } else {
    }
}

proof fn lemma_mod_steps(x: int, p: int, m: int)
    requires
        x >= 0,
        p > 0,
        m > 0,
    ensures
        (x - x % p) - (x - x % p) % (p * m) == x - x % (p * m),
        (x - x % (p * m)) % p == 0,
        p * m > 0,
{
    let a = x / p;
    let y = p * a;
    assert(p * m > 0) by (nonlinear_arith)
        requires
            p > 0,
            m > 0,
    ;
    vstd::arithmetic::div_mod::lemma_fundamental_div_mod(x, p);
    vstd::arithmetic::div_mod::lemma_mod_breakdown(x, p, m);
    assert(a >= 0) by {
        vstd::arithmetic::div_mod::lemma_div_pos_is_pos(x, p);
    }
    assert(y >= 0) by (nonlinear_arith)
        requires
            y == p * a,
            p > 0,
            a >= 0,
    ;
    vstd::arithmetic::div_mod::lemma_mod_breakdown(y, p, m);
    vstd::arithmetic::div_mod::lemma_mod_multiples_basic(a, p);
    vstd::arithmetic::div_mod::lemma_div_multiples_vanish(a, p);
    assert(p * a == a * p) by (nonlinear_arith);
    let c = a - a % m;
    assert(x - x % (p * m) == p * a - p * (a % m));
    assert(p * a - p * (a % m) == c * p) by (nonlinear_arith)
        requires
            c == a - a % m,
    ;
    vstd::arithmetic::div_mod::lemma_mod_multiples_basic(c, p);
}

proof fn lemma_low_cleared_twice(b: u8, j: int, k: int)
    requires
        j <= k,
    ensures
        low_cleared(low_cleared(b, j), k) == low_cleared(b, k),
        low_cleared(low_cleared(b, k), j) == low_cleared(b, k),
{
    let lo = if j <= 0 {
        0int
    } else if j >= 8 {
        8int
    } else {
        j
    };
    let hi = if k <= 0 {
        0int
    } else if k >= 8 {
        8int
    } else {
        k
    };
    let p = power(lo);
    let m = power(hi - lo);
    lemma_power_sum(lo, hi - lo);
    assert(power(j) == p);
    assert(power(k) == p * m);
    lemma_mod_steps(b as int, p, m);
    assert(0 <= b as int % p <= b) by {
        vstd::arithmetic::div_mod::lemma_mod_bound(b as int, p);
        vstd::arithmetic::div_mod::lemma_mod_decreases(b as nat, p as nat);
    }
    assert(0 <= b as int % (p * m) <= b) by {
        vstd::arithmetic::div_mod::lemma_mod_bound(b as int, p * m);
        vstd::arithmetic::div_mod::lemma_mod_decreases(b as nat, (p * m) as nat);
    }
}

/// Masking twice is masking once.
pub proof fn masking_is_idempotent(octets: Seq<u8>, prefix: int)
    ensures
        masked(masked(octets, prefix), prefix) == masked(octets, prefix),
{
    assert forall|i: int| 0 <= i < octets.len() implies #[trigger] masked(
        masked(octets, prefix),
        prefix,
    )[i] == masked(octets, prefix)[i] by {
        lemma_low_cleared_twice(octets[i], 8 * i + 8 - prefix, 8 * i + 8 - prefix);
    }
    assert(masked(masked(octets, prefix), prefix) =~= masked(octets, prefix));
}

/// A shorter prefix can be taken from a longer one: clients in one bucket
/// share every coarser bucket too.
pub proof fn coarser_mask_absorbs_finer(octets: Seq<u8>, coarse: int, fine: int)
    requires
        coarse <= fine,
    ensures
        masked(masked(octets, fine), coarse) == masked(octets, coarse),
{
    assert forall|i: int| 0 <= i < octets.len() implies #[trigger] masked(
        masked(octets, fine),
        coarse,
    )[i] == masked(octets, coarse)[i] by {
        lemma_low_cleared_twice(octets[i], 8 * i + 8 - fine, 8 * i + 8 - coarse);
    }
    assert(masked(masked(octets, fine), coarse) =~= masked(octets, coarse));
}

/// Octets behind the prefix are zero, and a mask as long as the address
/// leaves it alone.
pub proof fn mask_pads_with_zeros(octets: Seq<u8>, prefix: int)
    ensures
        forall|i: int|
            0 <= i < octets.len() && 8 * i >= prefix ==> #[trigger] masked(octets, prefix)[i] == 0,
        forall|i: int|
            0 <= i < octets.len() && 8 * i + 8 <= prefix ==> #[trigger] masked(octets, prefix)[i]
                == octets[i],
{
}

/// Bit `at` of a string of octets, counted from the front: the first bit is
/// the highest of the first octet.
pub open spec fn bit_at(octets: Seq<u8>, at: int) -> bool {
    (octets[at / 8] >> ((7 - at % 8) as u8)) & 1 == 1
}

proof fn lemma_cleared_bits(b: u8, k: int, s: u8)
    requires
        s < 8,
    ensures
        (low_cleared(b, k) >> s) & 1 == (if s < k {
            0u8
        } else {
            (b >> s) & 1
        }),
{
    let p: u8 = if k <= 0 {
        1
    } else if k == 1 {
        2
    } else if k == 2 {
        4
    } else if k == 3 {
        8
    } else if k == 4 {
        16
    } else if k == 5 {
        32
    } else if k == 6 {
        64
    } else {
        128
    };
    if k >= 8 {
        assert(low_cleared(b, k) == 0);
        assert((0u8 >> s) & 1 == 0) by (bit_vector);
    } else {
        let c = low_cleared(b, k);
        assert(c == b - b % p);
        if k <= 0 {
            assert(c == b);
        } else if k == 1 {
            assert(c == b - b % 2);
            assert((c >> s) & 1 == (if s < 1 { 0u8 } else { (b >> s) & 1 })) by (bit_vector)
                requires
                    s < 8,
                    c == b - b % 2,
            ;
        } else if k == 2 {
            assert((c >> s) & 1 == (if s < 2 { 0u8 } else { (b >> s) & 1 })) by (bit_vector)
                requires
                    s < 8,
                    c == b - b % 4,
            ;
        } else if k == 3 {
            assert((c >> s) & 1 == (if s < 3 { 0u8 } else { (b >> s) & 1 })) by (bit_vector)
                requires
                    s < 8,
                    c == b - b % 8,
            ;
        } else if k == 4 {
            assert((c >> s) & 1 == (if s < 4 { 0u8 } else { (b >> s) & 1 })) by (bit_vector)
                requires
                    s < 8,
                    c == b - b % 16,
            ;
        } else if k == 5 {
            assert((c >> s) & 1 == (if s < 5 { 0u8 } else { (b >> s) & 1 })) by (bit_vector)
                requires
                    s < 8,
                    c == b - b % 32,
            ;
        } else if k == 6 {
            assert((c >> s) & 1 == (if s < 6 { 0u8 } else { (b >> s) & 1 })) by (bit_vector)
                requires
                    s < 8,
                    c == b - b % 64,
            ;
        } else {
            assert((c >> s) & 1 == (if s < 7 { 0u8 } else { (b >> s) & 1 })) by (bit_vector)
                requires
                    s < 8,
                    c == b - b % 128,
            ;
        }
    }
}

/// A mask keeps exactly the prefix, bit by bit: each of the first `prefix`
/// bits is as it was, and each bit behind them is zero.
pub proof fn masks_keep_exactly_the_prefix(octets: Seq<u8>, prefix: int, at: int)
    requires
        0 <= at < 8 * octets.len(),
    ensures
        masked(octets, prefix).len() == octets.len(),
        bit_at(masked(octets, prefix), at) == (at < prefix && bit_at(octets, at)),
{
    let i = at / 8;
    let s = (7 - at % 8) as u8;
    assert(0 <= i < octets.len());
    lemma_cleared_bits(octets[i], 8 * i + 8 - prefix, s);
    assert(masked(octets, prefix)[i] == low_cleared(octets[i], 8 * i + 8 - prefix));
    assert((s < 8 * i + 8 - prefix) == (at >= prefix));
    assert(0u8 & 1 == 0) by (bit_vector);
}

proof fn lemma_octet_by_bits(a: u8, b: u8)
    requires
        (a >> 7) & 1 == 1 <==> (b >> 7) & 1 == 1,
        (a >> 6) & 1 == 1 <==> (b >> 6) & 1 == 1,
        (a >> 5) & 1 == 1 <==> (b >> 5) & 1 == 1,
        (a >> 4) & 1 == 1 <==> (b >> 4) & 1 == 1,
        (a >> 3) & 1 == 1 <==> (b >> 3) & 1 == 1,
        (a >> 2) & 1 == 1 <==> (b >> 2) & 1 == 1,
        (a >> 1) & 1 == 1 <==> (b >> 1) & 1 == 1,
        (a >> 0) & 1 == 1 <==> (b >> 0) & 1 == 1,
    ensures
        a == b,
{
    assert(a == b) by (bit_vector)
        requires
            (a >> 7) & 1 == 1 <==> (b >> 7) & 1 == 1,
            (a >> 6) & 1 == 1 <==> (b >> 6) & 1 == 1,
            (a >> 5) & 1 == 1 <==> (b >> 5) & 1 == 1,
            (a >> 4) & 1 == 1 <==> (b >> 4) & 1 == 1,
            (a >> 3) & 1 == 1 <==> (b >> 3) & 1 == 1,
            (a >> 2) & 1 == 1 <==> (b >> 2) & 1 == 1,
            (a >> 1) & 1 == 1 <==> (b >> 1) & 1 == 1,
            (a >> 0) & 1 == 1 <==> (b >> 0) & 1 == 1,
    ;
}

/// Two strings of octets are the same where all their bits are.
pub proof fn octets_are_their_bits(a: Seq<u8>, b: Seq<u8>)
    requires
        a.len() == b.len(),
        forall|at: int| 0 <= at < 8 * a.len() ==> #[trigger] bit_at(a, at) == bit_at(b, at),
    ensures
        a == b,
{
    assert forall|i: int| 0 <= i < a.len() implies a[i] == b[i] by {
        assert(bit_at(a, 8 * i) == bit_at(b, 8 * i));
        assert(bit_at(a, 8 * i + 1) == bit_at(b, 8 * i + 1));
        assert(bit_at(a, 8 * i + 2) == bit_at(b, 8 * i + 2));
        assert(bit_at(a, 8 * i + 3) == bit_at(b, 8 * i + 3));
        assert(bit_at(a, 8 * i + 4) == bit_at(b, 8 * i + 4));
        assert(bit_at(a, 8 * i + 5) == bit_at(b, 8 * i + 5));
        assert(bit_at(a, 8 * i + 6) == bit_at(b, 8 * i + 6));
        assert(bit_at(a, 8 * i + 7) == bit_at(b, 8 * i + 7));
        lemma_octet_by_bits(a[i], b[i]);
    }
    assert(a =~= b);
}

/// Masks agree exactly where the prefixes do: two clients share a bucket if and
/// only if their addresses agree on each of the first `prefix` bits.
pub proof fn masks_agree_where_prefixes_do(a: Seq<u8>, b: Seq<u8>, prefix: int)
    requires
        a.len() == b.len(),
    ensures
        masked(a, prefix) == masked(b, prefix) <==> forall|at: int|
            0 <= at < 8 * a.len() && at < prefix ==> #[trigger] bit_at(a, at) == bit_at(b, at),
{
    let x = masked(a, prefix);
    let y = masked(b, prefix);
    assert forall|at: int| 0 <= at < 8 * a.len() implies #[trigger] bit_at(x, at) == (at < prefix
        && bit_at(a, at)) && bit_at(y, at) == (at < prefix && bit_at(b, at)) by {
        masks_keep_exactly_the_prefix(a, prefix, at);
        masks_keep_exactly_the_prefix(b, prefix, at);
    }
    if x == y {
        assert forall|at: int| 0 <= at < 8 * a.len() && at < prefix implies #[trigger] bit_at(a, at)
            == bit_at(b, at) by {
            assert(bit_at(x, at) == bit_at(y, at));
        }
    }
    if forall|at: int|
        0 <= at < 8 * a.len() && at < prefix ==> #[trigger] bit_at(a, at) == bit_at(b, at) {
        assert forall|at: int| 0 <= at < 8 * x.len() implies #[trigger] bit_at(x, at) == bit_at(
            y,
            at,
        ) by {
            assert(at < prefix ==> bit_at(a, at) == bit_at(b, at));
        }
        octets_are_their_bits(x, y);
    }
}

/// Without a prefix nothing of the client reaches the wire: the options of
/// any two clients of one family are the same four octets.
pub proof fn zero_prefix_reveals_nothing(a: ClientSubnet, b: ClientSubnet)
    requires
        a.source_prefix == 0,
        b.source_prefix == 0,
        a.scope_prefix == b.scope_prefix,
        family_of(a.address) == family_of(b.address),
    ensures
        subnet_wire(a) == subnet_wire(b),
        subnet_wire(a).len() == 4,
{
    assert(subnet_wire(a) =~= subnet_wire(b));
}

/// What an option is made of: a prefix of at most 32 bits for IPv4 and 128 for
/// IPv6 is accepted, a longer one is refused by naming the family, the prefix and
/// the limit. The option is of the family of the client, carries the prefix and
/// no scope, and holds the bits of the client within the prefix and none behind.
pub proof fn options_carry_the_prefix_of_the_client(
    address: IpAddr,
    source_prefix: u8,
    made: Result<ClientSubnet, EcsError>,
    at: int,
)
    requires
        cut_to(address, source_prefix, made),
        0 <= at < 8 * ip_octets(address).len(),
    ensures
        made is Ok <==> (address is V4 && source_prefix <= 32) || (address is V6 && source_prefix
            <= 128),
        made matches Err(e) ==> e == (EcsError::PrefixOutOfRange {
            family: if address is V4 {
                AddressFamily::V4
            } else {
                AddressFamily::V6
            },
            prefix: source_prefix,
            max: if address is V4 {
                32
            } else {
                128
            },
        }),
        made matches Ok(s) ==> s.source_prefix == source_prefix && s.scope_prefix == 0 && (
        s.address is V4 <==> address is V4) && (bit_at(ip_octets(s.address), at) <==> at
            < source_prefix && bit_at(ip_octets(address), at)),
{
    masks_keep_exactly_the_prefix(ip_octets(address), source_prefix as int, at);
}

/// The anonymous option of a family carries no bit of anybody.
pub proof fn anonymous_options_are_empty(family: AddressFamily, s: ClientSubnet, i: int)
    requires
        anonymous_subnet(family, s),
        0 <= i < ip_octets(s.address).len(),
    ensures
        s.source_prefix == 0,
        s.scope_prefix == 0,
        s.address is V4 <==> family is V4,
        ip_octets(s.address)[i] == 0,
        cache_bucket(s) is None,
{
}

/// The bucket of an option is its masked address and its prefix; an option
/// without a prefix has none.
pub proof fn buckets_go_by_address_and_prefix(s: ClientSubnet)
    ensures
        cache_bucket(s) is None <==> s.source_prefix == 0,
        cache_bucket(s) matches Some(p) ==> p.addr == s.address && p.prefix == s.source_prefix,
{
}

/// The wire form of an option: the family in two octets, the second of which is
/// one for IPv4 and two for IPv6; the prefix; the scope; and just as many octets of
/// the address as the prefix reaches into.
pub proof fn wires_carry_the_octets_in_reach(s: ClientSubnet)
    requires
        s.source_prefix <= 8 * ip_octets(s.address).len(),
    ensures
        ({
            let w = subnet_wire(s);
            let reach = if s.source_prefix % 8 == 0 {
                s.source_prefix as int / 8
            } else {
                s.source_prefix as int / 8 + 1
            };
            &&& w.len() == 4 + reach
            &&& w[0] == 0
            &&& w[1] == (if s.address is V4 {
                1u8
            } else {
                2u8
            })
            &&& w[2] == s.source_prefix
            &&& w[3] == s.scope_prefix
            &&& forall|i: int| 0 <= i < reach ==> #[trigger] w[4 + i] == ip_octets(s.address)[i]
        }),
{
}

} // verus!
