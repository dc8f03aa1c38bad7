//! IP addresses as plain octets: textual forms, reserved and private
//! ranges, reverse names and CIDR matching.
use vstd::prelude::*;
use crate::record::{plain_label, plain_name};
use crate::text::{self, decimal, digit, joined, split, split_on, texts, to_chars, to_decimal};

verus! {

/// An IPv4 address, most significant octet first.
#[derive(Clone, Copy, Debug, PartialEq, Eq, Hash)]
pub struct Ipv4Addr {
    pub octets: [u8; 4],
}

/// An IPv6 address as eight 16-bit groups, most significant first.
#[derive(Clone, Copy, Debug, PartialEq, Eq, Hash)]
pub struct Ipv6Addr {
    pub groups: [u16; 8],
}

/// An address of either family.
#[derive(Clone, Copy, Debug, PartialEq, Eq, Hash)]
pub enum IpAddr {
    V4(Ipv4Addr),
    V6(Ipv6Addr),
}

impl View for Ipv4Addr {
    type V = Seq<u8>;

    open spec fn view(&self) -> Seq<u8> {
        self.octets@
    }
}

impl View for Ipv6Addr {
    type V = Seq<u16>;

    open spec fn view(&self) -> Seq<u16> {
        self.groups@
    }
}

// ── Dotted decimal ────────────────────────────────────────────────────

/// The dotted-decimal form of four octets.
pub open spec fn v4_text(o: Seq<u8>) -> Seq<char> {
    decimal(o[0] as nat) + seq!['.'] + decimal(o[1] as nat) + seq!['.'] + decimal(o[2] as nat)
        + seq!['.'] + decimal(o[3] as nat)
}

/// `s` reads as the octets `o`: four dot-separated decimal numbers, each
/// without leading zeros.
pub open spec fn reads_as_v4(s: Seq<char>, o: Seq<u8>) -> bool {
    &&& o.len() == 4
    &&& split(s, '.') == seq![
        decimal(o[0] as nat),
        decimal(o[1] as nat),
        decimal(o[2] as nat),
        decimal(o[3] as nat),
    ]
}

/// The address that `s` spells in dotted decimal, if it does.
pub open spec fn v4_of(s: Seq<char>) -> Option<Seq<u8>> {
    if exists|o: Seq<u8>| reads_as_v4(s, o) {
        Some(choose|o: Seq<u8>| reads_as_v4(s, o))
    } else {
        None
    }
}

proof fn lemma_digit_injective(a: nat, b: nat)
    requires
        a < 10,
        b < 10,
        digit(a) == digit(b),
    ensures
        a == b,
{
    assert(digit(a) as u32 == 48 + a);
    assert(digit(b) as u32 == 48 + b);
}

/// Distinct numbers have distinct decimal renderings.
pub proof fn lemma_decimal_injective(a: nat, b: nat)
    requires
        decimal(a) == decimal(b),
    ensures
        a == b,
    decreases a,
{
    lemma_decimal_len(a);
    lemma_decimal_len(b);
    if a < 10 && b < 10 {
        assert(decimal(a) == seq![digit(a)]);
        assert(decimal(b) == seq![digit(b)]);
        assert(decimal(a)[0] == digit(a));
        assert(decimal(b)[0] == digit(b));
        lemma_digit_injective(a, b);
    } else if a >= 10 && b >= 10 {
        assert(decimal(a).drop_last() =~= decimal(a / 10));
        assert(decimal(b).drop_last() =~= decimal(b / 10));
        lemma_decimal_injective(a / 10, b / 10);
        assert(decimal(a).last() == digit(a % 10));
        assert(decimal(b).last() == digit(b % 10));
        lemma_digit_injective(a % 10, b % 10);
    }
}

pub proof fn lemma_decimal_len(n: nat)
    ensures
        decimal(n).len() >= 1,
        n >= 10 ==> decimal(n).len() >= 2,
        n < 10 ==> decimal(n).len() == 1,
    decreases n,
{
    if n >= 10 {
        lemma_decimal_len(n / 10);
    }
}

/// A text reads as at most one IPv4 address.
pub proof fn lemma_v4_unique(s: Seq<char>, a: Seq<u8>, b: Seq<u8>)
    requires
        reads_as_v4(s, a),
        reads_as_v4(s, b),
    ensures
        a == b,
{
    let p = split(s, '.');
    assert forall|i: int| 0 <= i < 4 implies a[i] == b[i] by {
        assert(p[i] == decimal(a[i] as nat));
        assert(p[i] == decimal(b[i] as nat));
        lemma_decimal_injective(a[i] as nat, b[i] as nat);
    }
    assert(a =~= b);
}

pub proof fn lemma_v4_of(s: Seq<char>, o: Seq<u8>)
    requires
        reads_as_v4(s, o),
    ensures
        v4_of(s) == Some(o),
{
    lemma_v4_unique(s, o, choose|x: Seq<u8>| reads_as_v4(s, x));
}

/// Reads one octet: a decimal number of at most 255 without leading zeros.
pub fn parse_octet(t: &str) -> (r: Option<u8>)
    ensures
        match r {
            Some(v) => t@ == decimal(v as nat),
            None => forall|v: u8| t@ != #[trigger] decimal(v as nat),
        },
{
    let chars = to_chars(t);
    proof {
        assert forall|v: u8| decimal(v as nat).len() <= 3 && (forall|i: int|
            0 <= i < decimal(v as nat).len() ==> '0' <= #[trigger] decimal(v as nat)[i] <= '9') by {
            reveal_with_fuel(decimal, 4);
        }
        assert forall|v: u8| #[trigger] decimal(v as nat).len() >= 1 by {
            lemma_decimal_len(v as nat);
        }
    }
    if chars.len() == 0 || chars.len() > 3 {
        return None;
    }
    let mut value: u32 = 0;
    let mut i: usize = 0;
    while i < chars.len()
        invariant
            i <= chars.len() <= 3,
            chars@ == t@,
            i == 0 ==> value == 0,
            i == 1 ==> value <= 9 && value == chars@[0] as u32 - 48,
            i == 2 ==> value <= 99 && value == 10 * (chars@[0] as u32 - 48) + (chars@[1] as u32
                - 48),
            i == 3 ==> value <= 999 && value == 100 * (chars@[0] as u32 - 48) + 10 * (chars@[1] as u32
                - 48) + (chars@[2] as u32 - 48),
            forall|k: int| 0 <= k < i ==> '0' <= #[trigger] chars@[k] <= '9',
            forall|v: u8, k: int|
                0 <= k < decimal(v as nat).len() ==> '0' <= #[trigger] decimal(v as nat)[k] <= '9',
        decreases chars.len() - i,
    {
        let c = chars[i];
        if c < '0' || c > '9' {
            proof {
                assert forall|v: u8| t@ != #[trigger] decimal(v as nat) by {
                    if t@ == decimal(v as nat) {
                        assert('0' <= decimal(v as nat)[i as int] <= '9');
                    }
                }
            }
            return None;
        }
        value = value * 10 + (c as u32 - 48);
        i += 1;
    }
    proof {
        assert forall|v: u8| t@ == #[trigger] decimal(v as nat) implies v == value by {
            reveal_with_fuel(decimal, 4);
            let n = v as nat;
            if n < 10 {
            } else if n < 100 {
                assert(t@[0] == digit(n / 10));
                assert(t@[1] == digit(n % 10));
            } else {
                assert(t@[0] == digit(n / 10 / 10));
                assert(t@[1] == digit((n / 10) % 10));
                assert(t@[2] == digit(n % 10));
            }
        }
    }
    if value <= 255 {
        let again = to_decimal(value as u64);
        if text::same_text(&again, t) {
            return Some(value as u8);
        }
    }
    None
}

/// Reads a dotted-decimal IPv4 address.
pub fn parse_v4(s: &str) -> (r: Option<Ipv4Addr>)
    ensures
        match r {
            Some(ip) => v4_of(s@) == Some(ip@) && reads_as_v4(s@, ip@),
            None => v4_of(s@) is None,
        },
{
    let parts = split_on(s, '.');
    let ghost p = split(s@, '.');
    proof {
        assert(p.len() == parts.len());
    }
    if parts.len() != 4 {
        return None;
    }
    let mut octets: [u8; 4] = [0, 0, 0, 0];
    let mut i: usize = 0;
    while i < 4
        invariant
            i <= 4,
            parts.len() == 4,
            p == split(s@, '.'),
            texts(parts@) == p,
            forall|k: int| 0 <= k < i ==> p[k] == decimal(#[trigger] octets@[k] as nat),
        decreases 4 - i,
    {
        proof {
            assert(texts(parts@)[i as int] == parts@[i as int]@);
        }
        match parse_octet(&parts[i]) {
            Some(v) => {
                octets[i] = v;
            },
            None => {
                proof {
                    assert forall|o: Seq<u8>| !reads_as_v4(s@, o) by {
                        if reads_as_v4(s@, o) {
                            assert(p[i as int] == decimal(o[i as int] as nat));
                        }
                    }
                }
                return None;
            },
        }
        i += 1;
    }
    let ip = Ipv4Addr { octets };
    proof {
        assert(p =~= seq![
            decimal(ip@[0] as nat),
            decimal(ip@[1] as nat),
            decimal(ip@[2] as nat),
            decimal(ip@[3] as nat),
        ]) by {
            assert(p[0] == decimal(octets@[0] as nat));
            assert(p[1] == decimal(octets@[1] as nat));
            assert(p[2] == decimal(octets@[2] as nat));
            assert(p[3] == decimal(octets@[3] as nat));
        }
        lemma_v4_of(s@, ip@);
    }
    Some(ip)
}

/// The dotted-decimal form of an IPv4 address.
pub fn v4_to_text(ip: &Ipv4Addr) -> (r: String)
    ensures
        r@ == v4_text(ip@),
{
    let mut out = to_decimal(ip.octets[0] as u64);
    out.push('.');
    out.append(&to_decimal(ip.octets[1] as u64));
    out.push('.');
    out.append(&to_decimal(ip.octets[2] as u64));
    out.push('.');
    out.append(&to_decimal(ip.octets[3] as u64));
    proof {
        assert(out@ =~= v4_text(ip@));
    }
    out
}

// ── Hexadecimal groups ────────────────────────────────────────────────

/// The lower-case hexadecimal digit for `d`.
pub open spec fn hex_digit(d: nat) -> char
    recommends
        d < 16,
{
    if d < 10 {
        (48 + d) as u8 as char
    } else {
        (87 + d) as u8 as char
    }
}

/// The hexadecimal rendering of `n`, without leading zeros.
pub open spec fn hexadecimal(n: nat) -> Seq<char>
    decreases n,
{
    if n < 16 {
        seq![hex_digit(n)]
    } else {
        hexadecimal(n / 16).push(hex_digit(n % 16))
    }
}

/// The value of a hexadecimal digit of either case.
pub open spec fn hex_value(c: char) -> Option<nat> {
    if '0' <= c <= '9' {
        Some((c as u32 - 48) as nat)
    } else if 'a' <= c <= 'f' {
        Some((c as u32 - 87) as nat)
    } else if 'A' <= c <= 'F' {
        Some((c as u32 - 55) as nat)
    } else {
        None
    }
}

/// The number that a sequence of hexadecimal digits spells.
pub open spec fn hex_number(t: Seq<char>) -> Option<nat>
    decreases t.len(),
{
    if t.len() == 0 {
        Some(0)
    } else {
        match (hex_number(t.drop_last()), hex_value(t.last())) {
            (Some(n), Some(d)) => Some(16 * n + d),
            _ => None,
        }
    }
}

/// The 16-bit group that one to four hexadecimal digits spell.
pub open spec fn group_of(t: Seq<char>) -> Option<u16> {
    if 1 <= t.len() <= 4 && hex_number(t) is Some {
        Some(hex_number(t)->0 as u16)
    } else {
        None
    }
}

/// The groups that a list of pieces spells, all of them hexadecimal.
pub open spec fn hex_groups(parts: Seq<Seq<char>>) -> Option<Seq<u16>>
    decreases parts.len(),
{
    if parts.len() == 0 {
        Some(Seq::<u16>::empty())
    } else {
        match (hex_groups(parts.drop_last()), group_of(parts.last())) {
            (Some(g), Some(v)) => Some(g.push(v)),
            _ => None,
        }
    }
}

/// The two groups that four octets fill.
pub open spec fn octet_groups(o: Seq<u8>) -> Seq<u16> {
    seq![(o[0] * 256 + o[1]) as u16, (o[2] * 256 + o[3]) as u16]
}

/// The groups of a colon-separated run; where `tail` is set the last piece
/// may be a dotted-decimal address, which fills two groups.
pub open spec fn groups_in(t: Seq<char>, tail: bool) -> Option<Seq<u16>> {
    let parts = split(t, ':');
    if t.len() == 0 {
        Some(Seq::<u16>::empty())
    } else if tail && v4_of(parts.last()) is Some {
        match hex_groups(parts.drop_last()) {
            Some(g) => Some(g + octet_groups(v4_of(parts.last())->0)),
            None => None,
        }
    } else {
        hex_groups(parts)
    }
}

/// Where the first `::` at or after `i` stands.
pub open spec fn gap_from(s: Seq<char>, i: int) -> Option<int>
    decreases s.len() - i,
{
    if i < 0 || i + 1 >= s.len() {
        None
    } else if s[i] == ':' && s[i + 1] == ':' {
        Some(i)
    } else {
        gap_from(s, i + 1)
    }
}

/// The address that `s` spells: eight groups, or fewer than eight with one
/// `::` standing for the missing zero groups.
pub open spec fn v6_of(s: Seq<char>) -> Option<Seq<u16>> {
    match gap_from(s, 0) {
        None => match groups_in(s, true) {
            Some(g) => if g.len() == 8 {
                Some(g)
            } else {
                None
            },
            None => None,
        },
        Some(p) => match (groups_in(s.take(p), false), groups_in(s.skip(p + 2), true)) {
            (Some(a), Some(b)) => if a.len() + b.len() <= 7 {
                Some(a + Seq::new((8 - a.len() - b.len()) as nat, |i: int| 0u16) + b)
            } else {
                None
            },
            _ => None,
        },
    }
}

fn parse_group(t: &str) -> (r: Option<u16>)
    ensures
        r == group_of(t@),
{
    let chars = to_chars(t);
    if chars.len() == 0 || chars.len() > 4 {
        return None;
    }
    let mut value: u32 = 0;
    let mut i: usize = 0;
    while i < chars.len()
        invariant
            i <= chars.len() <= 4,
            chars@ == t@,
            hex_number(t@.take(i as int)) == Some(value as nat),
            i == 0 ==> value == 0,
            i == 1 ==> value < 16,
            i == 2 ==> value < 256,
            i == 3 ==> value < 4096,
            i == 4 ==> value < 65536,
        decreases chars.len() - i,
    {
        let c = chars[i];
        proof {
            assert(t@.take(i + 1).drop_last() =~= t@.take(i as int));
        }
        let d: u32 = if '0' <= c && c <= '9' {
            c as u32 - 48
        } else if 'a' <= c && c <= 'f' {
            c as u32 - 87
        } else if 'A' <= c && c <= 'F' {
            c as u32 - 55
        } else {
            proof {
                assert(hex_number(t@.take(i + 1)) is None);
                lemma_hex_number_prefix(t@, i + 1);
            }
            return None;
        };
        value = value * 16 + d;
        i += 1;
    }
    proof {
        assert(t@.take(t@.len() as int) =~= t@);
    }
    Some(value as u16)
}

proof fn lemma_hex_number_prefix(t: Seq<char>, k: int)
    requires
        0 <= k <= t.len(),
        hex_number(t.take(k)) is None,
    ensures
        hex_number(t) is None,
    decreases t.len() - k,
{
    if k < t.len() {
        assert(t.take(k + 1).drop_last() =~= t.take(k));
        lemma_hex_number_prefix(t, k + 1);
    } else {
        assert(t.take(k) =~= t);
    }
}

proof fn lemma_hex_groups_prefix(parts: Seq<Seq<char>>, k: int)
    requires
        0 <= k <= parts.len(),
        hex_groups(parts.take(k)) is None,
    ensures
        hex_groups(parts) is None,
    decreases parts.len() - k,
{
    if k < parts.len() {
        assert(parts.take(k + 1).drop_last() =~= parts.take(k));
        lemma_hex_groups_prefix(parts, k + 1);
    } else {
        assert(parts.take(k) =~= parts);
    }
}

fn parse_hex_groups(parts: &Vec<String>, n: usize) -> (r: Option<Vec<u16>>)
    requires
        n <= parts.len(),
    ensures
        match r {
            Some(g) => hex_groups(texts(parts@).take(n as int)) == Some(g@),
            None => hex_groups(texts(parts@).take(n as int)) is None,
        },
{
    let ghost all = texts(parts@);
    let mut out: Vec<u16> = Vec::new();
    let mut i: usize = 0;
    proof {
        assert(all.take(0) =~= Seq::<Seq<char>>::empty());
        assert(out@ =~= Seq::<u16>::empty());
    }
    while i < n
        invariant
            i <= n <= parts.len(),
            all == texts(parts@),
            hex_groups(all.take(i as int)) == Some(out@),
        decreases n - i,
    {
        proof {
            assert(all.take(i + 1).drop_last() =~= all.take(i as int));
            assert(all[i as int] == parts@[i as int]@);
        }
        match parse_group(&parts[i]) {
            Some(v) => {
                out.push(v);
            },
            None => {
                proof {
                    assert(all.take(n as int).take(i + 1) =~= all.take(i + 1));
                    lemma_hex_groups_prefix(all.take(n as int), i + 1);
                }
                return None;
            },
        }
        i += 1;
    }
    Some(out)
}

fn parse_groups(t: &str, tail: bool) -> (r: Option<Vec<u16>>)
    ensures
        match r {
            Some(g) => groups_in(t@, tail) == Some(g@),
            None => groups_in(t@, tail) is None,
        },
{
    if t.is_empty() {
        let out: Vec<u16> = Vec::new();
        proof {
            assert(out@ =~= Seq::<u16>::empty());
        }
        return Some(out);
    }
    let parts = split_on(t, ':');
    let ghost all = texts(parts@);
    proof {
        text::lemma_split_nonempty(t@, ':');
        assert(all.len() == parts.len());
        assert(all.last() == parts@[parts.len() - 1]@);
        assert(all.take(all.len() as int) =~= all);
        assert(all.take(all.len() - 1) =~= all.drop_last());
    }
    if tail {
        match parse_v4(&parts[parts.len() - 1]) {
            Some(ip) => {
                return match parse_hex_groups(&parts, parts.len() - 1) {
                    Some(mut g) => {
                        let ghost g0 = g@;
                        g.push(ip.octets[0] as u16 * 256 + ip.octets[1] as u16);
                        g.push(ip.octets[2] as u16 * 256 + ip.octets[3] as u16);
                        proof {
                            assert(g@ =~= g0 + octet_groups(ip@));
                        }
                        Some(g)
                    },
                    None => None,
                };
            },
            None => {},
        }
    }
    parse_hex_groups(&parts, parts.len())
}

fn find_gap(chars: &Vec<char>) -> (r: Option<usize>)
    ensures
        match r {
            Some(p) => gap_from(chars@, 0) == Some(p as int) && p + 1 < chars.len(),
            None => gap_from(chars@, 0) is None,
        },
{
    let mut i: usize = 0;
    while i < chars.len() && chars.len() - i > 1
        invariant
            i <= chars.len(),
            gap_from(chars@, i as int) == gap_from(chars@, 0),
        decreases chars.len() - i,
    {
        if chars[i] == ':' && chars[i + 1] == ':' {
            return Some(i);
        }
        i += 1;
    }
    None
}

fn array_of_groups(g: &Vec<u16>) -> (r: Ipv6Addr)
    requires
        g.len() == 8,
    ensures
        r@ == g@,
{
    let r = Ipv6Addr { groups: [g[0], g[1], g[2], g[3], g[4], g[5], g[6], g[7]] };
    proof {
        assert(r@ =~= g@);
    }
    r
}

/// Reads an IPv6 address.
pub fn parse_v6(s: &str) -> (r: Option<Ipv6Addr>)
    ensures
        match r {
            Some(ip) => v6_of(s@) == Some(ip@),
            None => v6_of(s@) is None,
        },
{
    let chars = to_chars(s);
    match find_gap(&chars) {
        None => match parse_groups(s, true) {
            Some(g) => {
                if g.len() == 8 {
                    Some(array_of_groups(&g))
                } else {
                    None
                }
            },
            None => None,
        },
        Some(p) => {
            let head = text::to_text(&chars, 0, p);
            let tail = text::to_text(&chars, p + 2, chars.len());
            proof {
                assert(head@ =~= s@.take(p as int));
                assert(tail@ =~= s@.skip(p + 2));
            }
            let a = match parse_groups(&head, false) {
                Some(a) => a,
                None => {
                    return None;
                },
            };
            let b = match parse_groups(&tail, true) {
                Some(b) => b,
                None => {
                    return None;
                },
            };
            if a.len() > 7 || b.len() > 7 - a.len() {
                return None;
            }
            let ghost ga = a@;
            let ghost gb = b@;
            let mut g = a;
            let n: usize = 8 - b.len();
            while g.len() < n
                invariant
                    ga.len() <= g.len() <= n == 8 - gb.len(),
                    g@ == ga + Seq::new((g.len() - ga.len()) as nat, |i: int| 0u16),
                decreases n - g.len(),
            {
                let ghost g0 = g@;
                g.push(0);
                proof {
                    assert(g@ =~= ga + Seq::new((g.len() - ga.len()) as nat, |i: int| 0u16));
                }
            }
            let ghost g1 = g@;
            let mut i: usize = 0;
            while i < b.len()
                invariant
                    i <= b.len(),
                    b@ == gb,
                    g@ == g1 + gb.take(i as int),
                decreases b.len() - i,
            {
                g.push(b[i]);
                i += 1;
                proof {
                    assert(g@ =~= g1 + gb.take(i as int));
                }
            }
            proof {
                assert(gb.take(gb.len() as int) =~= gb);
            }
            Some(array_of_groups(&g))
        },
    }
}

// ── IPv6 rendering ────────────────────────────────────────────────────

/// Eight groups of the IPv4-mapped form `::ffff:a.b.c.d`.
pub open spec fn is_mapped(g: Seq<u16>) -> bool {
    g[0] == 0 && g[1] == 0 && g[2] == 0 && g[3] == 0 && g[4] == 0 && g[5] == 0xffff
}

/// The IPv4 octets embedded in the last two groups.
pub open spec fn embedded_v4(g: Seq<u16>) -> Seq<u8> {
    seq![(g[6] / 256) as u8, (g[6] % 256) as u8, (g[7] / 256) as u8, (g[7] % 256) as u8]
}

/// The number of zero groups that follow each other from position `i`.
pub open spec fn zero_run(g: Seq<u16>, i: int) -> nat
    decreases g.len() - i,
{
    if i < 0 || i >= g.len() || g[i] != 0 {
        0
    } else {
        1 + zero_run(g, i + 1)
    }
}

/// The leftmost of the positions below `n` with the longest zero run.
pub open spec fn longest_run(g: Seq<u16>, n: int) -> int
    decreases n,
{
    if n <= 1 {
        0
    } else {
        let best = longest_run(g, n - 1);
        if zero_run(g, n - 1) > zero_run(g, best) {
            n - 1
        } else {
            best
        }
    }
}

/// Groups in hexadecimal, separated by colons.
pub open spec fn hex_joined(g: Seq<u16>) -> Seq<char>
    decreases g.len(),
{
    if g.len() == 0 {
        Seq::empty()
    } else if g.len() == 1 {
        hexadecimal(g[0] as nat)
    } else {
        hex_joined(g.drop_last()).push(':') + hexadecimal(g.last() as nat)
    }
}

/// The canonical text of an IPv6 address: a mapped address keeps its
/// dotted-decimal tail, and otherwise the first longest run of at least two
/// zero groups is written `::`.
pub open spec fn v6_text(g: Seq<u16>) -> Seq<char> {
    let best = longest_run(g, 8);
    let run = zero_run(g, best);
    if is_mapped(g) {
        "::ffff:"@ + v4_text(embedded_v4(g))
    } else if run > 1 {
        hex_joined(g.take(best)) + "::"@ + hex_joined(g.skip(best + run))
    } else {
        hex_joined(g)
    }
}

fn hex_char(d: u16) -> (r: char)
    requires
        d < 16,
    ensures
        r == hex_digit(d as nat),
{
    if d < 10 {
        (48 + d as u8) as char
    } else {
        (87 + d as u8) as char
    }
}

fn to_hex(n: u16) -> (r: String)
    ensures
        r@ == hexadecimal(n as nat),
    decreases n,
{
    if n < 16 {
        let mut out = String::new();
        out.push(hex_char(n));
        proof {
            assert(out@ =~= seq![hex_digit(n as nat)]);
        }
        out
    } else {
        let mut out = to_hex(n / 16);
        out.push(hex_char(n % 16));
        out
    }
}

fn join_hex(ip: &Ipv6Addr, from: usize, to: usize) -> (r: String)
    requires
        from <= to <= 8,
    ensures
        r@ == hex_joined(ip@.subrange(from as int, to as int)),
{
    let mut out = String::new();
    let mut i: usize = from;
    proof {
        assert(ip@.subrange(from as int, from as int) =~= Seq::<u16>::empty());
        assert(out@ =~= hex_joined(Seq::<u16>::empty()));
    }
    while i < to
        invariant
            from <= i <= to <= 8,
            out@ == hex_joined(ip@.subrange(from as int, i as int)),
        decreases to - i,
    {
        let ghost next = ip@.subrange(from as int, i + 1);
        proof {
            assert(next.drop_last() =~= ip@.subrange(from as int, i as int));
            assert(next.last() == ip@[i as int]);
        }
        if i > from {
            out.push(':');
        }
        let h = to_hex(ip.groups[i]);
        let ghost before = out@;
        out.append(&h);
        proof {
            if i == from {
                assert(next.len() == 1);
                assert(before + h@ =~= h@);
            }
        }
        i += 1;
    }
    out
}

fn run_from(ip: &Ipv6Addr, at: usize) -> (r: usize)
    requires
        at <= 8,
    ensures
        r == zero_run(ip@, at as int),
        r <= 8 - at,
    decreases 8 - at,
{
    if at == 8 || ip.groups[at] != 0 {
        0
    } else {
        1 + run_from(ip, at + 1)
    }
}

/// Whether the address is IPv4-mapped, and the embedded address if it is.
pub fn to_mapped_v4(ip: &Ipv6Addr) -> (r: Option<Ipv4Addr>)
    ensures
        match r {
            Some(v4) => is_mapped(ip@) && v4@ == embedded_v4(ip@),
            None => !is_mapped(ip@),
        },
{
    let g = ip.groups;
    if g[0] == 0 && g[1] == 0 && g[2] == 0 && g[3] == 0 && g[4] == 0 && g[5] == 0xffff {
        let r = Ipv4Addr {
            octets: [(g[6] / 256) as u8, (g[6] % 256) as u8, (g[7] / 256) as u8, (g[7] % 256) as u8],
        };
        proof {
            assert(r@ =~= embedded_v4(ip@));
        }
        Some(r)
    } else {
        None
    }
}

/// The canonical text of an IPv6 address.
pub fn v6_to_text(ip: &Ipv6Addr) -> (r: String)
    ensures
        r@ == v6_text(ip@),
{
    match to_mapped_v4(ip) {
        Some(v4) => {
            return joined("::ffff:", &v4_to_text(&v4));
        },
        None => {},
    }
    let mut best: usize = 0;
    let mut i: usize = 1;
    while i < 8
        invariant
            1 <= i <= 8,
            best < i,
            best == longest_run(ip@, i as int),
        decreases 8 - i,
    {
        if run_from(ip, i) > run_from(ip, best) {
            best = i;
        }
        i += 1;
    }
    let run = run_from(ip, best);
    if run > 1 {
        let mut out = join_hex(ip, 0, best);
        out.append("::");
        out.append(&join_hex(ip, best + run, 8));
        proof {
            assert(ip@.subrange(0, best as int) =~= ip@.take(best as int));
            assert(ip@.subrange(best + run, 8) =~= ip@.skip(best + run));
        }
        out
    } else {
        proof {
            assert(ip@.subrange(0, 8) =~= ip@);
        }
        join_hex(ip, 0, 8)
    }
}

// ── Address ranges ────────────────────────────────────────────────────

/// Unspecified, loopback, multicast, broadcast or class E: never a
/// legitimate redirect target.
pub open spec fn reserved_v4(o: Seq<u8>) -> bool {
    ||| o == seq![0u8, 0, 0, 0]
    ||| o[0] == 127
    ||| o[0] >= 224
}

/// `10.0.0.0/8`, `172.16.0.0/12`, `192.168.0.0/16` or `169.254.0.0/16`.
pub open spec fn private_v4(o: Seq<u8>) -> bool {
    ||| o[0] == 10
    ||| o[0] == 172 && 16 <= o[1] <= 31
    ||| o[0] == 192 && o[1] == 168
    ||| o[0] == 169 && o[1] == 254
}

/// Unspecified, loopback, multicast, or mapped from a reserved IPv4 address.
pub open spec fn reserved_v6(g: Seq<u16>) -> bool {
    ||| g == seq![0u16, 0, 0, 0, 0, 0, 0, 0]
    ||| g == seq![0u16, 0, 0, 0, 0, 0, 0, 1]
    ||| g[0] >= 0xff00
    ||| is_mapped(g) && reserved_v4(embedded_v4(g))
}

/// `fc00::/7` or `fe80::/10`.
pub open spec fn private_v6(g: Seq<u16>) -> bool {
    ||| 0xfc00 <= g[0] <= 0xfdff
    ||| 0xfe80 <= g[0] <= 0xfebf
}

/// Whether an IPv4 address is never a legitimate redirect target.
pub fn is_reserved_v4(ip: &Ipv4Addr) -> (r: bool)
    ensures
        r == reserved_v4(ip@),
{
    let o = ip.octets;
    let unspecified = o[0] == 0 && o[1] == 0 && o[2] == 0 && o[3] == 0;
    proof {
        assert(unspecified == (ip@ =~= seq![0u8, 0, 0, 0]));
    }
    unspecified || o[0] == 127 || o[0] >= 224
}

/// Whether an IPv4 address is private or link-local.
pub fn is_private_v4(ip: &Ipv4Addr) -> (r: bool)
    ensures
        r == private_v4(ip@),
{
    let o = ip.octets;
    o[0] == 10 || (o[0] == 172 && 16 <= o[1] && o[1] <= 31) || (o[0] == 192 && o[1] == 168) || (
    o[0] == 169 && o[1] == 254)
}

/// Whether an IPv6 address is never a legitimate redirect target.
pub fn is_reserved_v6(ip: &Ipv6Addr) -> (r: bool)
    ensures
        r == reserved_v6(ip@),
{
    let g = ip.groups;
    let high = g[0] == 0 && g[1] == 0 && g[2] == 0 && g[3] == 0 && g[4] == 0 && g[5] == 0 && g[6]
        == 0;
    proof {
        assert((high && g[7] == 0) == (ip@ =~= seq![0u16, 0, 0, 0, 0, 0, 0, 0]));
        assert((high && g[7] == 1) == (ip@ =~= seq![0u16, 0, 0, 0, 0, 0, 0, 1]));
    }
    if high && g[7] <= 1 {
        return true;
    }
    if g[0] >= 0xff00 {
        return true;
    }
    match to_mapped_v4(ip) {
        Some(v4) => is_reserved_v4(&v4),
        None => false,
    }
}

/// Whether an IPv6 address is unique-local or link-local.
pub fn is_private_v6(ip: &Ipv6Addr) -> (r: bool)
    ensures
        r == private_v6(ip@),
{
    let g = ip.groups;
    (0xfc00 <= g[0] && g[0] <= 0xfdff) || (0xfe80 <= g[0] && g[0] <= 0xfebf)
}

// ── Reverse names ─────────────────────────────────────────────────────

/// The name under `in-addr.arpa` of an IPv4 address.
pub open spec fn v4_ptr(o: Seq<u8>) -> Seq<char> {
    v4_text(seq![o[3], o[2], o[1], o[0]]) + ".in-addr.arpa"@
}

/// The `i`-th of the 32 nibbles of an IPv6 address, most significant first.
pub open spec fn nibble(g: Seq<u16>, i: int) -> nat {
    let group = g[i / 4] as nat;
    if i % 4 == 0 {
        group / 4096
    } else if i % 4 == 1 {
        (group / 256) % 16
    } else if i % 4 == 2 {
        (group / 16) % 16
    } else {
        group % 16
    }
}

/// The last `n` nibbles from the least significant on, each followed by a dot.
pub open spec fn nibbles_text(g: Seq<u16>, n: nat) -> Seq<char>
    decreases n,
{
    if n == 0 {
        Seq::empty()
    } else {
        nibbles_text(g, (n - 1) as nat).push(hex_digit(nibble(g, 32 - n))).push('.')
    }
}

/// The name under `ip6.arpa` of an IPv6 address.
pub open spec fn v6_ptr(g: Seq<u16>) -> Seq<char> {
    nibbles_text(g, 32) + "ip6.arpa"@
}

/// The name under `in-addr.arpa` of an IPv4 address.
pub fn ipv4_to_ptr(ip: &Ipv4Addr) -> (r: String)
    ensures
        r@ == v4_ptr(ip@),
{
    let o = ip.octets;
    let back = Ipv4Addr { octets: [o[3], o[2], o[1], o[0]] };
    proof {
        assert(back@ =~= seq![o[3], o[2], o[1], o[0]]);
    }
    joined(&v4_to_text(&back), ".in-addr.arpa")
}

/// The name under `ip6.arpa` of an IPv6 address.
pub fn ipv6_to_ptr(ip: &Ipv6Addr) -> (r: String)
    ensures
        r@ == v6_ptr(ip@),
{
    let mut out = String::new();
    let mut n: usize = 0;
    proof {
        assert(out@ =~= nibbles_text(ip@, 0));
    }
    while n < 32
        invariant
            n <= 32,
            out@ == nibbles_text(ip@, n as nat),
        decreases 32 - n,
    {
        let i: usize = 31 - n;
        let group = ip.groups[i / 4];
        let d: u16 = if i % 4 == 0 {
            group / 4096
        } else if i % 4 == 1 {
            (group / 256) % 16
        } else if i % 4 == 2 {
            (group / 16) % 16
        } else {
            group % 16
        };
        out.push(hex_char(d));
        out.push('.');
        n += 1;
    }
    out.append("ip6.arpa");
    out
}

proof fn lemma_digits_are_plain(n: nat)
    requires
        n <= 255,
    ensures
        plain_label(decimal(n)),
        decimal(n).len() <= 3,
        forall|i: int| 0 <= i < decimal(n).len() ==> #[trigger] decimal(n)[i] != '.',
{
    reveal_with_fuel(decimal, 4);
    lemma_decimal_len(n);
}

/// Every piece of `t` is a plain label.
spec fn all_plain(t: Seq<char>) -> bool {
    forall|i: int| 0 <= i < split(t, '.').len() ==> plain_label(#[trigger] split(t, '.')[i])
}

proof fn lemma_prepend_plain(l: Seq<char>, t: Seq<char>)
    requires
        plain_label(l),
        forall|i: int| 0 <= i < l.len() ==> #[trigger] l[i] != '.',
        all_plain(t),
    ensures
        all_plain(l.push('.') + t),
{
    text::lemma_split_single(l, '.');
    text::lemma_split_append(l, t, '.');
    let parts = split(l.push('.') + t, '.');
    assert forall|i: int| 0 <= i < parts.len() implies plain_label(#[trigger] parts[i]) by {
        if i > 0 {
            assert(parts[i] == split(t, '.')[i - 1]);
        }
    }
}

proof fn lemma_in_addr_is_plain()
    ensures
        ".in-addr.arpa"@ == seq!['.'] + ".in-addr.arpa"@.skip(1),
        ".in-addr.arpa"@.len() == 13,
        all_plain(".in-addr.arpa"@.skip(1)),
{
    reveal_strlit(".in-addr.arpa");
    let inaddr = seq!['i', 'n', '-', 'a', 'd', 'd', 'r'];
    let arpa = seq!['a', 'r', 'p', 'a'];
    assert(".in-addr.arpa"@ =~= seq!['.'] + ".in-addr.arpa"@.skip(1));
    assert(".in-addr.arpa"@.skip(1) =~= inaddr.push('.') + arpa);
    text::lemma_split_single(arpa, '.');
    assert(split(arpa, '.')[0] == arpa);
    assert(plain_label(arpa));
    assert(plain_label(inaddr));
    lemma_prepend_plain(inaddr, arpa);
}

proof fn lemma_four_parts(
    a: Seq<char>,
    b: Seq<char>,
    c: Seq<char>,
    d: Seq<char>,
    t: Seq<char>,
)
    ensures
        a + seq!['.'] + b + seq!['.'] + c + seq!['.'] + d + (seq!['.'] + t) == a.push('.') + (
        b.push('.') + (c.push('.') + (d.push('.') + t))),
{
    assert(a + seq!['.'] + b + seq!['.'] + c + seq!['.'] + d + (seq!['.'] + t) =~= a.push('.') + (
    b.push('.') + (c.push('.') + (d.push('.') + t))));
}

/// The reverse name of an IPv4 address is a plain name.
pub proof fn lemma_v4_ptr_is_plain(o: Seq<u8>)
    ensures
        plain_name(v4_ptr(o)),
{
    lemma_in_addr_is_plain();
    let t = ".in-addr.arpa"@.skip(1);
    lemma_digits_are_plain(o[0] as nat);
    lemma_digits_are_plain(o[1] as nat);
    lemma_digits_are_plain(o[2] as nat);
    lemma_digits_are_plain(o[3] as nat);
    let a = decimal(o[3] as nat);
    let b = decimal(o[2] as nat);
    let c = decimal(o[1] as nat);
    let d = decimal(o[0] as nat);
    lemma_prepend_plain(d, t);
    lemma_prepend_plain(c, d.push('.') + t);
    lemma_prepend_plain(b, c.push('.') + (d.push('.') + t));
    lemma_prepend_plain(a, b.push('.') + (c.push('.') + (d.push('.') + t)));
    lemma_four_parts(a, b, c, d, t);
}

pub proof fn lemma_nibble_label(g: Seq<u16>, i: int)
    requires
        0 <= i < 32,
        g.len() == 8,
    ensures
        nibble(g, i) < 16,
        hex_digit(nibble(g, i)) != '.',
        plain_label(seq![hex_digit(nibble(g, i))]),
{
    let l = seq![hex_digit(nibble(g, i))];
    assert(g[i / 4] <= 65535);
    assert(l[0] == hex_digit(nibble(g, i)));
}

/// The labels of the last `n` nibbles, the least significant first.
pub open spec fn nibble_labels(g: Seq<u16>, n: nat) -> Seq<Seq<char>> {
    Seq::new(n, |i: int| seq![hex_digit(nibble(g, 31 - i))])
}

pub proof fn lemma_split_nibbles(g: Seq<u16>, n: nat, t: Seq<char>)
    requires
        n <= 32,
        g.len() == 8,
    ensures
        split(nibbles_text(g, n) + t, '.') == nibble_labels(g, n) + split(t, '.'),
        nibbles_text(g, n).len() == 2 * n,
    decreases n,
{
    if n == 0 {
        assert(nibbles_text(g, n) + t =~= t);
        assert(nibble_labels(g, n) + split(t, '.') =~= split(t, '.'));
    } else {
        let m = (n - 1) as nat;
        let h = seq![hex_digit(nibble(g, 32 - n))];
        lemma_nibble_label(g, 32 - n);
        lemma_split_nibbles(g, m, h);
        text::lemma_split_single(h, '.');
        let head = nibbles_text(g, m) + h;
        assert(nibbles_text(g, n) + t =~= head.push('.') + t);
        text::lemma_split_append(head, t, '.');
        assert(nibble_labels(g, n) =~= nibble_labels(g, m) + seq![h]);
        assert(split(nibbles_text(g, n) + t, '.') =~= nibble_labels(g, n) + split(t, '.'));
    }
}

/// The reverse name of an IPv6 address is a plain name.
pub proof fn lemma_v6_ptr_is_plain(g: Seq<u16>)
    requires
        g.len() == 8,
    ensures
        plain_name(v6_ptr(g)),
{
    reveal_strlit("ip6.arpa");
    let ip6 = seq!['i', 'p', '6'];
    let arpa = seq!['a', 'r', 'p', 'a'];
    assert("ip6.arpa"@ =~= ip6.push('.') + arpa);
    text::lemma_split_single(ip6, '.');
    text::lemma_split_single(arpa, '.');
    text::lemma_split_append(ip6, arpa, '.');
    lemma_split_nibbles(g, 32, "ip6.arpa"@);
    let labels = split(v6_ptr(g), '.');
    assert(split("ip6.arpa"@, '.') =~= seq![ip6, arpa]);
    assert(labels =~= nibble_labels(g, 32) + seq![ip6, arpa]);
    assert forall|i: int| 0 <= i < labels.len() implies plain_label(#[trigger] labels[i]) by {
        if i < 32 {
            lemma_nibble_label(g, 31 - i);
            assert(labels[i] == seq![hex_digit(nibble(g, 31 - i))]);
        }
    }
}

// ── Octets of either family ───────────────────────────────────────────

/// The sixteen octets of an IPv6 address.
pub open spec fn v6_octets(g: Seq<u16>) -> Seq<u8> {
    Seq::new(
        16,
        |i: int|
            if i % 2 == 0 {
                (g[i / 2] / 256) as u8
            } else {
                (g[i / 2] % 256) as u8
            },
    )
}

/// The octets of an address: four or sixteen.
pub open spec fn ip_octets(ip: IpAddr) -> Seq<u8> {
    match ip {
        IpAddr::V4(v4) => v4@,
        IpAddr::V6(v6) => v6_octets(v6@),
    }
}

/// The octets of an address: four or sixteen.
pub fn octets_of(ip: &IpAddr) -> (r: Vec<u8>)
    ensures
        r@ == ip_octets(*ip),
{
    let mut out: Vec<u8> = Vec::new();
    match ip {
        IpAddr::V4(v4) => {
            out.push(v4.octets[0]);
            out.push(v4.octets[1]);
            out.push(v4.octets[2]);
            out.push(v4.octets[3]);
            proof {
                assert(out@ =~= v4@);
            }
        },
        IpAddr::V6(v6) => {
            let mut i: usize = 0;
            while i < 8
                invariant
                    i <= 8,
                    out@ =~= v6_octets(v6@).take(2 * i),
                decreases 8 - i,
            {
                out.push((v6.groups[i] / 256) as u8);
                out.push((v6.groups[i] % 256) as u8);
                i += 1;
            }
            proof {
                assert(v6_octets(v6@).take(16) =~= v6_octets(v6@));
            }
        },
    }
    out
}

} // verus!
