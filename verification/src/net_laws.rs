//! What the textual forms, the ranges and the reverse names of addresses come
//! to, told by octets and groups.
use vstd::prelude::*;
use crate::net::{
    self, embedded_v4, gap_from, group_of, groups_in, hex_digit, hex_groups, hex_joined, hex_number,
    hex_value, hexadecimal, ip_octets, is_mapped, longest_run, nibble, nibble_labels, octet_groups,
    private_v4, private_v6, reads_as_v4, reserved_v4, reserved_v6, v4_of, v4_ptr, v4_text, v6_octets,
    v6_of, v6_ptr, v6_text, zero_run, IpAddr,
};
use crate::text::{self, decimal, split};
use crate::text_laws::{
    self, decimals_spell_their_number, pieces_make_up_the_text, rejoined,
    texts_split_into_what_they_were_made_of,
};

verus! {

// ── Dotted decimal ────────────────────────────────────────────────────

/// Four octets in decimal.
spec fn dotted(o: Seq<u8>) -> Seq<Seq<char>> {
    seq![
        decimal(o[0] as nat),
        decimal(o[1] as nat),
        decimal(o[2] as nat),
        decimal(o[3] as nat),
    ]
}

proof fn lemma_dotted(o: Seq<u8>)
    ensures
        v4_text(o) == rejoined(dotted(o), '.'),
        split(v4_text(o), '.') == dotted(o),
        v4_text(o).len() > 0,
        forall|i: int|
            0 <= i < v4_text(o).len() ==> #[trigger] v4_text(o)[i] == '.' || '0' <= v4_text(o)[i]
                <= '9',
{
    let p = dotted(o);
    decimals_spell_their_number(o[0] as nat);
    decimals_spell_their_number(o[1] as nat);
    decimals_spell_their_number(o[2] as nat);
    decimals_spell_their_number(o[3] as nat);
    assert(p.drop_last() =~= seq![p[0], p[1], p[2]]);
    assert(p.drop_last().drop_last() =~= seq![p[0], p[1]]);
    assert(p.drop_last().drop_last().drop_last() =~= seq![p[0]]);
    reveal_with_fuel(rejoined, 5);
    assert(rejoined(p, '.') =~= v4_text(o));
    assert forall|i: int, k: int| 0 <= i < p.len() && 0 <= k < p[i].len() implies #[trigger] p[i][k]
        != '.' by {
        assert(p[i] == decimal(o[i] as nat));
        assert('0' <= decimal(o[i] as nat)[k] <= '9');
    }
    texts_split_into_what_they_were_made_of(p, '.');
}

/// What is written of an IPv4 address reads as that address, and a text that
/// reads as an address is what is written of it: no other spelling is accepted.
pub proof fn dotted_texts_are_read_back(s: Seq<char>, o: Seq<u8>)
    requires
        o.len() == 4,
    ensures
        v4_of(v4_text(o)) == Some(o),
        v4_of(s) == Some(o) ==> s == v4_text(o),
{
    lemma_dotted(o);
    assert(reads_as_v4(v4_text(o), o));
    net::lemma_v4_of(v4_text(o), o);
    if v4_of(s) == Some(o) {
        let x = choose|x: Seq<u8>| reads_as_v4(s, x);
        assert(reads_as_v4(s, x));
        assert(x == o);
        pieces_make_up_the_text(s, '.');
        assert(split(s, '.') == dotted(o));
    }
}

/// The text is a number of at most 255 in decimal, without leading zeros.
pub open spec fn spells_octet(t: Seq<char>) -> bool {
    exists|v: u8| t == #[trigger] decimal(v as nat)
}

/// An IPv4 address is spelled by exactly four numbers of at most 255, each in
/// decimal without leading zeros, between dots.
pub proof fn dotted_texts_have_four_numbers(s: Seq<char>)
    ensures
        v4_of(s) is Some <==> split(s, '.').len() == 4 && (forall|i: int|
            0 <= i < 4 ==> spells_octet(#[trigger] split(s, '.')[i])),
        v4_of(s) matches Some(o) ==> o.len() == 4 && forall|i: int|
            0 <= i < 4 ==> text_laws::decimal_value(#[trigger] split(s, '.')[i]) == o[i],
{
    let p = split(s, '.');
    if v4_of(s) is Some {
        let o = choose|x: Seq<u8>| reads_as_v4(s, x);
        assert(reads_as_v4(s, o));
        assert forall|i: int| 0 <= i < 4 implies spells_octet(#[trigger] p[i])
            && text_laws::decimal_value(p[i]) == o[i] by {
            assert(p[i] == decimal(o[i] as nat));
            decimals_spell_their_number(o[i] as nat);
        }
    }
    if p.len() == 4 && (forall|i: int| 0 <= i < 4 ==> spells_octet(#[trigger] p[i])) {
        assert(spells_octet(p[0]) && spells_octet(p[1]) && spells_octet(p[2]) && spells_octet(p[3]));
        let a = choose|v: u8| p[0] == #[trigger] decimal(v as nat);
        let b = choose|v: u8| p[1] == #[trigger] decimal(v as nat);
        let c = choose|v: u8| p[2] == #[trigger] decimal(v as nat);
        let d = choose|v: u8| p[3] == #[trigger] decimal(v as nat);
        let o = seq![a, b, c, d];
        assert(p =~= dotted(o));
        assert(reads_as_v4(s, o));
    }
}

// ── Hexadecimal groups ────────────────────────────────────────────────

/// Hexadecimal digits have their usual values, in either case.
pub proof fn hexadecimal_digits_have_their_values(d: nat)
    requires
        d < 16,
    ensures
        hex_value(hex_digit(d)) == Some(d),
        d < 10 ==> hex_digit(d) as int == '0' as int + d,
        d >= 10 ==> hex_digit(d) as int == 'a' as int + d - 10,
        d >= 10 ==> forall|c: char| c as int == 'A' as int + d - 10 ==> #[trigger] hex_value(c)
            == Some(d),
        forall|c: char| #[trigger] hex_value(c) is Some ==> '0' <= c <= '9' || 'a' <= c <= 'f'
            || 'A' <= c <= 'F',
{
}

/// A group is written by the hexadecimal digits that spell it, in at most four of
/// them and without leading zeros, and is read back from them.
pub proof fn groups_are_read_back(v: u16)
    ensures
        group_of(hexadecimal(v as nat)) == Some(v),
        1 <= hexadecimal(v as nat).len() <= 4,
        v > 0 ==> hexadecimal(v as nat)[0] != '0',
        forall|i: int|
            0 <= i < hexadecimal(v as nat).len() ==> '0' <= #[trigger] hexadecimal(v as nat)[i]
                <= '9' || 'a' <= hexadecimal(v as nat)[i] <= 'f',
{
    lemma_hexadecimal(v as nat);
    reveal_with_fuel(hexadecimal, 5);
}

proof fn lemma_hexadecimal(n: nat)
    ensures
        hex_number(hexadecimal(n)) == Some(n),
        hexadecimal(n).len() >= 1,
        n > 0 ==> hexadecimal(n)[0] != '0',
        forall|i: int|
            0 <= i < hexadecimal(n).len() ==> '0' <= #[trigger] hexadecimal(n)[i] <= '9' || 'a'
                <= hexadecimal(n)[i] <= 'f',
    decreases n,
{
    if n < 16 {
        hexadecimal_digits_have_their_values(n);
        assert(hexadecimal(n).drop_last() =~= Seq::<char>::empty());
        assert(hex_number(Seq::<char>::empty()) == Some(0nat));
        assert(hexadecimal(n).last() == hex_digit(n));
    } else {
        lemma_hexadecimal(n / 16);
        hexadecimal_digits_have_their_values(n % 16);
        assert(hexadecimal(n).drop_last() =~= hexadecimal(n / 16));
        assert(hexadecimal(n).last() == hex_digit(n % 16));
    }
}

/// A group has one to four hexadecimal digits.
pub proof fn groups_have_up_to_four_digits(t: Seq<char>)
    ensures
        group_of(t) is Some <==> 1 <= t.len() <= 4 && forall|i: int|
            0 <= i < t.len() ==> ('0' <= #[trigger] t[i] <= '9' || 'a' <= t[i] <= 'f' || 'A' <= t[i]
                <= 'F'),
{
    lemma_digits_spell(t);
}

proof fn lemma_digits_spell(t: Seq<char>)
    ensures
        hex_number(t) is Some <==> forall|i: int|
            0 <= i < t.len() ==> ('0' <= #[trigger] t[i] <= '9' || 'a' <= t[i] <= 'f' || 'A' <= t[i]
                <= 'F'),
    decreases t.len(),
{
    if t.len() > 0 {
        let r = t.drop_last();
        lemma_digits_spell(r);
        if hex_number(t) is Some {
            assert forall|i: int| 0 <= i < t.len() implies ('0' <= #[trigger] t[i] <= '9' || 'a'
                <= t[i] <= 'f' || 'A' <= t[i] <= 'F') by {
                if i < t.len() - 1 {
                    assert(r[i] == t[i]);
                }
            }
        }
        if forall|i: int|
            0 <= i < t.len() ==> ('0' <= #[trigger] t[i] <= '9' || 'a' <= t[i] <= 'f' || 'A' <= t[i]
                <= 'F') {
            assert forall|i: int| 0 <= i < r.len() implies ('0' <= #[trigger] r[i] <= '9' || 'a'
                <= r[i] <= 'f' || 'A' <= r[i] <= 'F') by {
                assert(t[i] == r[i]);
            }
            assert(t.last() == t[t.len() - 1]);
        }
    }
}

/// The groups in hexadecimal.
pub open spec fn hexes(g: Seq<u16>) -> Seq<Seq<char>> {
    Seq::new(g.len(), |i: int| hexadecimal(g[i] as nat))
}

proof fn lemma_hex_joined(g: Seq<u16>)
    ensures
        hex_joined(g) == rejoined(hexes(g), ':'),
        g.len() > 0 ==> split(hex_joined(g), ':') == hexes(g),
        g.len() > 0 ==> hex_joined(g).len() > 0 && hex_joined(g)[0] != ':' && hex_joined(g).last()
            != ':',
        g.len() == 0 ==> hex_joined(g).len() == 0,
        forall|i: int|
            0 <= i < hex_joined(g).len() - 1 ==> !(#[trigger] hex_joined(g)[i] == ':' && hex_joined(
                g,
            )[i + 1] == ':'),
    decreases g.len(),
{
    if g.len() == 0 {
        assert(hexes(g) =~= Seq::<Seq<char>>::empty());
    } else {
        let last = hexadecimal(g.last() as nat);
        groups_are_read_back(g.last());
        if g.len() == 1 {
            assert(hexes(g) =~= seq![last]);
            assert(rejoined(hexes(g), ':') == last);
        } else {
            let init = g.drop_last();
            lemma_hex_joined(init);
            assert(hexes(g).drop_last() =~= hexes(init));
            assert(hexes(g).last() == last);
            let head = hex_joined(init);
            let all = hex_joined(g);
            assert(all == head.push(':') + last);
            assert forall|i: int| 0 <= i < all.len() - 1 implies !(#[trigger] all[i] == ':' && all[i
                + 1] == ':') by {
                if i < head.len() - 1 {
                    assert(all[i] == head[i]);
                    assert(all[i + 1] == head[i + 1]);
                } else if i == head.len() - 1 {
                    assert(all[i] == head.last());
                } else {
                    assert(all[i + 1] == last[i - head.len()]);
                }
            }
        }
        assert forall|i: int, k: int| 0 <= i < hexes(g).len() && 0 <= k < hexes(g)[i].len() implies
            #[trigger] hexes(g)[i][k] != ':' by {
            groups_are_read_back(g[i]);
        }
        texts_split_into_what_they_were_made_of(hexes(g), ':');
    }
}

proof fn lemma_hex_groups(g: Seq<u16>)
    ensures
        hex_groups(hexes(g)) == Some(g),
    decreases g.len(),
{
    if g.len() == 0 {
        assert(hexes(g) =~= Seq::<Seq<char>>::empty());
        assert(g =~= Seq::<u16>::empty());
    } else {
        lemma_hex_groups(g.drop_last());
        groups_are_read_back(g.last());
        assert(hexes(g).drop_last() =~= hexes(g.drop_last()));
        assert(hexes(g).last() == hexadecimal(g.last() as nat));
        assert(g.drop_last().push(g.last()) =~= g);
    }
}

/// A text without dots is no dotted address.
proof fn lemma_undotted_is_no_v4(t: Seq<char>)
    requires
        forall|i: int| 0 <= i < t.len() ==> #[trigger] t[i] != '.',
    ensures
        v4_of(t) is None,
{
    text::lemma_split_single(t, '.');
    assert forall|o: Seq<u8>| !reads_as_v4(t, o) by {
        if reads_as_v4(t, o) {
            assert(split(t, '.').len() == 4);
        }
    }
}

proof fn lemma_groups_in(g: Seq<u16>, tail: bool)
    ensures
        groups_in(hex_joined(g), tail) == Some(g),
{
    lemma_hex_joined(g);
    lemma_hex_groups(g);
    if g.len() == 0 {
        assert(g =~= Seq::<u16>::empty());
    } else {
        let parts = split(hex_joined(g), ':');
        assert(parts.last() == hexadecimal(g.last() as nat));
        groups_are_read_back(g.last());
        assert forall|i: int| 0 <= i < parts.last().len() implies #[trigger] parts.last()[i]
            != '.' by {
            let c = hexadecimal(g.last() as nat)[i];
        }
        lemma_undotted_is_no_v4(parts.last());
    }
}

proof fn lemma_gap_at(s: Seq<char>, from: int, p: int)
    requires
        0 <= from <= p,
        p + 1 < s.len(),
        s[p] == ':',
        s[p + 1] == ':',
        forall|i: int| from <= i < p ==> !(#[trigger] s[i] == ':' && s[i + 1] == ':'),
    ensures
        gap_from(s, from) == Some(p),
    decreases p - from,
{
    if from < p {
        lemma_gap_at(s, from + 1, p);
    }
}

proof fn lemma_no_gap(s: Seq<char>, from: int)
    requires
        0 <= from,
        forall|i: int| from <= i < s.len() - 1 ==> !(#[trigger] s[i] == ':' && s[i + 1] == ':'),
    ensures
        gap_from(s, from) is None,
    decreases s.len() - from,
{
    if from + 1 < s.len() {
        lemma_no_gap(s, from + 1);
    }
}

/// A run of zeros: that many groups from the position on are zero, and the next
/// one is not.
pub proof fn runs_are_as_long_as_the_zeros(g: Seq<u16>, i: int)
    requires
        0 <= i <= g.len(),
    ensures
        i + zero_run(g, i) <= g.len(),
        forall|k: int| i <= k < i + zero_run(g, i) ==> #[trigger] g[k] == 0,
        i + zero_run(g, i) < g.len() ==> g[i + zero_run(g, i)] != 0,
    decreases g.len() - i,
{
    if i < g.len() && g[i] == 0 {
        runs_are_as_long_as_the_zeros(g, i + 1);
    }
}

/// The run that is written short is a longest one, and the first of those.
pub proof fn the_first_longest_run_is_chosen(g: Seq<u16>, n: int)
    requires
        1 <= n,
    ensures
        0 <= longest_run(g, n) < n,
        forall|i: int| 0 <= i < n ==> #[trigger] zero_run(g, i) <= zero_run(g, longest_run(g, n)),
        forall|i: int|
            0 <= i < longest_run(g, n) ==> #[trigger] zero_run(g, i) < zero_run(
                g,
                longest_run(g, n),
            ),
    decreases n,
{
    if n > 1 {
        the_first_longest_run_is_chosen(g, n - 1);
    }
}

/// What is written of an IPv6 address reads as that address.
pub proof fn colon_texts_are_read_back(g: Seq<u16>)
    requires
        g.len() == 8,
    ensures
        v6_of(v6_text(g)) == Some(g),
{
    let s = v6_text(g);
    let best = longest_run(g, 8);
    let run = zero_run(g, best);
    the_first_longest_run_is_chosen(g, 8);
    runs_are_as_long_as_the_zeros(g, best);
    if is_mapped(g) {
        lemma_mapped_is_read_back(g);
    } else if run > 1 {
        let a = g.take(best);
        let b = g.skip(best + run);
        let p = hex_joined(a).len() as int;
        lemma_hex_joined(a);
        lemma_hex_joined(b);
        reveal_strlit("::");
        assert("::"@ =~= seq![':', ':']);
        assert(s =~= hex_joined(a) + seq![':', ':'] + hex_joined(b));
        assert forall|i: int| 0 <= i < p implies !(#[trigger] s[i] == ':' && s[i + 1] == ':') by {
            assert(s[i] == hex_joined(a)[i]);
            if i < p - 1 {
                assert(s[i + 1] == hex_joined(a)[i + 1]);
            } else {
                assert(s[i] == hex_joined(a).last());
            }
        }
        lemma_gap_at(s, 0, p);
        assert(s.take(p) =~= hex_joined(a));
        assert(s.skip(p + 2) =~= hex_joined(b));
        lemma_groups_in(a, false);
        lemma_groups_in(b, true);
        let zeros = Seq::new((8 - a.len() - b.len()) as nat, |i: int| 0u16);
        assert(a + zeros + b =~= g);
    } else {
        lemma_hex_joined(g);
        lemma_no_gap(s, 0);
        lemma_groups_in(g, true);
    }
}

proof fn lemma_mapped_is_read_back(g: Seq<u16>)
    requires
        g.len() == 8,
        is_mapped(g),
    ensures
        v6_of(v6_text(g)) == Some(g),
{
    let s = v6_text(g);
    let o = embedded_v4(g);
    let ffff = seq!['f', 'f', 'f', 'f'];
    reveal_strlit("::ffff:");
    assert("::ffff:"@ =~= seq![':', ':'] + ffff.push(':'));
    lemma_dotted(o);
    assert(s[0] == ':' && s[1] == ':');
    assert(gap_from(s, 0) == Some(0int));
    let rest = s.skip(2);
    assert(rest =~= ffff.push(':') + v4_text(o));
    assert(s.take(0) =~= Seq::<char>::empty());
    text::lemma_split_single(ffff, ':');
    assert forall|i: int| 0 <= i < v4_text(o).len() implies #[trigger] v4_text(o)[i] != ':' by {}
    text::lemma_split_single(v4_text(o), ':');
    text::lemma_split_append(ffff, v4_text(o), ':');
    let parts = split(rest, ':');
    assert(parts =~= seq![ffff, v4_text(o)]);
    dotted_texts_are_read_back(v4_text(o), o);
    assert(parts.drop_last() =~= seq![ffff]);
    assert(hex_number(ffff) == Some(65535nat)) by {
        assert(ffff.drop_last() =~= seq!['f', 'f', 'f']);
        assert(ffff.drop_last().drop_last() =~= seq!['f', 'f']);
        assert(ffff.drop_last().drop_last().drop_last() =~= seq!['f']);
        assert(ffff.drop_last().drop_last().drop_last().drop_last() =~= Seq::<char>::empty());
        reveal_with_fuel(hex_number, 6);
    }
    let one = seq![ffff];
    assert(one.drop_last() =~= Seq::<Seq<char>>::empty());
    assert(hex_groups(Seq::<Seq<char>>::empty()) == Some(Seq::<u16>::empty()));
    assert(group_of(ffff) == Some(65535u16));
    assert(hex_groups(one) == Some(Seq::<u16>::empty().push(65535u16)));
    let b = Seq::<u16>::empty().push(65535u16) + octet_groups(o);
    assert(groups_in(rest, true) == Some(b));
    assert(groups_in(s.take(0), false) == Some(Seq::<u16>::empty()));
    let zeros = Seq::new((8 - 0 - b.len()) as nat, |i: int| 0u16);
    assert(b.len() == 3);
    assert(octet_groups(o)[0] == g[6]);
    assert(octet_groups(o)[1] == g[7]);
    assert(Seq::<u16>::empty() + zeros + b =~= g);
}

/// How an IPv6 address is written: a mapped one as a gap, four hexadecimal
/// digits and its last four octets in decimal; any other by its groups in
/// hexadecimal with colons between them, where the first of its longest runs of
/// at least two zeros is left out for a double colon. `p` is where that run is and
/// `r` its length, or any position and a length below two where there is none.
pub proof fn colon_texts_leave_out_the_longest_run(g: Seq<u16>, p: int, r: int)
    requires
        g.len() == 8,
        0 <= p < 8,
        zero_run(g, p) == r,
        forall|i: int| 0 <= i < 8 ==> #[trigger] zero_run(g, i) <= r,
        forall|i: int| 0 <= i < p ==> #[trigger] zero_run(g, i) < r,
    ensures
        is_mapped(g) ==> v6_text(g) == seq![':', ':', 'f', 'f', 'f', 'f', ':'] + v4_text(
            v6_octets(g).skip(12),
        ),
        !is_mapped(g) && r >= 2 ==> v6_text(g) == rejoined(hexes(g.take(p)), ':') + seq![':', ':']
            + rejoined(hexes(g.skip(p + r)), ':'),
        !is_mapped(g) && r < 2 ==> v6_text(g) == rejoined(hexes(g), ':'),
{
    the_first_longest_run_is_chosen(g, 8);
    let best = longest_run(g, 8);
    assert(zero_run(g, best) <= r);
    assert(zero_run(g, p) <= zero_run(g, best));
    assert(best == p) by {
        if best < p {
            assert(zero_run(g, best) < r);
        } else if p < best {
            assert(zero_run(g, p) < zero_run(g, best));
        }
    }
    mapped_addresses_embed_their_last_octets(g);
    lemma_hex_joined(g);
    lemma_hex_joined(g.take(p));
    lemma_hex_joined(g.skip(p + r));
    reveal_strlit("::");
    reveal_strlit("::ffff:");
    assert("::"@ =~= seq![':', ':']);
    assert("::ffff:"@ =~= seq![':', ':', 'f', 'f', 'f', 'f', ':']);
}

/// What reads as an IPv6 address has eight groups. A gap stands for at least one
/// of them, and all that it stands for are zero; without a gap all eight are
/// written out.
pub proof fn colon_texts_have_eight_groups(s: Seq<char>)
    ensures
        v6_of(s) matches Some(g) ==> g.len() == 8,
        gap_from(s, 0) is None && v6_of(s) is Some ==> groups_in(s, true) == v6_of(s),
        gap_from(s, 0) matches Some(p) ==> (v6_of(s) is Some <==> groups_in(s.take(p), false)
            is Some && groups_in(s.skip(p + 2), true) is Some && groups_in(s.take(p), false)->0.len()
            + groups_in(s.skip(p + 2), true)->0.len() < 8),
        (gap_from(s, 0) is Some && v6_of(s) is Some) ==> ({
            let p = gap_from(s, 0)->0;
            let a = groups_in(s.take(p), false)->0;
            let b = groups_in(s.skip(p + 2), true)->0;
            let g = v6_of(s)->0;
            &&& g.take(a.len() as int) == a
            &&& g.skip(8 - b.len()) == b
            &&& forall|i: int| a.len() <= i < 8 - b.len() ==> #[trigger] g[i] == 0
        }),
{
    if gap_from(s, 0) is Some && v6_of(s) is Some {
        let p = gap_from(s, 0)->0;
        let a = groups_in(s.take(p), false)->0;
        let b = groups_in(s.skip(p + 2), true)->0;
        let g = v6_of(s)->0;
        assert(g.take(a.len() as int) =~= a);
        assert(g.skip(8 - b.len()) =~= b);
    }
}

/// The pieces of a run are its groups, one for one and each read by itself; only
/// the last may be a dotted address, where that is allowed, and then fills two.
pub proof fn runs_are_read_piece_by_piece(t: Seq<char>, tail: bool)
    requires
        t.len() > 0,
    ensures
        groups_in(t, tail) matches Some(g) ==> ({
            let parts = split(t, ':');
            let dotted_tail = tail && v4_of(parts.last()) is Some;
            let n = if dotted_tail {
                parts.len() - 1
            } else {
                parts.len() as int
            };
            &&& g.len() == n + if dotted_tail {
                2int
            } else {
                0int
            }
            &&& forall|i: int| 0 <= i < n ==> group_of(#[trigger] parts[i]) == Some(g[i])
            &&& dotted_tail ==> g[n] as int == v4_of(parts.last())->0[0] * 256 + v4_of(
                parts.last(),
            )->0[1] && g[n + 1] as int == v4_of(parts.last())->0[2] * 256 + v4_of(
                parts.last(),
            )->0[3]
        }),
        !tail && groups_in(t, tail) is None ==> exists|i: int|
            0 <= i < split(t, ':').len() && group_of(#[trigger] split(t, ':')[i]) is None,
{
    let parts = split(t, ':');
    text::lemma_split_nonempty(t, ':');
    lemma_each_group(parts);
    lemma_each_group(parts.drop_last());
    if groups_in(t, tail) is Some {
        let g = groups_in(t, tail)->0;
        if tail && v4_of(parts.last()) is Some {
            let h = hex_groups(parts.drop_last())->0;
            assert forall|i: int| 0 <= i < parts.len() - 1 implies group_of(#[trigger] parts[i])
                == Some(g[i]) by {
                assert(parts.drop_last()[i] == parts[i]);
                assert(g[i] == h[i]);
            }
            dotted_texts_have_four_numbers(parts.last());
        }
    }
}

proof fn lemma_each_group(parts: Seq<Seq<char>>)
    ensures
        hex_groups(parts) matches Some(g) ==> g.len() == parts.len() && forall|i: int|
            0 <= i < parts.len() ==> group_of(#[trigger] parts[i]) == Some(g[i]),
        hex_groups(parts) is None ==> exists|i: int|
            0 <= i < parts.len() && group_of(#[trigger] parts[i]) is None,
    decreases parts.len(),
{
    if parts.len() > 0 {
        let init = parts.drop_last();
        lemma_each_group(init);
        if hex_groups(parts) is Some {
            let g = hex_groups(parts)->0;
            let h = hex_groups(init)->0;
            assert forall|i: int| 0 <= i < parts.len() implies group_of(#[trigger] parts[i])
                == Some(g[i]) by {
                if i < parts.len() - 1 {
                    assert(init[i] == parts[i]);
                    assert(g[i] == h[i]);
                }
            }
        } else if hex_groups(init) is None {
            let i = choose|i: int| 0 <= i < init.len() && group_of(#[trigger] init[i]) is None;
            assert(group_of(parts[i]) is None);
        } else {
            assert(group_of(parts[parts.len() - 1]) is None);
        }
    }
}

/// The texts of addresses hold digits, dots and colons, and no slash.
pub proof fn address_texts_hold_no_slash(o: Seq<u8>, g: Seq<u16>)
    requires
        o.len() == 4,
        g.len() == 8,
    ensures
        forall|i: int| 0 <= i < v4_text(o).len() ==> #[trigger] v4_text(o)[i] != '/',
        forall|i: int| 0 <= i < v6_text(g).len() ==> #[trigger] v6_text(g)[i] != '/',
{
    lemma_dotted(o);
    assert forall|i: int| 0 <= i < v4_text(o).len() implies #[trigger] v4_text(o)[i] != '/' by {
        let c = v4_text(o)[i];
        assert(c == '.' || '0' <= c <= '9');
    }
    reveal_strlit("::");
    reveal_strlit("::ffff:");
    let best = longest_run(g, 8);
    let run = zero_run(g, best);
    the_first_longest_run_is_chosen(g, 8);
    runs_are_as_long_as_the_zeros(g, best);
    lemma_dotted(embedded_v4(g));
    lemma_joined_characters(g);
    lemma_joined_characters(g.take(best));
    lemma_joined_characters(g.skip(best + run));
    let e = embedded_v4(g);
    let a = hex_joined(g.take(best));
    let b = hex_joined(g.skip(best + run));
    let s = v6_text(g);
    assert forall|i: int| 0 <= i < s.len() implies #[trigger] s[i] != '/' by {
        if is_mapped(g) {
            if i >= 7 {
                assert(s[i] == v4_text(e)[i - 7]);
            }
        } else if run > 1 {
            if i < a.len() {
                assert(s[i] == a[i]);
            } else if i >= a.len() + 2 {
                assert(s[i] == b[i - a.len() - 2]);
            }
        }
    }
}

proof fn lemma_joined_characters(g: Seq<u16>)
    ensures
        forall|i: int|
            0 <= i < hex_joined(g).len() ==> (#[trigger] hex_joined(g)[i] == ':' || '0'
                <= hex_joined(g)[i] <= '9' || 'a' <= hex_joined(g)[i] <= 'f'),
    decreases g.len(),
{
    if g.len() > 0 {
        groups_are_read_back(g.last());
        let last = hexadecimal(g.last() as nat);
        if g.len() > 1 {
            let init = g.drop_last();
            lemma_joined_characters(init);
            let head = hex_joined(init);
            let all = hex_joined(g);
            assert(all == head.push(':') + last);
            assert forall|i: int| 0 <= i < all.len() implies (#[trigger] all[i] == ':' || '0'
                <= all[i] <= '9' || 'a' <= all[i] <= 'f') by {
                if i < head.len() {
                    assert(all[i] == head[i]);
                } else if i > head.len() {
                    assert(all[i] == last[i - head.len() - 1]);
                }
            }
        }
    }
}

/// The text of an IPv4 address holds no colon.
pub proof fn dotted_texts_hold_no_colon(o: Seq<u8>)
    requires
        o.len() == 4,
    ensures
        forall|i: int| 0 <= i < v4_text(o).len() ==> #[trigger] v4_text(o)[i] != ':',
{
    lemma_dotted(o);
}

/// The text of an IPv6 address holds a colon.
pub proof fn colon_texts_hold_a_colon(g: Seq<u16>)
    requires
        g.len() == 8,
    ensures
        v6_text(g).contains(':'),
{
    reveal_strlit("::");
    reveal_strlit("::ffff:");
    let best = longest_run(g, 8);
    let run = zero_run(g, best);
    let s = v6_text(g);
    if is_mapped(g) {
        assert(s[0] == ':');
    } else if run > 1 {
        let a = hex_joined(g.take(best));
        assert(s[a.len() as int] == ':');
    } else {
        let head = hex_joined(g.drop_last());
        assert(s == head.push(':') + hexadecimal(g.last() as nat));
        assert(s[head.len() as int] == ':');
    }
}

// ── Octets ────────────────────────────────────────────────────────────

/// An IPv6 address has sixteen octets, two to a group, the higher one first; an
/// IPv4 address has its four.
pub proof fn octets_make_up_the_groups(g: Seq<u16>, i: int, ip: IpAddr)
    requires
        g.len() == 8,
        0 <= i < 8,
    ensures
        v6_octets(g).len() == 16,
        g[i] as int == v6_octets(g)[2 * i] * 256 + v6_octets(g)[2 * i + 1],
        ip matches IpAddr::V4(a) ==> ip_octets(ip) == a@,
        ip matches IpAddr::V6(a) ==> ip_octets(ip) == v6_octets(a@),
{
}

/// An address is mapped exactly if its first ten octets are zero and the next two
/// are all ones; what is embedded are its last four octets.
pub proof fn mapped_addresses_embed_their_last_octets(g: Seq<u16>)
    requires
        g.len() == 8,
    ensures
        is_mapped(g) <==> (forall|i: int| 0 <= i < 10 ==> #[trigger] v6_octets(g)[i] == 0)
            && v6_octets(g)[10] == 255 && v6_octets(g)[11] == 255,
        embedded_v4(g) == v6_octets(g).skip(12),
{
    let o = v6_octets(g);
    assert(embedded_v4(g) =~= o.skip(12));
    if (forall|i: int| 0 <= i < 10 ==> #[trigger] o[i] == 0) && o[10] == 255 && o[11] == 255 {
        assert(o[0] == 0 && o[1] == 0);
        assert(o[2] == 0 && o[3] == 0);
        assert(o[4] == 0 && o[5] == 0);
        assert(o[6] == 0 && o[7] == 0);
        assert(o[8] == 0 && o[9] == 0);
        assert(g[0] as int == o[0] * 256 + o[1]);
        assert(g[1] as int == o[2] * 256 + o[3]);
        assert(g[2] as int == o[4] * 256 + o[5]);
        assert(g[3] as int == o[6] * 256 + o[7]);
        assert(g[4] as int == o[8] * 256 + o[9]);
        assert(g[5] as int == o[10] * 256 + o[11]);
    }
}

// ── Ranges ────────────────────────────────────────────────────────────

/// The number that four octets make up.
pub open spec fn v4_number(o: Seq<u8>) -> int {
    ((o[0] * 256 + o[1]) * 256 + o[2]) * 256 + o[3]
}

/// The IPv4 ranges as numbers: reserved are the unspecified address, the
/// loopback block and everything from the first multicast address on; private are
/// the three blocks of private use and the link-local one, each from its first
/// address to its last.
pub proof fn v4_ranges_run_from_first_to_last(o: Seq<u8>)
    requires
        o.len() == 4,
    ensures
        reserved_v4(o) <==> v4_number(o) == 0 || 0x7f00_0000 <= v4_number(o) <= 0x7fff_ffff
            || v4_number(o) >= 0xe000_0000,
        private_v4(o) <==> 0x0a00_0000 <= v4_number(o) <= 0x0aff_ffff || 0xac10_0000 <= v4_number(o)
            <= 0xac1f_ffff || 0xc0a8_0000 <= v4_number(o) <= 0xc0a8_ffff || 0xa9fe_0000
            <= v4_number(o) <= 0xa9fe_ffff,
        !(reserved_v4(o) && private_v4(o)),
{
    if o == seq![0u8, 0, 0, 0] {
        assert(o[0] == 0 && o[1] == 0 && o[2] == 0 && o[3] == 0);
    }
    if v4_number(o) == 0 {
        assert(o =~= seq![0u8, 0, 0, 0]);
    }
}

/// The IPv6 ranges by their leading bits: private are the addresses that begin
/// with the seven bits of the unique-local block or the ten of the link-local
/// one; reserved are the unspecified and the loopback address, those that begin
/// with eight ones, and those mapped from a reserved IPv4 address.
pub proof fn v6_ranges_go_by_leading_bits(g: Seq<u16>)
    requires
        g.len() == 8,
    ensures
        private_v6(g) <==> g[0] as int / 512 == 0xfc00int / 512 || g[0] as int / 64 == 0xfe80int
            / 64,
        reserved_v6(g) <==> ((forall|i: int| 0 <= i < 7 ==> #[trigger] g[i] == 0) && g[7] <= 1)
            || v6_octets(g)[0] == 255 || ((forall|i: int| 0 <= i < 5 ==> #[trigger] g[i] == 0)
            && g[5] == 0xffff && reserved_v4(v6_octets(g).skip(12))),
{
    mapped_addresses_embed_their_last_octets(g);
    if g == seq![0u16, 0, 0, 0, 0, 0, 0, 0] || g == seq![0u16, 0, 0, 0, 0, 0, 0, 1] {
        assert(g[0] == 0 && g[1] == 0 && g[2] == 0 && g[3] == 0 && g[4] == 0 && g[5] == 0 && g[6]
            == 0);
        assert(g[7] <= 1);
    }
    if (forall|i: int| 0 <= i < 7 ==> #[trigger] g[i] == 0) && g[7] <= 1 {
        assert(g[0] == 0 && g[1] == 0 && g[2] == 0 && g[3] == 0 && g[4] == 0 && g[5] == 0 && g[6]
            == 0);
        if g[7] == 0 {
            assert(g =~= seq![0u16, 0, 0, 0, 0, 0, 0, 0]);
        } else {
            assert(g =~= seq![0u16, 0, 0, 0, 0, 0, 0, 1]);
        }
    }
}

// ── Reverse names ─────────────────────────────────────────────────────

/// The reverse name of an IPv4 address has its octets in decimal, the last one
/// first, under the reverse zone; no two addresses share one.
pub proof fn v4_reverse_names_turn_the_octets(o: Seq<u8>)
    requires
        o.len() == 4,
    ensures
        split(v4_ptr(o), '.') == seq![
            decimal(o[3] as nat),
            decimal(o[2] as nat),
            decimal(o[1] as nat),
            decimal(o[0] as nat),
            seq!['i', 'n', '-', 'a', 'd', 'd', 'r'],
            seq!['a', 'r', 'p', 'a'],
        ],
        forall|other: Seq<u8>| other.len() == 4 && #[trigger] v4_ptr(other) == v4_ptr(o) ==> other
            == o,
{
    lemma_v4_ptr_labels(o);
    assert forall|other: Seq<u8>| other.len() == 4 && #[trigger] v4_ptr(other) == v4_ptr(o) implies
        other == o by {
        lemma_v4_ptr_labels(other);
        let a = split(v4_ptr(o), '.');
        let b = split(v4_ptr(other), '.');
        assert(a[0] == b[0] && a[1] == b[1] && a[2] == b[2] && a[3] == b[3]);
        net::lemma_decimal_injective(o[0] as nat, other[0] as nat);
        net::lemma_decimal_injective(o[1] as nat, other[1] as nat);
        net::lemma_decimal_injective(o[2] as nat, other[2] as nat);
        net::lemma_decimal_injective(o[3] as nat, other[3] as nat);
        assert(other =~= o);
    }
}

proof fn lemma_v4_ptr_labels(o: Seq<u8>)
    requires
        o.len() == 4,
    ensures
        split(v4_ptr(o), '.') == seq![
            decimal(o[3] as nat),
            decimal(o[2] as nat),
            decimal(o[1] as nat),
            decimal(o[0] as nat),
            seq!['i', 'n', '-', 'a', 'd', 'd', 'r'],
            seq!['a', 'r', 'p', 'a'],
        ],
{
    reveal_strlit(".in-addr.arpa");
    let inaddr = seq!['i', 'n', '-', 'a', 'd', 'd', 'r'];
    let arpa = seq!['a', 'r', 'p', 'a'];
    let back = seq![o[3], o[2], o[1], o[0]];
    lemma_dotted(back);
    text::lemma_split_single(inaddr, '.');
    text::lemma_split_single(arpa, '.');
    text::lemma_split_append(inaddr, arpa, '.');
    text::lemma_split_append(v4_text(back), inaddr.push('.') + arpa, '.');
    assert(v4_ptr(o) =~= v4_text(back).push('.') + (inaddr.push('.') + arpa));
    assert(split(v4_ptr(o), '.') =~= seq![
        decimal(o[3] as nat),
        decimal(o[2] as nat),
        decimal(o[1] as nat),
        decimal(o[0] as nat),
        inaddr,
        arpa,
    ]);
}

/// The four nibbles of a group make it up, the highest one first.
pub proof fn nibbles_make_up_their_group(g: Seq<u16>, k: int)
    requires
        g.len() == 8,
        0 <= k < 8,
    ensures
        g[k] as int == nibble(g, 4 * k) * 4096 + nibble(g, 4 * k + 1) * 256 + nibble(g, 4 * k + 2)
            * 16 + nibble(g, 4 * k + 3),
        nibble(g, 4 * k) < 16,
        nibble(g, 4 * k + 1) < 16,
        nibble(g, 4 * k + 2) < 16,
        nibble(g, 4 * k + 3) < 16,
{
    let v = g[k] as int;
    assert((4 * k) / 4 == k && (4 * k + 1) / 4 == k && (4 * k + 2) / 4 == k && (4 * k + 3) / 4
        == k);
    assert(v == (v / 4096) * 4096 + ((v / 256) % 16) * 256 + ((v / 16) % 16) * 16 + v % 16);
}

/// The reverse name of an IPv6 address has one label for each of its 32 nibbles,
/// the last one first, under the reverse zone.
pub proof fn v6_reverse_names_turn_the_nibbles(g: Seq<u16>)
    requires
        g.len() == 8,
    ensures
        split(v6_ptr(g), '.').len() == 34,
        forall|i: int|
            0 <= i < 32 ==> #[trigger] split(v6_ptr(g), '.')[i] == seq![hex_digit(nibble(g, 31 - i))],
        split(v6_ptr(g), '.')[32] == seq!['i', 'p', '6'],
        split(v6_ptr(g), '.')[33] == seq!['a', 'r', 'p', 'a'],
{
    lemma_v6_ptr_labels(g);
}

/// No two IPv6 addresses share a reverse name.
pub proof fn v6_reverse_names_tell_addresses_apart(g: Seq<u16>, other: Seq<u16>)
    requires
        g.len() == 8,
        other.len() == 8,
        v6_ptr(g) == v6_ptr(other),
    ensures
        g == other,
{
    assert forall|k: int| 0 <= k < 8 implies other[k] == g[k] by {
        lemma_same_nibble(g, other, 4 * k);
        lemma_same_nibble(g, other, 4 * k + 1);
        lemma_same_nibble(g, other, 4 * k + 2);
        lemma_same_nibble(g, other, 4 * k + 3);
        nibbles_make_up_their_group(g, k);
        nibbles_make_up_their_group(other, k);
    }
    assert(other =~= g);
}

proof fn lemma_same_nibble(g: Seq<u16>, other: Seq<u16>, j: int)
    requires
        g.len() == 8,
        other.len() == 8,
        v6_ptr(g) == v6_ptr(other),
        0 <= j < 32,
    ensures
        nibble(other, j) == nibble(g, j),
{
    lemma_v6_ptr_labels(g);
    lemma_v6_ptr_labels(other);
    let a = split(v6_ptr(g), '.')[31 - j];
    let b = split(v6_ptr(other), '.')[31 - j];
    assert(a == b);
    assert(a[0] == hex_digit(nibble(g, j)));
    assert(b[0] == hex_digit(nibble(other, j)));
    net::lemma_nibble_label(g, j);
    net::lemma_nibble_label(other, j);
    hexadecimal_digits_have_their_values(nibble(g, j));
    hexadecimal_digits_have_their_values(nibble(other, j));
}

proof fn lemma_v6_ptr_labels(g: Seq<u16>)
    requires
        g.len() == 8,
    ensures
        split(v6_ptr(g), '.') == nibble_labels(g, 32) + seq![
            seq!['i', 'p', '6'],
            seq!['a', 'r', 'p', 'a'],
        ],
{
    reveal_strlit("ip6.arpa");
    let ip6 = seq!['i', 'p', '6'];
    let arpa = seq!['a', 'r', 'p', 'a'];
    assert("ip6.arpa"@ =~= ip6.push('.') + arpa);
    text::lemma_split_single(ip6, '.');
    text::lemma_split_single(arpa, '.');
    text::lemma_split_append(ip6, arpa, '.');
    net::lemma_split_nibbles(g, 32, "ip6.arpa"@);
    assert(split("ip6.arpa"@, '.') =~= seq![ip6, arpa]);
}

} // verus!
