//! What the text primitives come to, told by characters and positions.
use vstd::prelude::*;
use crate::answer::below;
use crate::domain::{
    canonical, fqdn_syntax, label_char, labels_in, reserved_tld, residential, underscore_name,
    valid_label, valid_name, RESERVED_TLDS,
};
use crate::record::{same_label, same_name, NameV};
use crate::text::{
    self, decimal, digit, flag_text, has_suffix, is_white_space, lowered, replaced, split, trimmed,
    trimmed_end, trimmed_start, undotted, without_prefix,
};

verus! {

// ── Trimming and case ─────────────────────────────────────────────────

/// Trimming takes white space off both ends and nothing else: what is left is a
/// part of the text, all that went is white space, and what is left neither
/// begins nor ends with white space.
pub proof fn trimming_takes_white_space_alone(s: Seq<char>)
    ensures
        exists|from: int, to: int|
            #![trigger s.subrange(from, to)]
            0 <= from <= to <= s.len() && trimmed(s) == s.subrange(from, to) && (forall|i: int|
                0 <= i < from || to <= i < s.len() ==> is_white_space(#[trigger] s[i])),
        trimmed(s).len() > 0 ==> !is_white_space(trimmed(s)[0]) && !is_white_space(
            trimmed(s).last(),
        ),
{
    let a = trimmed_start(s);
    let from = s.len() - a.len();
    lemma_start_shape(s);
    lemma_end_shape(a);
    let to = from + trimmed(s).len();
    assert(trimmed(s) =~= s.subrange(from, to));
    assert forall|i: int| 0 <= i < from || to <= i < s.len() implies is_white_space(
        #[trigger] s[i],
    ) by {
        if i >= to {
            assert(a[i - from] == s[i]);
        }
    }
    if trimmed(s).len() > 0 {
        assert(trimmed(s)[0] == a[0]);
    }
}

proof fn lemma_start_shape(s: Seq<char>)
    ensures
        trimmed_start(s).len() <= s.len(),
        trimmed_start(s) == s.skip(s.len() - trimmed_start(s).len()),
        trimmed_start(s).len() > 0 ==> !is_white_space(trimmed_start(s)[0]),
        forall|i: int|
            0 <= i < s.len() - trimmed_start(s).len() ==> is_white_space(#[trigger] s[i]),
    decreases s.len(),
{
    if s.len() > 0 && is_white_space(s[0]) {
        let rest = s.drop_first();
        lemma_start_shape(rest);
        let k = s.len() - trimmed_start(s).len();
        assert(rest.skip(k - 1) =~= s.skip(k));
        assert forall|i: int| 0 <= i < k implies is_white_space(#[trigger] s[i]) by {
            if i > 0 {
                assert(rest[i - 1] == s[i]);
            }
        }
    } else {
        assert(s.skip(0) =~= s);
    }
}

proof fn lemma_end_shape(s: Seq<char>)
    ensures
        trimmed_end(s).len() <= s.len(),
        trimmed_end(s) == s.take(trimmed_end(s).len() as int),
        trimmed_end(s).len() > 0 ==> !is_white_space(trimmed_end(s).last()),
        forall|i: int| trimmed_end(s).len() <= i < s.len() ==> is_white_space(#[trigger] s[i]),
    decreases s.len(),
{
    if s.len() > 0 && is_white_space(s.last()) {
        let rest = s.drop_last();
        lemma_end_shape(rest);
        let k = trimmed_end(s).len() as int;
        assert(rest.take(k) =~= s.take(k));
        assert forall|i: int| k <= i < s.len() implies is_white_space(#[trigger] s[i]) by {
            if i < s.len() - 1 {
                assert(rest[i] == s[i]);
            }
        }
    } else {
        assert(s.take(s.len() as int) =~= s);
    }
}

/// Every blank of ASCII is white space, and no visible character of ASCII is.
pub proof fn blanks_are_white_space(c: char)
    requires
        (c as u32) < 128,
    ensures
        is_white_space(c) <==> c == ' ' || c == '\t' || c == '\n' || c == '\r' || c as u32 == 11
            || c as u32 == 12,
{
}

/// Beyond ASCII, white space are the next-line control, the fixed and the
/// no-break spaces, and the line and paragraph separators.
pub proof fn wide_blanks_are_white_space(c: char)
    requires
        c as u32 >= 128,
    ensures
        is_white_space(c) <==> c == '\u{85}' || c == '\u{a0}' || c == '\u{1680}' || '\u{2000}'
            <= c <= '\u{200a}' || c == '\u{2028}' || c == '\u{2029}' || c == '\u{202f}' || c
            == '\u{205f}' || c == '\u{3000}',
{
}

/// Folding touches the capital letters of ASCII alone, each of which becomes the
/// small letter 32 places up; it keeps the length, and folding twice is folding
/// once.
pub proof fn folding_touches_capitals_alone(s: Seq<char>)
    ensures
        lowered(s).len() == s.len(),
        forall|i: int|
            0 <= i < s.len() ==> #[trigger] lowered(s)[i] as int == s[i] as int + if 'A' <= s[i]
                <= 'Z' {
                32int
            } else {
                0int
            },
        lowered(lowered(s)) == lowered(s),
{
    assert(lowered(lowered(s)) =~= lowered(s));
}

/// Stripping takes trailing dots and nothing else.
pub proof fn stripping_takes_trailing_dots_alone(s: Seq<char>)
    ensures
        undotted(s).len() <= s.len(),
        undotted(s) == s.take(undotted(s).len() as int),
        undotted(s).len() > 0 ==> undotted(s).last() != '.',
        forall|i: int| undotted(s).len() <= i < s.len() ==> #[trigger] s[i] == '.',
        undotted(s.push('.')) == undotted(s),
{
    text::lemma_undotted_shape(s);
    assert(s.push('.').drop_last() =~= s);
}

// ── Splitting ─────────────────────────────────────────────────────────

/// The pieces with the separator between them.
pub open spec fn rejoined(parts: Seq<Seq<char>>, sep: char) -> Seq<char>
    decreases parts.len(),
{
    if parts.len() == 0 {
        Seq::empty()
    } else if parts.len() == 1 {
        parts[0]
    } else {
        rejoined(parts.drop_last(), sep).push(sep) + parts.last()
    }
}

/// Splitting loses nothing: the pieces, with the separator between them, are the
/// text; and no piece holds the separator.
pub proof fn pieces_make_up_the_text(s: Seq<char>, sep: char)
    ensures
        split(s, sep).len() >= 1,
        rejoined(split(s, sep), sep) == s,
        forall|i: int, k: int|
            0 <= i < split(s, sep).len() && 0 <= k < split(s, sep)[i].len() ==> #[trigger] split(
                s,
                sep,
            )[i][k] != sep,
    decreases s.len(),
{
    if s.len() == 0 {
        assert(s =~= Seq::<char>::empty());
    } else {
        let t = s.drop_last();
        pieces_make_up_the_text(t, sep);
        let init = split(t, sep);
        let all = split(s, sep);
        if s.last() == sep {
            assert(all.drop_last() =~= init);
            assert(rejoined(all, sep) =~= t.push(sep) + Seq::<char>::empty());
            assert(t.push(sep) + Seq::<char>::empty() =~= s);
        } else {
            assert(all.drop_last() =~= init.drop_last());
            if init.len() == 1 {
                assert(rejoined(init, sep) == init[0]);
                assert(rejoined(all, sep) == init[0].push(s.last()));
            } else {
                assert(rejoined(all, sep) =~= rejoined(init, sep).push(s.last()));
            }
            assert(t.push(s.last()) =~= s);
        }
        assert forall|i: int, k: int| 0 <= i < all.len() && 0 <= k < all[i].len() implies
            #[trigger] all[i][k] != sep by {
            if i < init.len() - 1 || (s.last() == sep && i < init.len()) {
                assert(all[i] == init[i]);
                assert(init[i][k] != sep);
            } else if s.last() != sep {
                if k < init.last().len() {
                    assert(init[i][k] == all[i][k]);
                }
            }
        }
    }
}

/// A list of pieces that hold no separator is what the text that they make up is
/// split into.
pub proof fn texts_split_into_what_they_were_made_of(parts: Seq<Seq<char>>, sep: char)
    requires
        parts.len() >= 1,
        forall|i: int, k: int|
            0 <= i < parts.len() && 0 <= k < parts[i].len() ==> #[trigger] parts[i][k] != sep,
    ensures
        split(rejoined(parts, sep), sep) == parts,
    decreases parts.len(),
{
    let last = parts.last();
    assert forall|k: int| 0 <= k < last.len() implies #[trigger] last[k] != sep by {
        assert(parts[parts.len() - 1][k] != sep);
    }
    text::lemma_split_single(last, sep);
    if parts.len() == 1 {
        assert(parts =~= seq![last]);
    } else {
        let init = parts.drop_last();
        assert forall|i: int, k: int| 0 <= i < init.len() && 0 <= k < init[i].len() implies
            #[trigger] init[i][k] != sep by {
            assert(parts[i][k] != sep);
        }
        texts_split_into_what_they_were_made_of(init, sep);
        text::lemma_split_append(rejoined(init, sep), last, sep);
        assert(init + seq![last] =~= parts);
    }
}

/// A text has one piece more than it has separators.
pub proof fn separators_count_the_pieces(s: Seq<char>, sep: char)
    ensures
        split(s, sep).len() == s.filter(|c: char| c == sep).len() + 1,
    decreases s.len(),
{
    reveal(Seq::filter);
    if s.len() > 0 {
        separators_count_the_pieces(s.drop_last(), sep);
    }
}

/// The labels of a name are counted by its dots; the empty name has none.
pub proof fn labels_are_counted_by_dots(s: Seq<char>)
    ensures
        s.len() == 0 ==> labels_in(s) == 0,
        s.len() > 0 ==> labels_in(s) == s.filter(|c: char| c == '.').len() + 1,
{
    separators_count_the_pieces(s, '.');
}

/// To end in a text is to be something followed by it.
pub proof fn suffixes_end_the_text(s: Seq<char>, tail: Seq<char>)
    ensures
        has_suffix(s, tail) <==> exists|head: Seq<char>| s == #[trigger] (head + tail),
{
    if has_suffix(s, tail) {
        assert(s =~= s.take(s.len() - tail.len()) + tail) by {
            assert forall|i: int| s.len() - tail.len() <= i < s.len() implies s[i] == tail[i - (
            s.len() - tail.len())] by {
                assert(s.skip(s.len() - tail.len())[i - (s.len() - tail.len())] == tail[i - (
                s.len() - tail.len())]);
            }
        }
    }
    if exists|head: Seq<char>| s == #[trigger] (head + tail) {
        let head = choose|head: Seq<char>| s == #[trigger] (head + tail);
        assert(s.skip(s.len() - tail.len()) =~= tail);
    }
}

// ── Substitution ──────────────────────────────────────────────────────

/// `pat` stands in `s` at position `i`.
pub open spec fn stands_at(s: Seq<char>, pat: Seq<char>, i: int) -> bool {
    0 <= i && i + pat.len() <= s.len() && s.subrange(i, i + pat.len()) == pat
}

/// A text in which the pattern stands nowhere is left alone.
pub proof fn texts_without_the_pattern_are_kept(s: Seq<char>, pat: Seq<char>, with: Seq<char>)
    requires
        forall|i: int| !#[trigger] stands_at(s, pat, i),
    ensures
        replaced(s, pat, with) == s,
    decreases s.len(),
{
    if pat.len() > 0 && s.len() >= pat.len() {
        assert(!stands_at(s, pat, 0));
        assert(s.subrange(0, 0 + pat.len() as int) =~= s.take(pat.len() as int));
        let rest = s.skip(1);
        assert forall|i: int| !#[trigger] stands_at(rest, pat, i) by {
            if stands_at(rest, pat, i) {
                assert(s.subrange(i + 1, i + 1 + pat.len()) =~= rest.subrange(i, i + pat.len()));
                assert(stands_at(s, pat, i + 1));
            }
        }
        texts_without_the_pattern_are_kept(rest, pat, with);
        assert(seq![s[0]] + rest =~= s);
    }
}

/// The first place of the pattern is replaced, what stands before it is kept, and
/// the rest is treated alike.
pub proof fn the_first_place_is_replaced(
    s: Seq<char>,
    pat: Seq<char>,
    with: Seq<char>,
    at: int,
)
    requires
        pat.len() > 0,
        stands_at(s, pat, at),
        forall|i: int| 0 <= i < at ==> !#[trigger] stands_at(s, pat, i),
    ensures
        replaced(s, pat, with) == s.take(at) + with + replaced(s.skip(at + pat.len()), pat, with),
    decreases at,
{
    if at == 0 {
        assert(s.subrange(0, 0 + pat.len() as int) =~= s.take(pat.len() as int));
        assert(replaced(s, pat, with) == with + replaced(s.skip(pat.len() as int), pat, with));
        assert(s.take(0) + with =~= with);
    } else {
        assert(!stands_at(s, pat, 0));
        assert(s.subrange(0, 0 + pat.len() as int) =~= s.take(pat.len() as int));
        let rest = s.skip(1);
        assert(rest.subrange(at - 1, at - 1 + pat.len()) =~= s.subrange(at, at + pat.len()));
        assert forall|i: int| 0 <= i < at - 1 implies !#[trigger] stands_at(rest, pat, i) by {
            if stands_at(rest, pat, i) {
                assert(s.subrange(i + 1, i + 1 + pat.len()) =~= rest.subrange(i, i + pat.len()));
                assert(stands_at(s, pat, i + 1));
            }
        }
        the_first_place_is_replaced(rest, pat, with, at - 1);
        assert(rest.skip(at - 1 + pat.len()) =~= s.skip(at + pat.len()));
        assert(seq![s[0]] + rest.take(at - 1) =~= s.take(at));
        let tail = replaced(s.skip(at + pat.len()), pat, with);
        assert(seq![s[0]] + (rest.take(at - 1) + with + tail) =~= s.take(at) + with + tail);
    }
}

/// What is left of a text without its prefixes does not begin with the prefix,
/// and what went is made of repetitions of it.
pub proof fn prefixes_are_taken_off_whole(s: Seq<char>, prefix: Seq<char>)
    requires
        prefix.len() > 0,
    ensures
        !stands_at(without_prefix(s, prefix), prefix, 0),
        without_prefix(s, prefix).len() <= s.len(),
        without_prefix(s, prefix) == s.skip(s.len() - without_prefix(s, prefix).len()),
        (s.len() - without_prefix(s, prefix).len()) % prefix.len() as int == 0,
        !stands_at(s, prefix, 0) ==> without_prefix(s, prefix) == s,
        without_prefix(prefix + s, prefix) == without_prefix(s, prefix),
    decreases s.len(),
{
    assert((prefix + s).take(prefix.len() as int) =~= prefix);
    assert((prefix + s).skip(prefix.len() as int) =~= s);
    if s.len() >= prefix.len() {
        assert(s.subrange(0, 0 + prefix.len() as int) =~= s.take(prefix.len() as int));
        if s.take(prefix.len() as int) == prefix {
            let rest = s.skip(prefix.len() as int);
            prefixes_are_taken_off_whole(rest, prefix);
            let out = without_prefix(s, prefix);
            assert(rest.skip(rest.len() - out.len()) =~= s.skip(s.len() - out.len()));
            let gone = rest.len() - out.len();
            assert((gone + prefix.len()) % (prefix.len() as int) == 0) by {
                vstd::arithmetic::div_mod::lemma_mod_add_multiples_vanish(
                    gone,
                    prefix.len() as int,
                );
            }
        } else {
            assert(s.skip(0) =~= s);
            assert(0int % prefix.len() as int == 0) by {
                vstd::arithmetic::div_mod::lemma_small_mod(0nat, prefix.len());
            }
        }
    } else {
        assert(s.skip(0) =~= s);
        assert(0int % prefix.len() as int == 0) by {
            vstd::arithmetic::div_mod::lemma_small_mod(0nat, prefix.len());
        }
    }
}

// ── Numbers ───────────────────────────────────────────────────────────

/// The number that decimal digits spell.
pub open spec fn decimal_value(t: Seq<char>) -> int
    decreases t.len(),
{
    if t.len() == 0 {
        0
    } else {
        10 * decimal_value(t.drop_last()) + (t.last() as int - '0' as int)
    }
}

/// A number is written by the digits that spell it, the most significant first,
/// and without leading zeros.
pub proof fn decimals_spell_their_number(n: nat)
    ensures
        decimal_value(decimal(n)) == n,
        decimal(n).len() >= 1,
        forall|i: int| 0 <= i < decimal(n).len() ==> '0' <= #[trigger] decimal(n)[i] <= '9',
        n > 0 ==> decimal(n)[0] != '0',
        n == 0 ==> decimal(n) == seq!['0'],
    decreases n,
{
    if n < 10 {
        assert(decimal(n) == seq![digit(n)]);
        assert(decimal(n).drop_last() =~= Seq::<char>::empty());
        assert(decimal_value(Seq::<char>::empty()) == 0);
        assert(decimal(n).last() == digit(n));
    } else {
        decimals_spell_their_number(n / 10);
        assert(decimal(n).drop_last() =~= decimal(n / 10));
        assert(decimal(n).last() == digit(n % 10));
    }
}

/// A flag is written as what it is.
pub proof fn flags_are_written_out(b: bool)
    ensures
        b ==> flag_text(b) == seq!['t', 'r', 'u', 'e'],
        !b ==> flag_text(b) == seq!['f', 'a', 'l', 's', 'e'],
{
    reveal_strlit("true");
    reveal_strlit("false");
    assert("true"@ =~= seq!['t', 'r', 'u', 'e']);
    assert("false"@ =~= seq!['f', 'a', 'l', 's', 'e']);
}

// ── Domains ───────────────────────────────────────────────────────────

/// The canonical spelling of a name holds no capital letter of ASCII, does not
/// begin with white space and does not end in a dot.
pub proof fn canonical_names_are_folded(s: Seq<char>)
    ensures
        forall|i: int| 0 <= i < canonical(s).len() ==> !('A' <= #[trigger] canonical(s)[i] <= 'Z'),
        canonical(s).len() > 0 ==> canonical(s).last() != '.',
        canonical(s).len() > 0 ==> !is_white_space(canonical(s)[0]),
        canonical(s).len() <= s.len(),
{
    let t = trimmed(s);
    lemma_start_shape(s);
    lemma_end_shape(trimmed_start(s));
    text::lemma_undotted_shape(t);
    let u = undotted(t);
    if u.len() > 0 {
        assert(u[0] == t[0]);
        assert(t[0] == trimmed_start(s)[0]);
    }
}

/// What canonicalizing takes off a spelling: blanks in front, blanks behind, and
/// the dots in front of those; and nothing from within.
pub proof fn canonical_names_lose_blanks_and_dots(s: Seq<char>)
    ensures
        exists|from: int, to: int, end: int|
            #![trigger s.subrange(from, to), s.subrange(to, end)]
            0 <= from <= to <= end <= s.len() && canonical(s) == lowered(s.subrange(from, to)) && (
            forall|i: int| 0 <= i < from || end <= i < s.len() ==> is_white_space(#[trigger] s[i]))
                && (forall|i: int| to <= i < end ==> #[trigger] s[i] == '.') && (from < end
                ==> !is_white_space(s[from]) && !is_white_space(s[end - 1])) && (from < to ==> s[to
                - 1] != '.'),
{
    let a = trimmed_start(s);
    let t = trimmed(s);
    let u = undotted(t);
    lemma_start_shape(s);
    lemma_end_shape(a);
    text::lemma_undotted_shape(t);
    let from = s.len() - a.len();
    let to = from + u.len();
    let end = from + t.len();
    assert(t =~= s.subrange(from, end));
    assert(u =~= s.subrange(from, to));
    assert forall|i: int| 0 <= i < from || end <= i < s.len() implies is_white_space(
        #[trigger] s[i],
    ) by {
        if i >= end {
            assert(a[i - from] == s[i]);
        }
    }
    assert forall|i: int| to <= i < end implies #[trigger] s[i] == '.' by {
        assert(t[i - from] == s[i]);
    }
    if from < end {
        assert(t[0] == a[0]);
        assert(s[from] == a[0]);
        assert(t.last() == s[end - 1]);
    }
    if from < to {
        assert(u.last() == s[to - 1]);
    }
    assert(s.subrange(to, end) == s.subrange(to, end));
}

/// Names that differ in the case of ASCII letters alone have one canonical
/// spelling, and so has a name with a blank in front or a dot behind it.
pub proof fn spellings_of_a_name_agree(a: Seq<char>, b: Seq<char>)
    requires
        lowered(a) == lowered(b),
    ensures
        canonical(a) == canonical(b),
        canonical(seq![' '] + a) == canonical(a),
        canonical(a.push(' ')) == canonical(a),
        a.len() > 0 && !is_white_space(a.last()) ==> canonical(a.push('.')) == canonical(a),
{
    lemma_lowered_through(a);
    lemma_lowered_through(b);
    assert(lowered(a).len() == a.len());
    assert((seq![' '] + a).drop_first() =~= a);
    assert(trimmed_start(seq![' '] + a) == trimmed_start(a));
    lemma_end_blank(a);
    if a.len() > 0 && !is_white_space(a.last()) {
        lemma_start_dot(a);
        let t = trimmed_start(a);
        lemma_start_shape(a);
        assert(t.len() > 0) by {
            if t.len() == 0 {
                assert(is_white_space(a[a.len() - 1]));
            }
        }
        assert(t.last() == a.last());
        assert(trimmed_end(t.push('.')) == t.push('.'));
        assert(t.push('.').drop_last() =~= t);
    }
}

proof fn lemma_start_dot(a: Seq<char>)
    ensures
        trimmed_start(a.push('.')) == trimmed_start(a).push('.'),
    decreases a.len(),
{
    if a.len() > 0 && is_white_space(a[0]) {
        assert(a.push('.').drop_first() =~= a.drop_first().push('.'));
        lemma_start_dot(a.drop_first());
    } else if a.len() == 0 {
        assert(a.push('.')[0] == '.');
    } else {
        assert(a.push('.')[0] == a[0]);
    }
}

proof fn lemma_end_blank(a: Seq<char>)
    ensures
        trimmed(a.push(' ')) == trimmed(a),
    decreases a.len(),
{
    if a.len() > 0 && is_white_space(a[0]) {
        assert(a.push(' ').drop_first() =~= a.drop_first().push(' '));
        lemma_end_blank(a.drop_first());
    } else if a.len() == 0 {
        assert(a.push(' ')[0] == ' ');
        assert(a.push(' ').drop_first() =~= Seq::<char>::empty());
        assert(a =~= Seq::<char>::empty());
    } else {
        assert(a.push(' ')[0] == a[0]);
        assert(a.push(' ').drop_last() =~= a);
    }
}

/// Trimming and stripping go by characters that folding leaves alone.
proof fn lemma_lowered_through(s: Seq<char>)
    ensures
        canonical(s) == undotted(trimmed(lowered(s))),
{
    lemma_lowered_start(s);
    lemma_lowered_end(trimmed_start(s));
    lemma_lowered_dots(trimmed(s));
}

proof fn lemma_lowered_start(s: Seq<char>)
    ensures
        trimmed_start(lowered(s)) == lowered(trimmed_start(s)),
    decreases s.len(),
{
    if s.len() > 0 {
        assert(lowered(s)[0] == text::lower_char(s[0]));
        if is_white_space(s[0]) {
            assert(lowered(s).drop_first() =~= lowered(s.drop_first()));
            lemma_lowered_start(s.drop_first());
        }
    }
}

proof fn lemma_lowered_end(s: Seq<char>)
    ensures
        trimmed_end(lowered(s)) == lowered(trimmed_end(s)),
    decreases s.len(),
{
    if s.len() > 0 {
        assert(lowered(s).last() == text::lower_char(s.last()));
        if is_white_space(s.last()) {
            assert(lowered(s).drop_last() =~= lowered(s.drop_last()));
            lemma_lowered_end(s.drop_last());
        }
    }
}

proof fn lemma_lowered_dots(s: Seq<char>)
    ensures
        undotted(lowered(s)) == lowered(undotted(s)),
    decreases s.len(),
{
    if s.len() > 0 {
        assert(lowered(s).last() == text::lower_char(s.last()));
        if s.last() == '.' {
            assert(lowered(s).drop_last() =~= lowered(s.drop_last()));
            lemma_lowered_dots(s.drop_last());
        }
    }
}

/// A label is valid exactly if it has one to 63 letters, digits, hyphens or
/// underscores of ASCII and a hyphen at neither end.
pub proof fn labels_are_short_and_plain(l: Seq<char>)
    ensures
        valid_label(l) <==> l.len() > 0 && l.len() < 64 && l[0] != '-' && l[l.len() - 1] != '-' && (
        forall|i: int|
            0 <= i < l.len() ==> ('0' <= #[trigger] l[i] <= '9' || 'A' <= l[i] <= 'Z' || 'a' <= l[i]
                <= 'z' || l[i] == '-' || l[i] == '_')),
{
    if valid_label(l) {
        assert forall|i: int| 0 <= i < l.len() implies ('0' <= #[trigger] l[i] <= '9' || 'A' <= l[i]
            <= 'Z' || 'a' <= l[i] <= 'z' || l[i] == '-' || l[i] == '_') by {
            assert(label_char(l[i]));
        }
    }
}

/// A name is valid exactly if the two names on either side of any of its dots
/// are, and it has at most 253 characters; a name without dots is valid exactly
/// if it is a valid label.
pub proof fn names_are_valid_label_by_label(a: Seq<char>, b: Seq<char>)
    ensures
        valid_name(a.push('.') + b) <==> valid_name(a) && valid_name(b) && a.len() + b.len() < 253,
        (forall|i: int| 0 <= i < a.len() ==> #[trigger] a[i] != '.') ==> (valid_name(a)
            <==> valid_label(a)),
        a.len() == 0 || a.len() > 253 ==> !valid_name(a),
{
    let d = a.push('.') + b;
    text::lemma_split_append(a, b, '.');
    text::lemma_split_nonempty(a, '.');
    text::lemma_split_nonempty(b, '.');
    let all = split(d, '.');
    let n = split(a, '.').len();
    if valid_name(d) {
        assert forall|i: int| 0 <= i < n implies valid_label(#[trigger] split(a, '.')[i]) by {
            assert(valid_label(all[i]));
        }
        assert forall|i: int| 0 <= i < split(b, '.').len() implies valid_label(
            #[trigger] split(b, '.')[i],
        ) by {
            assert(valid_label(all[n + i]));
            assert(all[n + i] == split(b, '.')[i]);
        }
        if a.len() == 0 {
            assert(valid_label(split(a, '.')[0]));
        }
        if b.len() == 0 {
            assert(valid_label(split(b, '.')[0]));
        }
    }
    if valid_name(a) && valid_name(b) && a.len() + b.len() < 253 {
        assert forall|i: int| 0 <= i < all.len() implies valid_label(#[trigger] all[i]) by {
            if i < n {
                assert(valid_label(split(a, '.')[i]));
            } else {
                assert(valid_label(split(b, '.')[i - n]));
                assert(all[i] == split(b, '.')[i - n]);
            }
        }
    }
    if forall|i: int| 0 <= i < a.len() ==> #[trigger] a[i] != '.' {
        text::lemma_split_single(a, '.');
        if valid_name(a) {
            assert(valid_label(split(a, '.')[0]));
        }
    }
}

/// Whether a spelling is a valid name does not depend on blanks around it or on
/// a dot behind it.
pub proof fn syntax_goes_by_the_bare_name(s: Seq<char>)
    requires
        s.len() > 0,
        !is_white_space(s[0]),
        !is_white_space(s.last()),
        s.last() != '.',
    ensures
        fqdn_syntax(s) <==> valid_name(s),
        fqdn_syntax(s.push('.')) <==> valid_name(s),
        fqdn_syntax(seq![' '] + s) <==> valid_name(s),
{
    lemma_start_dot(s);
    assert(s.push('.').last() == '.');
    assert(s.push('.').drop_last() =~= s);
    assert((seq![' '] + s).drop_first() =~= s);
}

/// A name has an underscore label exactly if an underscore opens it or follows
/// one of its dots.
pub proof fn underscores_open_labels(s: Seq<char>)
    ensures
        ({
            let d = undotted(trimmed(s));
            underscore_name(s) <==> exists|i: int|
                0 <= i < d.len() && #[trigger] d[i] == '_' && (i == 0 || d[i - 1] == '.')
        }),
{
    lemma_underscore_labels(undotted(trimmed(s)));
}

proof fn lemma_underscore_labels(d: Seq<char>)
    ensures
        (exists|i: int|
            0 <= i < split(d, '.').len() && (#[trigger] split(d, '.')[i]).len() > 0 && split(
                d,
                '.',
            )[i][0] == '_') <==> exists|i: int|
            0 <= i < d.len() && #[trigger] d[i] == '_' && (i == 0 || d[i - 1] == '.'),
        split(d, '.').last().len() == 0 <==> d.len() == 0 || d.last() == '.',
    decreases d.len(),
{
    let all = split(d, '.');
    if d.len() > 0 {
        let t = d.drop_last();
        let init = split(t, '.');
        lemma_underscore_labels(t);
        text::lemma_split_nonempty(t, '.');
        let n = d.len() - 1;
        if exists|i: int| 0 <= i < all.len() && (#[trigger] all[i]).len() > 0 && all[i][0] == '_' {
            let i = choose|i: int|
                0 <= i < all.len() && (#[trigger] all[i]).len() > 0 && all[i][0] == '_';
            if i < init.len() && init[i].len() > 0 {
                assert(init[i][0] == '_');
                let k = choose|k: int|
                    0 <= k < t.len() && #[trigger] t[k] == '_' && (k == 0 || t[k - 1] == '.');
                assert(d[k] == '_' && (k == 0 || d[k - 1] == '.'));
            } else {
                assert(d[n] == '_');
                assert(n == 0 || d[n - 1] == '.');
            }
        }
        if exists|i: int| 0 <= i < d.len() && #[trigger] d[i] == '_' && (i == 0 || d[i - 1] == '.') {
            let i = choose|i: int|
                0 <= i < d.len() && #[trigger] d[i] == '_' && (i == 0 || d[i - 1] == '.');
            if i < n {
                assert(t[i] == '_' && (i == 0 || t[i - 1] == '.'));
                let k = choose|k: int|
                    0 <= k < init.len() && (#[trigger] init[k]).len() > 0 && init[k][0] == '_';
                assert(all[k].len() > 0 && all[k][0] == '_');
            } else {
                assert(init.last().len() == 0);
                assert(all.last()[0] == '_');
                assert(all[all.len() - 1][0] == '_');
            }
        }
    } else {
        assert(all[0].len() == 0);
    }
}

/// The last label of a name is `tld` exactly if the name is `tld` or lies below
/// it.
pub proof fn last_labels_stand_at_the_end(d: Seq<char>, tld: Seq<char>)
    requires
        forall|i: int| 0 <= i < tld.len() ==> #[trigger] tld[i] != '.',
    ensures
        split(d, '.').last() == tld <==> d == tld || below(d, tld),
    decreases d.len(),
{
    pieces_make_up_the_text(d, '.');
    let all = split(d, '.');
    if all.last() == tld {
        if all.len() == 1 {
            assert(d == tld);
        } else {
            let head = rejoined(all.drop_last(), '.').push('.');
            assert(d == head + tld);
            assert(d.skip(d.len() - tld.len()) =~= tld);
            assert(d[d.len() - tld.len() - 1] == head.last());
        }
    }
    if d == tld {
        text::lemma_split_single(tld, '.');
    }
    if below(d, tld) {
        let head = d.take(d.len() - tld.len() - 1);
        assert(d =~= head.push('.') + tld) by {
            assert forall|i: int| d.len() - tld.len() <= i < d.len() implies d[i] == tld[i - (
            d.len() - tld.len())] by {
                assert(d.skip(d.len() - tld.len())[i - (d.len() - tld.len())] == tld[i - (d.len()
                    - tld.len())]);
            }
        }
        text::lemma_split_append(head, tld, '.');
        text::lemma_split_single(tld, '.');
        assert((split(head, '.') + seq![tld]).last() == tld);
    }
}

/// The word is one of the top-level labels that are set aside.
pub open spec fn set_aside(tld: Seq<char>) -> bool {
    ||| tld == "localhost"@
    ||| tld == "local"@
    ||| tld == "arpa"@
    ||| tld == "invalid"@
    ||| tld == "example"@
    ||| tld == "test"@
    ||| tld == "onion"@
}

/// A name is reserved exactly if its last label is one of those set aside and it
/// is neither the residential domain nor a name below it.
pub proof fn reserved_names_end_in_reserved_labels(s: Seq<char>)
    ensures
        ({
            let d = canonical(s);
            reserved_tld(s) <==> d.len() > 0 && set_aside(split(d, '.').last()) && d
                != "home.arpa"@ && !below(d, "home.arpa"@)
        }),
{
    let d = canonical(s);
    let last = split(d, '.').last();
    reveal_strlit("home.arpa");
    reveal_strlit(".home.arpa");
    assert(".home.arpa"@ =~= seq!['.'] + "home.arpa"@);
    suffixes_end_the_text(d, ".home.arpa"@);
    if has_suffix(d, ".home.arpa"@) {
        let head = choose|head: Seq<char>| d == #[trigger] (head + ".home.arpa"@);
        assert(d.skip(d.len() - "home.arpa"@.len()) =~= "home.arpa"@);
        assert(d[d.len() - "home.arpa"@.len() - 1] == '.');
    }
    if below(d, "home.arpa"@) {
        let head = d.take(d.len() - ".home.arpa"@.len());
        let apex = "home.arpa"@;
        assert(d =~= head + ".home.arpa"@) by {
            assert forall|i: int| d.len() - apex.len() <= i < d.len() implies d[i] == apex[i - (
            d.len() - apex.len())] by {
                assert(d.skip(d.len() - apex.len())[i - (d.len() - apex.len())] == apex[i - (d.len()
                    - apex.len())]);
            }
        }
    }
    assert(RESERVED_TLDS@[0]@ == "localhost"@);
    assert(RESERVED_TLDS@[1]@ == "local"@);
    assert(RESERVED_TLDS@[2]@ == "arpa"@);
    assert(RESERVED_TLDS@[3]@ == "invalid"@);
    assert(RESERVED_TLDS@[4]@ == "example"@);
    assert(RESERVED_TLDS@[5]@ == "test"@);
    assert(RESERVED_TLDS@[6]@ == "onion"@);
    assert(residential(d) <==> d == "home.arpa"@ || below(d, "home.arpa"@));
}

// ── Names in wire form ────────────────────────────────────────────────

/// Two octets are alike: equal, or a capital and a small letter of ASCII that
/// stand 32 places apart.
pub open spec fn alike(a: u8, b: u8) -> bool {
    ||| a == b
    ||| 65 <= a <= 90 && b == a + 32
    ||| 65 <= b <= 90 && a == b + 32
}

/// Two names are the same exactly if they have as many labels, of the same
/// lengths, of octets that are alike, and are both rooted or both not.
pub proof fn names_are_the_same_up_to_case(a: NameV, b: NameV)
    ensures
        same_name(a, b) <==> a.1 == b.1 && a.0.len() == b.0.len() && (forall|i: int|
            0 <= i < a.0.len() ==> (#[trigger] a.0[i]).len() == b.0[i].len()) && (forall|
            i: int,
            k: int,
        |
            0 <= i < a.0.len() && 0 <= k < a.0[i].len() ==> alike(#[trigger] a.0[i][k], b.0[i][k])),
{
    if same_name(a, b) {
        assert forall|i: int| 0 <= i < a.0.len() implies (#[trigger] a.0[i]).len()
            == b.0[i].len() by {
            assert(same_label(a.0[i], b.0[i]));
        }
        assert forall|i: int, k: int| 0 <= i < a.0.len() && 0 <= k < a.0[i].len() implies alike(
            #[trigger] a.0[i][k],
            b.0[i][k],
        ) by {
            assert(same_label(a.0[i], b.0[i]));
        }
    }
    if a.1 == b.1 && a.0.len() == b.0.len() && (forall|i: int|
        0 <= i < a.0.len() ==> (#[trigger] a.0[i]).len() == b.0[i].len()) && (forall|
        i: int,
        k: int,
    |
        0 <= i < a.0.len() && 0 <= k < a.0[i].len() ==> alike(#[trigger] a.0[i][k], b.0[i][k])) {
        assert forall|i: int| 0 <= i < a.0.len() implies same_label(#[trigger] a.0[i], b.0[i]) by {
            let x = a.0[i];
            assert forall|k: int| 0 <= k < x.len() implies crate::record::lower_octet(
                #[trigger] x[k],
            ) == crate::record::lower_octet(b.0[i][k]) by {
                assert(alike(a.0[i][k], b.0[i][k]));
            }
        }
    }
}

/// To be the same name is an equivalence.
pub proof fn sameness_is_an_equivalence(a: NameV, b: NameV, c: NameV)
    ensures
        same_name(a, a),
        same_name(a, b) ==> same_name(b, a),
        same_name(a, b) && same_name(b, c) ==> same_name(a, c),
{
    if same_name(a, b) {
        assert forall|i: int| 0 <= i < b.0.len() implies same_label(#[trigger] b.0[i], a.0[i]) by {
            assert(same_label(a.0[i], b.0[i]));
        }
        if same_name(b, c) {
            assert forall|i: int| 0 <= i < a.0.len() implies same_label(
                #[trigger] a.0[i],
                c.0[i],
            ) by {
                assert(same_label(a.0[i], b.0[i]));
                assert(same_label(b.0[i], c.0[i]));
                assert forall|k: int| 0 <= k < a.0[i].len() implies crate::record::lower_octet(
                    #[trigger] a.0[i][k],
                ) == crate::record::lower_octet(c.0[i][k]) by {
                    assert(crate::record::lower_octet(b.0[i][k]) == crate::record::lower_octet(
                        c.0[i][k],
                    ));
                }
            }
        }
    }
}

} // verus!
