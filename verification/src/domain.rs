//! Domain spelling rules: the canonical form, FQDN syntax, public suffixes
//! and special-use names.
use vstd::prelude::*;
use crate::text::{
    self, has_suffix, lowered, split, split_on, strip_dots, texts, to_lower, trim, trimmed, undotted,
};

verus! {

/// The common top-level domains and registry suffixes under which a
/// wildcard would capture a whole namespace.
pub const PSL: [&'static str; 64] = [
    "com", "org", "net", "edu", "gov", "mil", "int", "info", "biz", "name", "pro", "io", "co",
    "app", "dev", "tech", "online", "site", "store", "blog", "xyz",
    "us", "uk", "de", "fr", "it", "es", "nl", "pl", "ru", "cn", "jp", "kr", "in", "br", "mx", "ca",
    "au", "nz", "se", "no", "fi", "dk", "ch", "at", "be", "pt", "ie", "gr", "cz",
    "co.uk", "co.it", "com.au", "co.nz", "co.jp", "ac.uk", "gov.uk", "co.in", "com.br", "com.mx",
    "co.kr", "or.jp", "ne.jp", "go.jp",
];

/// Reserved and special-use top-level domains (RFC 2606, 6761, 7686).
pub const RESERVED_TLDS: [&'static str; 7] = [
    "localhost", "local", "arpa", "invalid", "example", "test", "onion",
];

/// The one spelling under which names are compared and looked up: without
/// surrounding white space, without trailing dots, in lower case.
pub open spec fn canonical(s: Seq<char>) -> Seq<char> {
    lowered(undotted(trimmed(s)))
}

/// `d` is an entry of the public-suffix list.
pub open spec fn listed_suffix(d: Seq<char>) -> bool {
    exists|i: int| 0 <= i < PSL@.len() && #[trigger] PSL@[i]@ == d
}

/// `s` is itself a public suffix.
pub open spec fn public_suffix(s: Seq<char>) -> bool {
    canonical(s).len() > 0 && listed_suffix(canonical(s))
}

/// A letter, digit, hyphen or underscore of ASCII.
pub open spec fn label_char(c: char) -> bool {
    ||| 'a' <= c <= 'z'
    ||| 'A' <= c <= 'Z'
    ||| '0' <= c <= '9'
    ||| c == '-'
    ||| c == '_'
}

/// One to 63 label characters, with no hyphen at either end.
pub open spec fn valid_label(l: Seq<char>) -> bool {
    &&& 1 <= l.len() <= 63
    &&& l[0] != '-'
    &&& l.last() != '-'
    &&& forall|i: int| 0 <= i < l.len() ==> label_char(#[trigger] l[i])
}

/// At most 253 characters of dot-separated valid labels.
pub open spec fn valid_name(d: Seq<char>) -> bool {
    &&& 1 <= d.len() <= 253
    &&& forall|i: int| 0 <= i < split(d, '.').len() ==> valid_label(#[trigger] split(d, '.')[i])
}

/// `s` is a fully qualified domain name, trailing dots and surrounding
/// white space aside.
pub open spec fn fqdn_syntax(s: Seq<char>) -> bool {
    valid_name(undotted(trimmed(s)))
}

/// Some label of `s` begins with an underscore.
pub open spec fn underscore_name(s: Seq<char>) -> bool {
    let labels = split(undotted(trimmed(s)), '.');
    exists|i: int| 0 <= i < labels.len() && (#[trigger] labels[i]).len() > 0 && labels[i][0] == '_'
}

/// `d` is a reserved top-level label.
pub open spec fn reserved_label(d: Seq<char>) -> bool {
    exists|i: int| 0 <= i < RESERVED_TLDS@.len() && #[trigger] RESERVED_TLDS@[i]@ == d
}

/// `home.arpa` or a name below it: the residential domain of RFC 8375.
pub open spec fn residential(d: Seq<char>) -> bool {
    d == "home.arpa"@ || has_suffix(d, ".home.arpa"@)
}

/// The last label of `s` is reserved, and `s` is not residential.
pub open spec fn reserved_tld(s: Seq<char>) -> bool {
    let d = canonical(s);
    &&& d.len() > 0
    &&& !residential(d)
    &&& reserved_label(split(d, '.').last())
}

/// The number of labels of `s`; none for the empty name.
pub open spec fn labels_in(s: Seq<char>) -> nat {
    if s.len() == 0 {
        0
    } else {
        split(s, '.').len()
    }
}

/// The canonical spelling of a domain.
pub fn canonicalize_domain(s: &str) -> (r: String)
    ensures
        r@ == canonical(s@),
{
    let t = trim(s);
    let u = strip_dots(&t);
    to_lower(&u)
}

/// Whether `domain` is itself a public suffix.
pub fn is_public_suffix(domain: &str) -> (r: bool)
    ensures
        r == public_suffix(domain@),
{
    let d = canonicalize_domain(domain);
    if d.as_str().is_empty() {
        return false;
    }
    let list = PSL;
    let mut i: usize = 0;
    while i < 64
        invariant
            i <= 64,
            list == PSL,
            d@ == canonical(domain@),
            d@.len() > 0,
            forall|k: int| 0 <= k < i ==> #[trigger] PSL@[k]@ != d@,
        decreases 64 - i,
    {
        if text::same_text(list[i], &d) {
            proof {
                assert(PSL@[i as int]@ == d@);
            }
            return true;
        }
        i += 1;
    }
    false
}

fn is_valid_label(l: &str) -> (r: bool)
    ensures
        r == valid_label(l@),
{
    let chars = text::to_chars(l);
    if chars.len() == 0 || chars.len() > 63 {
        return false;
    }
    if chars[0] == '-' || chars[chars.len() - 1] == '-' {
        return false;
    }
    let mut i: usize = 0;
    while i < chars.len()
        invariant
            i <= chars.len(),
            chars@ == l@,
            forall|k: int| 0 <= k < i ==> label_char(#[trigger] l@[k]),
        decreases chars.len() - i,
    {
        let c = chars[i];
        let alnum = ('a' <= c && c <= 'z') || ('A' <= c && c <= 'Z') || ('0' <= c && c <= '9');
        if !(alnum || c == '-' || c == '_') {
            proof {
                assert(!label_char(l@[i as int]));
            }
            return false;
        }
        i += 1;
    }
    true
}

/// Whether `s` is a syntactically valid fully qualified domain name.
pub fn is_valid_fqdn_syntax(s: &str) -> (r: bool)
    ensures
        r == fqdn_syntax(s@),
{
    let t = trim(s);
    let d = strip_dots(&t);
    let n = text::to_chars(&d).len();
    if n == 0 || n > 253 {
        return false;
    }
    let labels = split_on(&d, '.');
    let ghost all = split(d@, '.');
    let mut i: usize = 0;
    while i < labels.len()
        invariant
            i <= labels.len(),
            d@ == undotted(trimmed(s@)),
            all == split(d@, '.'),
            all == texts(labels@),
            forall|k: int| 0 <= k < i ==> valid_label(#[trigger] all[k]),
        decreases labels.len() - i,
    {
        proof {
            assert(texts(labels@)[i as int] == labels@[i as int]@);
        }
        if !is_valid_label(&labels[i]) {
            proof {
                assert(!valid_label(split(d@, '.')[i as int]));
            }
            return false;
        }
        i += 1;
    }
    true
}

/// Whether some label of `s` begins with an underscore (RFC 8552).
pub fn is_underscore_service_name(s: &str) -> (r: bool)
    ensures
        r == underscore_name(s@),
{
    let t = trim(s);
    let d = strip_dots(&t);
    let labels = split_on(&d, '.');
    let ghost all = split(d@, '.');
    let mut i: usize = 0;
    while i < labels.len()
        invariant
            i <= labels.len(),
            d@ == undotted(trimmed(s@)),
            all == split(d@, '.'),
            all == texts(labels@),
            forall|k: int| 0 <= k < i ==> !((#[trigger] all[k]).len() > 0 && all[k][0] == '_'),
        decreases labels.len() - i,
    {
        proof {
            assert(texts(labels@)[i as int] == labels@[i as int]@);
        }
        let chars = text::to_chars(&labels[i]);
        if chars.len() > 0 && chars[0] == '_' {
            proof {
                assert(all[i as int].len() > 0);
            }
            return true;
        }
        i += 1;
    }
    false
}

/// Whether the top-level label of `domain` is reserved for special use.
pub fn is_reserved_tld(domain: &str) -> (r: bool)
    ensures
        r == reserved_tld(domain@),
{
    let d = canonicalize_domain(domain);
    if d.as_str().is_empty() {
        return false;
    }
    if text::same_text(&d, "home.arpa") || text::ends_with(&d, ".home.arpa") {
        return false;
    }
    let labels = split_on(&d, '.');
    proof {
        text::lemma_split_nonempty(d@, '.');
        assert(texts(labels@).len() == labels.len());
        assert(texts(labels@).last() == labels@[labels.len() - 1]@);
    }
    let tld = &labels[labels.len() - 1];
    let list = RESERVED_TLDS;
    let mut i: usize = 0;
    while i < 7
        invariant
            i <= 7,
            list == RESERVED_TLDS,
            d@ == canonical(domain@),
            d@.len() > 0,
            !residential(d@),
            tld@ == split(d@, '.').last(),
            forall|k: int| 0 <= k < i ==> #[trigger] RESERVED_TLDS@[k]@ != tld@,
        decreases 7 - i,
    {
        if text::same_text(list[i], tld) {
            proof {
                assert(RESERVED_TLDS@[i as int]@ == tld@);
            }
            return true;
        }
        i += 1;
    }
    false
}

/// The number of labels in a domain.
pub fn label_count(domain: &str) -> (r: usize)
    ensures
        r == labels_in(domain@),
{
    if domain.is_empty() {
        return 0;
    }
    let parts = split_on(domain, '.');
    proof {
        assert(texts(parts@).len() == parts.len());
    }
    parts.len()
}

// ── Laws ──────────────────────────────────────────────────────────────

/// A text whose first and last characters are not white space is unchanged
/// by trimming.
pub proof fn lemma_trimmed_fixed(s: Seq<char>)
    requires
        s.len() > 0 ==> !text::is_white_space(s[0]) && !text::is_white_space(s.last()),
    ensures
        trimmed(s) == s,
{
}

proof fn lemma_trimmed_start_suffix(s: Seq<char>)
    ensures
        text::trimmed_start(s).len() <= s.len(),
        text::trimmed_start(s).len() > 0 ==> !text::is_white_space(text::trimmed_start(s)[0]),
    decreases s.len(),
{
    if s.len() > 0 && text::is_white_space(s[0]) {
        lemma_trimmed_start_suffix(s.drop_first());
    }
}

proof fn lemma_trimmed_end_prefix(s: Seq<char>)
    ensures
        text::trimmed_end(s).len() <= s.len(),
        text::trimmed_end(s) == s.take(text::trimmed_end(s).len() as int),
        text::trimmed_end(s).len() > 0 ==> !text::is_white_space(text::trimmed_end(s).last()),
    decreases s.len(),
{
    if s.len() > 0 && text::is_white_space(s.last()) {
        lemma_trimmed_end_prefix(s.drop_last());
        let k = text::trimmed_end(s).len() as int;
        assert(s.drop_last().take(k) =~= s.take(k));
    } else {
        assert(s.take(s.len() as int) =~= s);
    }
}

/// Trimming twice is trimming once.
pub proof fn lemma_trimmed_twice(s: Seq<char>)
    ensures
        trimmed(trimmed(s)) == trimmed(s),
{
    lemma_trimmed_start_suffix(s);
    lemma_trimmed_end_prefix(text::trimmed_start(s));
    lemma_trimmed_fixed(trimmed(s));
}

proof fn lemma_lower_char(c: char)
    ensures
        text::lower_char(text::lower_char(c)) == text::lower_char(c),
        text::is_white_space(text::lower_char(c)) == text::is_white_space(c),
        (text::lower_char(c) == '.') == (c == '.'),
        (text::lower_char(c) == '-') == (c == '-'),
        label_char(text::lower_char(c)) == label_char(c),
{
}

/// Canonicalizing twice is canonicalizing once, for every spelling that does
/// not hide white space in front of its trailing dots.
pub proof fn canonical_is_idempotent(s: Seq<char>)
    requires
        undotted(trimmed(s)).len() > 0 ==> !text::is_white_space(undotted(trimmed(s)).last()),
    ensures
        canonical(canonical(s)) == canonical(s),
{
    let t = trimmed(s);
    let u = undotted(t);
    let c = lowered(u);
    lemma_trimmed_start_suffix(s);
    let a = text::trimmed_start(s);
    lemma_trimmed_end_prefix(a);
    text::lemma_undotted_shape(t);
    if u.len() > 0 {
        assert(u[0] == t[0]);
        assert(t[0] == a[0]);
        lemma_lower_char(u[0]);
        lemma_lower_char(u.last());
        assert(c[0] == text::lower_char(u[0]));
        assert(c.last() == text::lower_char(u.last()));
    }
    lemma_trimmed_fixed(c);
    assert(undotted(c) == c);
    assert forall|i: int| 0 <= i < c.len() implies #[trigger] lowered(c)[i] == c[i] by {
        lemma_lower_char(u[i]);
    }
    assert(lowered(c) =~= c);
}

proof fn lemma_split_lowered(s: Seq<char>)
    ensures
        split(lowered(s), '.') == split(s, '.').map_values(|l: Seq<char>| lowered(l)),
    decreases s.len(),
{
    let f = |l: Seq<char>| lowered(l);
    if s.len() == 0 {
        assert(lowered(s) =~= Seq::<char>::empty());
        assert(lowered(Seq::<char>::empty()) =~= Seq::<char>::empty());
        assert(split(s, '.') =~= seq![Seq::<char>::empty()]);
        assert(split(lowered(s), '.') =~= split(s, '.').map_values(f));
    } else {
        let init = split(s.drop_last(), '.');
        text::lemma_split_nonempty(s.drop_last(), '.');
        lemma_split_lowered(s.drop_last());
        assert(lowered(s).drop_last() =~= lowered(s.drop_last()));
        assert(lowered(s).last() == text::lower_char(s.last()));
        lemma_lower_char(s.last());
        if s.last() == '.' {
            assert(lowered(Seq::<char>::empty()) =~= Seq::<char>::empty());
            assert(split(lowered(s), '.') =~= split(s, '.').map_values(f));
        } else {
            let l = init.last();
            assert(lowered(l.push(s.last())) =~= lowered(l).push(text::lower_char(s.last())));
            assert(split(lowered(s), '.') =~= split(s, '.').map_values(f));
        }
    }
}

/// The pieces between the dots of a name hold only characters of the name.
proof fn lemma_split_chars(s: Seq<char>, i: int, k: int)
    requires
        0 <= i < split(s, '.').len(),
        0 <= k < split(s, '.')[i].len(),
    ensures
        s.contains(split(s, '.')[i][k]),
    decreases s.len(),
{
    if s.len() > 0 {
        let init = split(s.drop_last(), '.');
        text::lemma_split_nonempty(s.drop_last(), '.');
        if s.last() == '.' {
            if i < init.len() {
                lemma_split_chars(s.drop_last(), i, k);
                let j = s.drop_last().index_of(init[i][k]);
                assert(s[j] == init[i][k]);
            }
        } else {
            if i < init.len() - 1 || k < init.last().len() {
                lemma_split_chars(s.drop_last(), i, k);
                let j = s.drop_last().index_of(init[i][k]);
                assert(s[j] == init[i][k]);
            } else {
                assert(s[s.len() - 1] == s.last());
            }
        }
    }
}

/// Every character of a name is a dot or lies in one of its pieces.
proof fn lemma_split_covers(s: Seq<char>, j: int)
    requires
        0 <= j < s.len(),
        s[j] != '.',
    ensures
        exists|i: int, k: int|
            0 <= i < split(s, '.').len() && 0 <= k < split(s, '.')[i].len() && #[trigger] split(
                s,
                '.',
            )[i][k] == s[j],
    decreases s.len(),
{
    let all = split(s, '.');
    let init = split(s.drop_last(), '.');
    text::lemma_split_nonempty(s.drop_last(), '.');
    if j < s.len() - 1 {
        lemma_split_covers(s.drop_last(), j);
        let (i, k) = choose|i: int, k: int|
            0 <= i < init.len() && 0 <= k < init[i].len() && #[trigger] init[i][k]
                == s.drop_last()[j];
        assert(all[i][k] == s[j]);
    } else {
        assert(all[all.len() - 1][init.last().len() as int] == s[j]);
    }
}

/// A valid name is made of label characters and dots.
pub proof fn lemma_valid_name_chars(d: Seq<char>, j: int)
    requires
        valid_name(d),
        0 <= j < d.len(),
    ensures
        d[j] == '.' || label_char(d[j]),
{
    if d[j] != '.' {
        lemma_split_covers(d, j);
        let all = split(d, '.');
        let (i, k) = choose|i: int, k: int|
            0 <= i < all.len() && 0 <= k < all[i].len() && #[trigger] all[i][k] == d[j];
        assert(valid_label(all[i]));
    }
}

/// The validator and the lookup tables agree on one spelling: the canonical
/// form of a name with valid syntax has valid syntax, and is its own
/// canonical form.
pub proof fn canonical_of_valid_name(s: Seq<char>)
    requires
        fqdn_syntax(s),
    ensures
        valid_name(canonical(s)),
        fqdn_syntax(canonical(s)),
        canonical(canonical(s)) == canonical(s),
{
    let u = undotted(trimmed(s));
    lemma_valid_name_chars(u, u.len() - 1);
    lemma_valid_name_chars(u, 0);
    canonical_is_idempotent(s);
    lemma_split_lowered(u);
    let c = canonical(s);
    assert forall|i: int| 0 <= i < split(c, '.').len() implies valid_label(
        #[trigger] split(c, '.')[i],
    ) by {
        let l = split(u, '.')[i];
        assert(valid_label(l));
        assert(split(c, '.')[i] == lowered(l));
        lemma_lower_char(l[0]);
        lemma_lower_char(l.last());
        assert forall|k: int| 0 <= k < l.len() implies label_char(#[trigger] lowered(l)[k]) by {
            lemma_lower_char(l[k]);
        }
    }
    text::lemma_undotted_shape(trimmed(s));
    lemma_lower_char(u.last());
    lemma_lower_char(u[0]);
    assert(c.last() == text::lower_char(u.last()));
    assert(c[0] == text::lower_char(u[0]));
    lemma_trimmed_fixed(c);
    assert(undotted(c) == c);
}

/// The public suffixes: the common top-level domains, those of countries, and the
/// registries below them. A name is one exactly if its canonical spelling is one
/// of these.
pub proof fn public_suffixes_are_these(s: Seq<char>)
    ensures
        ({
            let d = canonical(s);
            public_suffix(s) <==> {
                ||| d == "com"@
                ||| d == "org"@
                ||| d == "net"@
                ||| d == "edu"@
                ||| d == "gov"@
                ||| d == "mil"@
                ||| d == "int"@
                ||| d == "info"@
                ||| d == "biz"@
                ||| d == "name"@
                ||| d == "pro"@
                ||| d == "io"@
                ||| d == "co"@
                ||| d == "app"@
                ||| d == "dev"@
                ||| d == "tech"@
                ||| d == "online"@
                ||| d == "site"@
                ||| d == "store"@
                ||| d == "blog"@
                ||| d == "xyz"@
                ||| d == "us"@
                ||| d == "uk"@
                ||| d == "de"@
                ||| d == "fr"@
                ||| d == "it"@
                ||| d == "es"@
                ||| d == "nl"@
                ||| d == "pl"@
                ||| d == "ru"@
                ||| d == "cn"@
                ||| d == "jp"@
                ||| d == "kr"@
                ||| d == "in"@
                ||| d == "br"@
                ||| d == "mx"@
                ||| d == "ca"@
                ||| d == "au"@
                ||| d == "nz"@
                ||| d == "se"@
                ||| d == "no"@
                ||| d == "fi"@
                ||| d == "dk"@
                ||| d == "ch"@
                ||| d == "at"@
                ||| d == "be"@
                ||| d == "pt"@
                ||| d == "ie"@
                ||| d == "gr"@
                ||| d == "cz"@
                ||| d == "co.uk"@
                ||| d == "co.it"@
                ||| d == "com.au"@
                ||| d == "co.nz"@
                ||| d == "co.jp"@
                ||| d == "ac.uk"@
                ||| d == "gov.uk"@
                ||| d == "co.in"@
                ||| d == "com.br"@
                ||| d == "com.mx"@
                ||| d == "co.kr"@
                ||| d == "or.jp"@
                ||| d == "ne.jp"@
                ||| d == "go.jp"@
            }
        }),
{
    let d = canonical(s);
    assert(PSL@[0]@ == "com"@);
    assert(PSL@[1]@ == "org"@);
    assert(PSL@[2]@ == "net"@);
    assert(PSL@[3]@ == "edu"@);
    assert(PSL@[4]@ == "gov"@);
    assert(PSL@[5]@ == "mil"@);
    assert(PSL@[6]@ == "int"@);
    assert(PSL@[7]@ == "info"@);
    assert(PSL@[8]@ == "biz"@);
    assert(PSL@[9]@ == "name"@);
    assert(PSL@[10]@ == "pro"@);
    assert(PSL@[11]@ == "io"@);
    assert(PSL@[12]@ == "co"@);
    assert(PSL@[13]@ == "app"@);
    assert(PSL@[14]@ == "dev"@);
    assert(PSL@[15]@ == "tech"@);
    assert(PSL@[16]@ == "online"@);
    assert(PSL@[17]@ == "site"@);
    assert(PSL@[18]@ == "store"@);
    assert(PSL@[19]@ == "blog"@);
    assert(PSL@[20]@ == "xyz"@);
    assert(PSL@[21]@ == "us"@);
    assert(PSL@[22]@ == "uk"@);
    assert(PSL@[23]@ == "de"@);
    assert(PSL@[24]@ == "fr"@);
    assert(PSL@[25]@ == "it"@);
    assert(PSL@[26]@ == "es"@);
    assert(PSL@[27]@ == "nl"@);
    assert(PSL@[28]@ == "pl"@);
    assert(PSL@[29]@ == "ru"@);
    assert(PSL@[30]@ == "cn"@);
    assert(PSL@[31]@ == "jp"@);
    assert(PSL@[32]@ == "kr"@);
    assert(PSL@[33]@ == "in"@);
    assert(PSL@[34]@ == "br"@);
    assert(PSL@[35]@ == "mx"@);
    assert(PSL@[36]@ == "ca"@);
    assert(PSL@[37]@ == "au"@);
    assert(PSL@[38]@ == "nz"@);
    assert(PSL@[39]@ == "se"@);
    assert(PSL@[40]@ == "no"@);
    assert(PSL@[41]@ == "fi"@);
    assert(PSL@[42]@ == "dk"@);
    assert(PSL@[43]@ == "ch"@);
    assert(PSL@[44]@ == "at"@);
    assert(PSL@[45]@ == "be"@);
    assert(PSL@[46]@ == "pt"@);
    assert(PSL@[47]@ == "ie"@);
    assert(PSL@[48]@ == "gr"@);
    assert(PSL@[49]@ == "cz"@);
    assert(PSL@[50]@ == "co.uk"@);
    assert(PSL@[51]@ == "co.it"@);
    assert(PSL@[52]@ == "com.au"@);
    assert(PSL@[53]@ == "co.nz"@);
    assert(PSL@[54]@ == "co.jp"@);
    assert(PSL@[55]@ == "ac.uk"@);
    assert(PSL@[56]@ == "gov.uk"@);
    assert(PSL@[57]@ == "co.in"@);
    assert(PSL@[58]@ == "com.br"@);
    assert(PSL@[59]@ == "com.mx"@);
    assert(PSL@[60]@ == "co.kr"@);
    assert(PSL@[61]@ == "or.jp"@);
    assert(PSL@[62]@ == "ne.jp"@);
    assert(PSL@[63]@ == "go.jp"@);
    reveal_strlit("com");
    reveal_strlit("org");
    reveal_strlit("net");
    reveal_strlit("edu");
    reveal_strlit("gov");
    reveal_strlit("mil");
    reveal_strlit("int");
    reveal_strlit("info");
    reveal_strlit("biz");
    reveal_strlit("name");
    reveal_strlit("pro");
    reveal_strlit("io");
    reveal_strlit("co");
    reveal_strlit("app");
    reveal_strlit("dev");
    reveal_strlit("tech");
    reveal_strlit("online");
    reveal_strlit("site");
    reveal_strlit("store");
    reveal_strlit("blog");
    reveal_strlit("xyz");
    reveal_strlit("us");
    reveal_strlit("uk");
    reveal_strlit("de");
    reveal_strlit("fr");
    reveal_strlit("it");
    reveal_strlit("es");
    reveal_strlit("nl");
    reveal_strlit("pl");
    reveal_strlit("ru");
    reveal_strlit("cn");
    reveal_strlit("jp");
    reveal_strlit("kr");
    reveal_strlit("in");
    reveal_strlit("br");
    reveal_strlit("mx");
    reveal_strlit("ca");
    reveal_strlit("au");
    reveal_strlit("nz");
    reveal_strlit("se");
    reveal_strlit("no");
    reveal_strlit("fi");
    reveal_strlit("dk");
    reveal_strlit("ch");
    reveal_strlit("at");
    reveal_strlit("be");
    reveal_strlit("pt");
    reveal_strlit("ie");
    reveal_strlit("gr");
    reveal_strlit("cz");
    reveal_strlit("co.uk");
    reveal_strlit("co.it");
    reveal_strlit("com.au");
    reveal_strlit("co.nz");
    reveal_strlit("co.jp");
    reveal_strlit("ac.uk");
    reveal_strlit("gov.uk");
    reveal_strlit("co.in");
    reveal_strlit("com.br");
    reveal_strlit("com.mx");
    reveal_strlit("co.kr");
    reveal_strlit("or.jp");
    reveal_strlit("ne.jp");
    reveal_strlit("go.jp");
    if public_suffix(s) {
        let i = choose|i: int| 0 <= i < PSL@.len() && #[trigger] PSL@[i]@ == d;
        assert(0 <= i < 64);
    }
}

} // verus!
