//! Paths as octets: their components, and absolute paths by component.
use vstd::prelude::*;
use crate::record::ascii_octets;
use crate::text::to_chars;

verus! {

/// The octet between components.
pub const SLASH: u8 = 47;

/// The octet of `.`.
pub const DOT: u8 = 46;

/// The views of a list of octet strings.
pub open spec fn octet_views(list: Seq<Vec<u8>>) -> Seq<Seq<u8>> {
    list.map_values(|v: Vec<u8>| v@)
}

/// A copy of an octet string.
pub fn copy_octets(v: &Vec<u8>) -> (r: Vec<u8>)
    ensures
        r@ == v@,
{
    let r = v.clone();
    proof {
        assert(r@ =~= v@);
    }
    r
}

/// Whether two octet strings are equal.
pub fn same_octets(a: &Vec<u8>, b: &Vec<u8>) -> (r: bool)
    ensures
        r == (a@ == b@),
{
    if a.len() != b.len() {
        return false;
    }
    let mut i: usize = 0;
    while i < a.len()
        invariant
            i <= a.len(),
            a.len() == b.len(),
            forall|k: int| 0 <= k < i ==> a@[k] == b@[k],
        decreases a.len() - i,
    {
        if a[i] != b[i] {
            proof {
                assert(a@[i as int] != b@[i as int]);
            }
            return false;
        }
        i += 1;
    }
    proof {
        assert(a@ =~= b@);
    }
    true
}

/// The octets of an ASCII text.
pub fn octets_of_text(s: &str) -> (r: Vec<u8>)
    ensures
        r@ == ascii_octets(s@),
{
    let chars = to_chars(s);
    let mut out: Vec<u8> = Vec::new();
    let mut i: usize = 0;
    while i < chars.len()
        invariant
            i <= chars.len(),
            chars@ == s@,
            out@ == ascii_octets(s@).take(i as int),
        decreases chars.len() - i,
    {
        out.push(chars[i] as u8);
        i += 1;
        proof {
            assert(out@ =~= ascii_octets(s@).take(i as int));
        }
    }
    proof {
        assert(out@ =~= ascii_octets(s@));
    }
    out
}

/// `head` is where `s` begins.
pub open spec fn begins(s: Seq<u8>, head: Seq<u8>) -> bool {
    head.len() <= s.len() && s.take(head.len() as int) == head
}

/// Whether an octet string begins with a text.
pub fn begins_with(s: &Vec<u8>, head: &str) -> (r: bool)
    ensures
        r == begins(s@, ascii_octets(head@)),
{
    let h = octets_of_text(head);
    if h.len() > s.len() {
        return false;
    }
    let mut i: usize = 0;
    while i < h.len()
        invariant
            i <= h.len() <= s.len(),
            h@ == ascii_octets(head@),
            forall|k: int| 0 <= k < i ==> s@[k] == h@[k],
        decreases h.len() - i,
    {
        if s[i] != h[i] {
            proof {
                assert(s@.take(h.len() as int)[i as int] != h@[i as int]);
            }
            return false;
        }
        i += 1;
    }
    proof {
        assert(s@.take(h.len() as int) =~= h@);
    }
    true
}

// ── Components ────────────────────────────────────────────────────────

/// The pieces of a path between its slashes, empty ones too.
pub open spec fn pieces(s: Seq<u8>) -> Seq<Seq<u8>>
    decreases s.len(),
{
    if s.len() == 0 {
        seq![Seq::empty()]
    } else {
        let rest = pieces(s.drop_last());
        if s.last() == SLASH {
            rest.push(Seq::empty())
        } else {
            rest.drop_last().push(rest.last().push(s.last()))
        }
    }
}

/// The piece names something: it is neither empty nor the directory itself.
pub open spec fn names(piece: Seq<u8>) -> bool {
    piece.len() > 0 && piece != seq![DOT]
}

/// The components of a path: the pieces that name something, in order.
pub open spec fn components(s: Seq<u8>) -> Seq<Seq<u8>> {
    pieces(s).filter(|p: Seq<u8>| names(p))
}

/// The name of the file that a path leads to, if it leads to one by name.
pub open spec fn file_name(s: Seq<u8>) -> Option<Seq<u8>> {
    let parts = components(s);
    if parts.len() == 0 || parts.last() == seq![DOT, DOT] {
        None
    } else {
        Some(parts.last())
    }
}

/// Cuts a path at its slashes.
pub fn split_path(path: &Vec<u8>) -> (r: Vec<Vec<u8>>)
    ensures
        octet_views(r@) == pieces(path@),
        r.len() > 0,
{
    let mut done: Vec<Vec<u8>> = Vec::new();
    let mut current: Vec<u8> = Vec::new();
    let mut i: usize = 0;
    proof {
        assert(path@.take(0) =~= Seq::<u8>::empty());
        assert(octet_views(done@).push(current@) =~= seq![Seq::<u8>::empty()]);
    }
    while i < path.len()
        invariant
            i <= path.len(),
            octet_views(done@).push(current@) == pieces(path@.take(i as int)),
        decreases path.len() - i,
    {
        let b = path[i];
        let ghost before = octet_views(done@);
        let ghost cur = current@;
        proof {
            assert(path@.take(i + 1).drop_last() =~= path@.take(i as int));
            assert(path@.take(i + 1).last() == b);
            assert(before.push(cur).drop_last() =~= before);
            assert(before.push(cur).last() == cur);
        }
        if b == SLASH {
            done.push(current);
            current = Vec::new();
            proof {
                assert(octet_views(done@) =~= before.push(cur));
                assert(current@ =~= Seq::<u8>::empty());
            }
        } else {
            current.push(b);
        }
        i += 1;
    }
    proof {
        assert(path@.take(path.len() as int) =~= path@);
    }
    let ghost before = octet_views(done@);
    let ghost cur = current@;
    done.push(current);
    proof {
        assert(octet_views(done@) =~= before.push(cur));
    }
    done
}

fn piece_names(piece: &Vec<u8>) -> (r: bool)
    ensures
        r == names(piece@),
{
    if piece.len() == 0 {
        return false;
    }
    let only_dot = piece.len() == 1 && piece[0] == DOT;
    proof {
        assert(only_dot == (piece@ =~= seq![DOT]));
    }
    !only_dot
}

/// Whether a path leads to a file by name.
pub fn has_file_name(path: &Vec<u8>) -> (r: bool)
    ensures
        r == (file_name(path@) is Some),
{
    let parts = split_path(path);
    let ghost all = pieces(path@);
    let ghost keep = |p: Seq<u8>| names(p);
    let mut n: usize = parts.len();
    proof {
        assert(all.take(n as int) =~= all);
    }
    while n > 0
        invariant
            n <= parts.len(),
            all == octet_views(parts@),
            keep == |p: Seq<u8>| names(p),
            all == pieces(path@),
            all.take(n as int).filter(keep) == components(path@),
        decreases n,
    {
        let last = &parts[n - 1];
        proof {
            reveal(Seq::filter);
            assert(all.take(n as int).drop_last() =~= all.take(n - 1));
            assert(all.take(n as int).last() == last@);
        }
        if piece_names(last) {
            let up = last.len() == 2 && last[0] == DOT && last[1] == DOT;
            proof {
                assert(components(path@).last() == last@);
                assert(up == (last@ =~= seq![DOT, DOT]));
            }
            return !up;
        }
        n -= 1;
    }
    proof {
        reveal(Seq::filter);
        assert(components(path@).len() == 0);
    }
    false
}

/// The last piece of a path names a file: it is not empty, and neither the
/// directory itself nor the one above it.
pub open spec fn spelled_as_file(s: Seq<u8>) -> bool {
    let last = pieces(s).last();
    names(last) && last != seq![DOT, DOT]
}

/// Whether the last piece of a path names a file.
pub fn ends_in_a_name(path: &Vec<u8>) -> (r: bool)
    ensures
        r == spelled_as_file(path@),
{
    let parts = split_path(path);
    let last = &parts[parts.len() - 1];
    proof {
        assert(octet_views(parts@).last() == last@);
    }
    let up = last.len() == 2 && last[0] == DOT && last[1] == DOT;
    proof {
        assert(up == (last@ =~= seq![DOT, DOT]));
    }
    piece_names(last) && !up
}

/// The path starts at the root of the file system and asks for what is above
/// it: the first piece that names something leads upwards.
pub open spec fn climbs_above_root(s: Seq<u8>) -> bool {
    &&& s.len() > 0 && s[0] == SLASH
    &&& exists|i: int|
        0 <= i < pieces(s).len() && #[trigger] pieces(s)[i] == seq![DOT, DOT] && forall|j: int|
            0 <= j < i ==> !names(#[trigger] pieces(s)[j])
}

/// Whether a path asks for what is above the root of the file system.
pub fn asks_above_root(path: &Vec<u8>) -> (r: bool)
    ensures
        r == climbs_above_root(path@),
{
    if path.len() == 0 || path[0] != SLASH {
        return false;
    }
    let parts = split_path(path);
    let ghost all = pieces(path@);
    let mut i: usize = 0;
    while i < parts.len()
        invariant
            i <= parts.len(),
            path@.len() > 0,
            path@[0] == SLASH,
            all == octet_views(parts@),
            all == pieces(path@),
            forall|j: int| 0 <= j < i ==> !names(#[trigger] all[j]),
        decreases parts.len() - i,
    {
        let part = &parts[i];
        proof {
            assert(all[i as int] == part@);
        }
        if piece_names(part) {
            let up = part.len() == 2 && part[0] == DOT && part[1] == DOT;
            proof {
                assert(up == (part@ =~= seq![DOT, DOT]));
                if climbs_above_root(path@) {
                    let k = choose|k: int|
                        0 <= k < all.len() && #[trigger] all[k] == seq![DOT, DOT] && forall|j: int|
                            0 <= j < k ==> !names(#[trigger] all[j]);
                    assert(names(all[k]));
                    assert(k == i);
                }
            }
            return up;
        }
        i += 1;
    }
    proof {
        assert forall|k: int| 0 <= k < all.len() implies #[trigger] all[k] != seq![DOT, DOT] by {
            assert(!names(all[k]));
        }
    }
    false
}

// ── Absolute paths ────────────────────────────────────────────────────

/// A canonical absolute path, by its components. The root has none.
#[derive(Debug)]
pub struct TreePath {
    pub parts: Vec<Vec<u8>>,
}

impl View for TreePath {
    type V = Seq<Seq<u8>>;

    open spec fn view(&self) -> Seq<Seq<u8>> {
        octet_views(self.parts@)
    }
}

/// The spelling of an absolute path.
pub open spec fn spelled(parts: Seq<Seq<u8>>) -> Seq<u8>
    decreases parts.len(),
{
    if parts.len() == 0 {
        seq![SLASH]
    } else if parts.len() == 1 {
        seq![SLASH] + parts[0]
    } else {
        spelled(parts.drop_last()) + seq![SLASH] + parts.last()
    }
}

impl TreePath {
    /// A copy of the path.
    pub fn copy(&self) -> (r: TreePath)
        ensures
            r@ == self@,
    {
        self.first(self.parts.len())
    }

    /// The path of the first `n` components.
    pub fn first(&self, n: usize) -> (r: TreePath)
        requires
            n <= self@.len(),
        ensures
            r@ == self@.take(n as int),
    {
        let mut parts: Vec<Vec<u8>> = Vec::new();
        let mut i: usize = 0;
        proof {
            assert(octet_views(parts@) =~= self@.take(0));
        }
        while i < n
            invariant
                i <= n <= self.parts.len(),
                octet_views(parts@) == self@.take(i as int),
            decreases n - i,
        {
            let part = copy_octets(&self.parts[i]);
            let ghost before = octet_views(parts@);
            let ghost new = part@;
            parts.push(part);
            proof {
                assert(octet_views(parts@) =~= before.push(new));
                assert(self@.take(i + 1) =~= self@.take(i as int).push(new));
            }
            i += 1;
        }
        TreePath { parts }
    }

    /// The path with one more component.
    pub fn join(&self, name: &str) -> (r: TreePath)
        ensures
            r@ == self@.push(ascii_octets(name@)),
    {
        let mut out = self.copy();
        let ghost before = out@;
        let part = octets_of_text(name);
        let ghost new = part@;
        out.parts.push(part);
        proof {
            assert(out@ =~= before.push(new));
        }
        out
    }

    /// Whether two paths are the same.
    pub fn same(&self, other: &TreePath) -> (r: bool)
        ensures
            r == (self@ == other@),
    {
        if self.parts.len() != other.parts.len() {
            proof {
                assert(self@.len() != other@.len());
            }
            return false;
        }
        let mut i: usize = 0;
        while i < self.parts.len()
            invariant
                i <= self.parts.len(),
                self.parts.len() == other.parts.len(),
                forall|k: int| 0 <= k < i ==> self@[k] == other@[k],
            decreases self.parts.len() - i,
        {
            if !same_octets(&self.parts[i], &other.parts[i]) {
                proof {
                    assert(self@[i as int] != other@[i as int]);
                }
                return false;
            }
            i += 1;
        }
        proof {
            assert(self@ =~= other@);
        }
        true
    }

    /// The spelling of the path.
    pub fn to_octets(&self) -> (r: Vec<u8>)
        ensures
            r@ == spelled(self@),
    {
        let mut out: Vec<u8> = Vec::new();
        out.push(SLASH);
        let n = self.parts.len();
        let mut i: usize = 0;
        proof {
            assert(self@.take(0) =~= Seq::<Seq<u8>>::empty());
            assert(out@ =~= spelled(self@.take(0)));
        }
        while i < n
            invariant
                i <= n,
                n == self.parts.len(),
                out@ == spelled(self@.take(i as int)),
            decreases n - i,
        {
            let part = copy_octets(&self.parts[i]);
            let ghost so_far = out@;
            let ghost new = part@;
            let mut tail = part;
            if i > 0 {
                out.push(SLASH);
            }
            out.append(&mut tail);
            proof {
                assert(self@.take(i + 1).drop_last() =~= self@.take(i as int));
                assert(self@.take(i + 1).last() == new);
                if i > 0 {
                    assert(out@ =~= so_far + seq![SLASH] + new);
                } else {
                    assert(self@.take(i + 1)[0] == new);
                    assert(out@ =~= seq![SLASH] + new);
                }
            }
            i += 1;
        }
        proof {
            assert(self@.take(n as int) =~= self@);
        }
        out
    }
}

} // verus!
