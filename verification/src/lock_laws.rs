//! What the locks of a configuration tree come to, told by the facts that they
//! are decided on.
use vstd::prelude::*;
use crate::record::ascii_octets;
use crate::tree_path::{
    begins, climbs_above_root, components, file_name, names, pieces, spelled, spelled_as_file,
};
use crate::write_lock::{
    access_check, alias_of, anchor_check, anchored, capture_check, directory_created, error_text,
    guard_check, identity_check, in_reserved_namespace, known_spelling, lock_check, lock_move,
    lock_step, opens, owner_admitted, owner_check, owner_found, owner_of, recapture_step,
    reopen_check, reserved, resolved_identity, root_check, safe_lock, same_master, side_lock_check,
    spelling_check, traversal_check, wait_left, Attempt, FileFacts, GuardV, IdentityV, LockError,
    LockMove, LockPhase, LockStep, OpenStep, Probe, Recapture, SideLockFacts,
};
use crate::writer::{listed, refusal_text};

verus! {

// ── Files ─────────────────────────────────────────────────────────────

/// A file is fit to be a lock exactly if it is a regular file under one name,
/// owned by the expected user and group, that its owner may read and write, and
/// that grants nothing else to anybody.
pub proof fn locks_are_private_files(f: FileFacts, uid: u32, gid: u32)
    ensures
        safe_lock(f, uid, gid) <==> f.regular && f.links == 1 && f.uid == uid && f.gid == gid
            && f.mode & 0x100 == 0x100 && f.mode & 0x80 == 0x80 && f.mode & 0xe7f == 0,
        lock_check(f, f) is Ok <==> safe_lock(f, f.uid, f.gid),
{
    let m = f.mode;
    assert((m & 0xfff == 0x180) == (m & 0x100 == 0x100 && m & 0x80 == 0x80 && m & 0xe7f == 0))
        by (bit_vector);
}

/// A side lock is accepted exactly if it is a private file of the owner that is
/// expected, and the refusal names that owner.
pub proof fn side_locks_belong_to_the_owner(f: FileFacts, owner: FileFacts)
    ensures
        lock_check(f, owner) is Ok <==> safe_lock(f, owner.uid, owner.gid),
        lock_check(f, owner) matches Err(e) ==> e == LockError::UnsafeLock(owner.uid, owner.gid),
{
}

/// Two masters are the same exactly if both are absent, or both are there with
/// one device and one inode; nothing else about them counts.
pub proof fn masters_are_told_by_their_inode(a: Option<FileFacts>, b: Option<FileFacts>)
    ensures
        a is None && b is None ==> same_master(a, b),
        a is Some != b is Some ==> !same_master(a, b),
        a is Some && b is Some ==> (same_master(a, b) <==> a->0.device == b->0.device && a->0.inode
            == b->0.inode),
        same_master(a, b) <==> same_master(b, a),
        capture_check(a, b) is Ok <==> same_master(a, b),
        capture_check(a, b) matches Err(e) ==> e == LockError::MasterReplaced,
{
}

/// A file may be opened for its contents exactly if it is a regular file or a
/// directory, and what was opened has to be what was inspected.
pub proof fn only_plain_files_are_reopened(seen: FileFacts, reopened: FileFacts)
    ensures
        access_check(seen) is Ok <==> seen.regular || seen.directory,
        access_check(seen) matches Err(e) ==> e == LockError::DataAccess,
        reopen_check(seen, reopened) is Ok <==> (seen.regular || seen.directory) && seen.device
            == reopened.device && seen.inode == reopened.inode,
        reopen_check(seen, reopened) == Err::<(), LockError>(LockError::DataAccess)
            <==> !seen.regular && !seen.directory,
        reopen_check(seen, reopened) matches Err(e) ==> e == LockError::DataAccess || e
            == LockError::ReopenChanged,
{
}

/// Only a master that is there under another spelling than the one that was
/// asked for stops an acquisition: a missing one need not be reachable.
pub proof fn spellings_have_to_reach_the_master(master_found: bool, spelling_found: bool)
    ensures
        traversal_check(master_found, spelling_found) is Err <==> master_found && !spelling_found,
        traversal_check(false, spelling_found) is Ok,
        traversal_check(master_found, true) is Ok,
{
}

/// The side lock takes the owner of the master, and that of the root where there
/// is no master. A master that is no regular file, or that cannot be looked at,
/// has no owner to take.
pub proof fn owners_come_from_the_master(master: Option<FileFacts>, root: FileFacts, probe: Probe)
    ensures
        master matches Some(f) ==> owner_of(master, root) == f,
        master is None ==> owner_of(master, root) == root,
        probe matches Probe::Found(f) ==> (owner_found(probe, root) is Ok <==> f.regular) && (
        f.regular ==> owner_found(probe, root)->Ok_0 == f) && (!f.regular ==> owner_found(
            probe,
            root,
        )->Err_0 == LockError::OwnerNotRegular),
        probe is Missing ==> owner_found(probe, root) == Ok::<FileFacts, LockError>(root),
        probe is Failed ==> owner_found(probe, root) == Err::<FileFacts, LockError>(
            LockError::OwnerUnreadable,
        ),
{
}

// ── Names and paths ───────────────────────────────────────────────────

/// The names that a tree keeps for itself: the side lock and the migration
/// directory by their whole names, staged writes and the remains of migrations by
/// the beginning of theirs.
pub proof fn trees_keep_five_kinds_of_names(name: Seq<u8>)
    ensures
        reserved(name) <==> name == ascii_octets(".warden-config.lock"@) || name == ascii_octets(
            ".warden-migration"@,
        ) || begins(name, ascii_octets(".warden-write-"@)) || begins(
            name,
            ascii_octets(".warden-migration.cleanup-"@),
        ) || begins(name, ascii_octets(".warden-migration.finalized-"@)),
{
}

/// A text begins with another exactly if it is that text followed by something.
pub proof fn beginnings_are_followed_by_the_rest(s: Seq<u8>, head: Seq<u8>)
    ensures
        begins(s, head) <==> exists|rest: Seq<u8>| s == #[trigger] (head + rest),
{
    if begins(s, head) {
        assert(s =~= head + s.skip(head.len() as int));
    }
    if exists|rest: Seq<u8>| s == #[trigger] (head + rest) {
        let rest = choose|rest: Seq<u8>| s == #[trigger] (head + rest);
        assert(s.take(head.len() as int) =~= head);
    }
}

/// A path leads through the reserved namespace exactly if one of its components
/// is reserved, wherever it stands.
pub proof fn one_reserved_component_is_enough(a: Seq<Seq<u8>>, name: Seq<u8>, b: Seq<Seq<u8>>)
    ensures
        in_reserved_namespace(a.push(name) + b) <==> in_reserved_namespace(a) || reserved(name)
            || in_reserved_namespace(b),
        !in_reserved_namespace(Seq::<Seq<u8>>::empty()),
{
    let all = a.push(name) + b;
    if in_reserved_namespace(all) {
        let i = choose|i: int| 0 <= i < all.len() && reserved(#[trigger] all[i]);
        if i < a.len() {
            assert(reserved(a[i]));
        } else if i > a.len() {
            assert(reserved(b[i - a.len() - 1]));
        }
    }
    if in_reserved_namespace(a) {
        let i = choose|i: int| 0 <= i < a.len() && reserved(#[trigger] a[i]);
        assert(reserved(all[i]));
    }
    if reserved(name) {
        assert(reserved(all[a.len() as int]));
    }
    if in_reserved_namespace(b) {
        let i = choose|i: int| 0 <= i < b.len() && reserved(#[trigger] b[i]);
        assert(reserved(all[a.len() + 1 + i]));
    }
}

/// The pieces with a slash between them.
pub open spec fn slashed(parts: Seq<Seq<u8>>) -> Seq<u8>
    decreases parts.len(),
{
    if parts.len() == 0 {
        Seq::empty()
    } else if parts.len() == 1 {
        parts[0]
    } else {
        slashed(parts.drop_last()).push(47u8) + parts.last()
    }
}

/// Taking a path apart loses nothing: its pieces, with a slash between them, are
/// the path, and no piece holds a slash.
pub proof fn pieces_make_up_the_path(s: Seq<u8>)
    ensures
        pieces(s).len() >= 1,
        slashed(pieces(s)) == s,
        forall|i: int, k: int|
            0 <= i < pieces(s).len() && 0 <= k < pieces(s)[i].len() ==> #[trigger] pieces(s)[i][k]
                != 47,
    decreases s.len(),
{
    let sep = 47u8;
    if s.len() == 0 {
        assert(s =~= Seq::<u8>::empty());
    } else {
        let t = s.drop_last();
        pieces_make_up_the_path(t);
        let init = pieces(t);
        let all = pieces(s);
        if s.last() == sep {
            assert(all.drop_last() =~= init);
            assert(slashed(all) =~= t.push(sep) + Seq::<u8>::empty());
            assert(t.push(sep) + Seq::<u8>::empty() =~= s);
        } else {
            assert(all.drop_last() =~= init.drop_last());
            if init.len() == 1 {
                assert(slashed(init) == init[0]);
                assert(slashed(all) == init[0].push(s.last()));
            } else {
                assert(slashed(all) =~= slashed(init).push(s.last()));
            }
            assert(t.push(s.last()) =~= s);
        }
        assert forall|i: int, k: int| 0 <= i < all.len() && 0 <= k < all[i].len() implies
            #[trigger] all[i][k] != sep by {
            if i < init.len() - 1 || (s.last() == sep && i < init.len()) {
                assert(all[i] == init[i]);
                assert(init[i][k] != sep);
            } else if s.last() != sep {
                if k < init.last().len() {
                    assert(init[i][k] == all[i][k]);
                }
            }
        }
    }
}

/// A piece names something exactly if it is neither empty nor a single dot; the
/// components of a path are those of its pieces, and all of those, in order.
pub proof fn components_are_the_pieces_that_name(s: Seq<u8>, p: Seq<u8>)
    ensures
        names(p) <==> p.len() > 1 || (p.len() == 1 && p[0] != 46),
        components(s).contains(p) <==> pieces(s).contains(p) && names(p),
        components(s) == pieces(s).filter(|q: Seq<u8>| q.len() > 1 || (q.len() == 1 && q[0] != 46)),
{
    if p.len() == 1 && p[0] == 46 {
        assert(p =~= seq![46u8]);
    }
    let keep = |q: Seq<u8>| names(q);
    let plain = |q: Seq<u8>| q.len() > 1 || (q.len() == 1 && q[0] != 46);
    assert forall|q: Seq<u8>| #[trigger] keep(q) == plain(q) by {
        if q.len() == 1 && q[0] == 46 {
            assert(q =~= seq![46u8]);
        }
    }
    assert(keep =~= plain);
    let all = pieces(s);
    let kept = all.filter(keep);
    if kept.contains(p) {
        all.lemma_filter_contains_rev(keep, p);
        let i = choose|i: int| 0 <= i < kept.len() && kept[i] == p;
        all.lemma_filter_pred(keep, i);
    }
    if all.contains(p) && names(p) {
        let i = choose|i: int| 0 <= i < all.len() && all[i] == p;
        all.lemma_filter_contains(keep, i);
    }
}

/// A path leads to a file by name exactly if its last component is there and does
/// not lead upwards, and that component is the name.
pub proof fn file_names_are_last_components(s: Seq<u8>)
    ensures
        file_name(s) is None <==> components(s).len() == 0 || components(s).last() == seq![
            46u8,
            46,
        ],
        file_name(s) matches Some(n) ==> n == components(s).last(),
        spelling_check(s) is Ok <==> s.len() > 0 && components(s).len() > 0 && components(s).last()
            != seq![46u8, 46],
        spelling_check(s) matches Err(e) ==> e == LockError::NamesNoFile,
        spelled_as_file(s) <==> pieces(s).last().len() > 0 && pieces(s).last() != seq![46u8]
            && pieces(s).last() != seq![46u8, 46],
{
}

/// A path climbs above the root exactly if it begins with a slash and its first
/// component leads upwards.
pub proof fn climbing_paths_begin_upwards(s: Seq<u8>)
    ensures
        climbs_above_root(s) <==> s.len() > 0 && s[0] == 47 && components(s).len() > 0
            && components(s)[0] == seq![46u8, 46],
{
    let all = pieces(s);
    lemma_first_component(all);
    if climbs_above_root(s) {
        let i = choose|i: int|
            0 <= i < all.len() && #[trigger] all[i] == seq![46u8, 46] && forall|j: int|
                0 <= j < i ==> !names(#[trigger] all[j]);
        assert(names(all[i])) by {
            assert(all[i].len() == 2);
        }
        lemma_first_component_at(all, i);
    }
    if components(s).len() > 0 && components(s)[0] == seq![46u8, 46] && s.len() > 0 && s[0] == 47 {
        let i = choose|i: int|
            0 <= i < all.len() && #[trigger] all[i] == components(s)[0] && forall|j: int|
                0 <= j < i ==> !names(#[trigger] all[j]);
        assert(all[i] == seq![46u8, 46]);
    }
}

proof fn lemma_first_component(all: Seq<Seq<u8>>)
    ensures
        all.filter(|p: Seq<u8>| names(p)).len() > 0 ==> exists|i: int|
            0 <= i < all.len() && #[trigger] all[i] == all.filter(|p: Seq<u8>| names(p))[0]
                && forall|j: int| 0 <= j < i ==> !names(#[trigger] all[j]),
        all.filter(|p: Seq<u8>| names(p)).len() == 0 ==> forall|j: int|
            0 <= j < all.len() ==> !names(#[trigger] all[j]),
    decreases all.len(),
{
    reveal(Seq::filter);
    let keep = |p: Seq<u8>| names(p);
    let kept = all.filter(keep);
    if all.len() > 0 {
        let init = all.drop_last();
        lemma_first_component(init);
        if init.filter(keep).len() > 0 {
            assert(kept[0] == init.filter(keep)[0]);
            let i = choose|i: int|
                0 <= i < init.len() && #[trigger] init[i] == init.filter(keep)[0] && forall|j: int|
                    0 <= j < i ==> !names(#[trigger] init[j]);
            assert(all[i] == kept[0]);
            assert forall|j: int| 0 <= j < i implies !names(#[trigger] all[j]) by {
                assert(init[j] == all[j]);
            }
        } else {
            assert forall|j: int| 0 <= j < all.len() - 1 implies !names(#[trigger] all[j]) by {
                assert(init[j] == all[j]);
            }
            let n = all.len() - 1;
            assert(all[n] == all.last());
        }
    }
}

proof fn lemma_first_component_at(all: Seq<Seq<u8>>, i: int)
    requires
        0 <= i < all.len(),
        names(all[i]),
        forall|j: int| 0 <= j < i ==> !names(#[trigger] all[j]),
    ensures
        all.filter(|p: Seq<u8>| names(p)).len() > 0,
        all.filter(|p: Seq<u8>| names(p))[0] == all[i],
{
    lemma_first_component(all);
    let keep = |p: Seq<u8>| names(p);
    if all.filter(keep).len() > 0 {
        let k = choose|k: int|
            0 <= k < all.len() && #[trigger] all[k] == all.filter(keep)[0] && forall|j: int|
                0 <= j < k ==> !names(#[trigger] all[j]);
        all.lemma_filter_pred(keep, 0);
        assert(names(all[k]));
        assert(k == i);
    }
}

/// An absolute path is spelled by a slash in front of each of its components; the
/// root is a slash alone.
pub proof fn paths_are_spelled_with_slashes(parts: Seq<Seq<u8>>, name: Seq<u8>)
    ensures
        spelled(Seq::<Seq<u8>>::empty()) == seq![47u8],
        spelled(seq![name]) == seq![47u8] + name,
        parts.len() > 0 ==> spelled(parts.push(name)) == spelled(parts) + seq![47u8] + name,
{
    assert(parts.push(name).drop_last() =~= parts);
}

// ── Identity ──────────────────────────────────────────────────────────

/// What pins a root is the first thing that is found from the root upwards: a
/// directory pins it, anything else and a failed look do not.
pub proof fn roots_are_pinned_by_the_first_thing_found(
    root: Seq<Seq<u8>>,
    probes: Seq<Probe>,
    k: int,
)
    requires
        0 <= k <= root.len(),
        k < probes.len(),
        forall|j: int| 0 <= j < k ==> #[trigger] probes[j] is Missing,
    ensures
        probes[k] matches Probe::Found(f) ==> (f.directory ==> anchored(root, probes, 0) == Ok::<
            (Seq<Seq<u8>>, (u64, u64)),
            LockError,
        >((root.take(root.len() - k), (f.device, f.inode)))) && (!f.directory ==> anchored(
            root,
            probes,
            0,
        ) == Err::<(Seq<Seq<u8>>, (u64, u64)), LockError>(LockError::AncestorNotDirectory)),
        probes[k] is Failed ==> anchored(root, probes, 0) == Err::<
            (Seq<Seq<u8>>, (u64, u64)),
            LockError,
        >(LockError::Unreadable),
        probes[k] is Missing && k == root.len() ==> anchored(root, probes, 0) == Err::<
            (Seq<Seq<u8>>, (u64, u64)),
            LockError,
        >(LockError::NoAncestor),
{
    lemma_pinned_from(root, probes, 0, k);
}

proof fn lemma_pinned_from(root: Seq<Seq<u8>>, probes: Seq<Probe>, i: int, k: int)
    requires
        0 <= i <= k <= root.len(),
        k < probes.len(),
        forall|j: int| i <= j < k ==> #[trigger] probes[j] is Missing,
    ensures
        anchored(root, probes, i) == anchored(root, probes, k),
    decreases k - i,
{
    if i < k {
        assert(probes[i] is Missing);
        lemma_pinned_from(root, probes, i + 1, k);
    }
}

/// When a path resolves, and why it does not: it has to name a file, stay below
/// the root of the file system, keep clear of reserved names both as it is spelled
/// and where it leads, lead to a regular file or to nothing, and lie in a
/// directory that something pins. The first of these that fails is the reason.
pub proof fn paths_resolve_unless_something_fails(
    requested: Seq<u8>,
    canonical: Seq<Seq<u8>>,
    master: Option<FileFacts>,
    probes: Seq<Probe>,
)
    ensures
        ({
            let r = resolved_identity(requested, canonical, master, probes);
            let file = requested.len() > 0 && file_name(requested) is Some && spelled_as_file(
                requested,
            );
            let climbs = climbs_above_root(requested);
            let kept = in_reserved_namespace(canonical) || in_reserved_namespace(
                pieces(requested),
            );
            let odd = master matches Some(f) && !f.regular;
            &&& !file <==> r == Err::<IdentityV, LockError>(LockError::NamesNoFile)
            &&& file && climbs <==> r == Err::<IdentityV, LockError>(LockError::AboveRoot)
            &&& file && !climbs && kept <==> r == Err::<IdentityV, LockError>(LockError::Reserved)
            &&& file && !climbs && !kept && odd <==> r == Err::<IdentityV, LockError>(
                LockError::NonRegularMaster,
            )
            &&& file && !climbs && !kept && !odd && canonical.len() == 0 <==> r == Err::<
                IdentityV,
                LockError,
            >(LockError::NoParent)
            &&& r is Ok <==> file && !climbs && !kept && !odd && canonical.len() > 0 && anchored(
                canonical.drop_last(),
                probes,
                0,
            ) is Ok
        }),
{
    lemma_anchor_errors(canonical.drop_last(), probes, 0);
}

proof fn lemma_anchor_errors(root: Seq<Seq<u8>>, probes: Seq<Probe>, i: int)
    ensures
        anchored(root, probes, i) matches Err(e) ==> e == LockError::NoAncestor || e
            == LockError::Unreadable || e == LockError::AncestorNotDirectory,
    decreases root.len() - i,
{
    if 0 <= i < root.len() && i < probes.len() && probes[i] is Missing {
        lemma_anchor_errors(root, probes, i + 1);
    }
}

/// The side lock and the migration directory of a tree stand in its root, under
/// their own names.
pub proof fn trees_have_their_lock_in_the_root(
    requested: Seq<u8>,
    canonical: Seq<Seq<u8>>,
    master: Option<FileFacts>,
    probes: Seq<Probe>,
)
    requires
        resolved_identity(requested, canonical, master, probes) is Ok,
    ensures
        ({
            let id = resolved_identity(requested, canonical, master, probes)->Ok_0;
            &&& id.canonical_master == canonical
            &&& id.root.push(canonical.last()) == canonical
            &&& id.lock_path == id.root.push(ascii_octets(".warden-config.lock"@))
            &&& id.txn_dir == id.root.push(ascii_octets(".warden-migration"@))
        }),
{
    assert(canonical.drop_last().push(canonical.last()) =~= canonical);
}

/// A path belongs to a lock exactly if it is spelled as the path that was asked
/// for or as the master itself, or resolves to the very tree that is locked.
pub proof fn guards_know_their_own_tree(
    g: GuardV,
    absolute: Seq<u8>,
    master: Seq<u8>,
    resolved: IdentityV,
)
    ensures
        guard_check(g, absolute, master, resolved) is Ok <==> absolute == g.requested || master
            == spelled(g.identity.canonical_master) || resolved == g.identity,
        guard_check(g, absolute, master, resolved) matches Err(e) ==> e == LockError::ForeignGuard,
        known_spelling(g, g.requested, master),
        identity_check(g.identity, resolved) is Ok <==> resolved == g.identity,
        identity_check(g.identity, resolved) matches Err(e) ==> e == LockError::ForeignGuard,
{
}

/// On the way down to the root, only the directory that pins the tree is held to
/// its inode; an opened root has to be the directory that the path leads to, of
/// the tree that it led to at first.
pub proof fn opened_roots_are_the_ones_asked_for(
    first: IdentityV,
    again: IdentityV,
    path: Seq<Seq<u8>>,
    found: (u64, u64),
)
    ensures
        anchor_check(first, path, found) is Err <==> path == first.anchor && found
            != first.anchor_inode,
        anchor_check(first, path, found) matches Err(e) ==> e == LockError::RootChanged,
        root_check(first, again, found) is Ok <==> first.root == again.root
            && first.canonical_master == again.canonical_master && again.anchor == again.root
            && found == again.anchor_inode,
        root_check(first, again, found) == Err::<(), LockError>(LockError::IdentityChanged)
            <==> first.root != again.root || first.canonical_master != again.canonical_master,
        root_check(first, again, found) matches Err(e) ==> e == LockError::IdentityChanged || e
            == LockError::RootReplaced,
{
}

// ── Waiting ───────────────────────────────────────────────────────────

/// What follows an attempt: a lock that was taken is held, a signal means another
/// attempt at once, a failure ends the wait, and a lock that another holds is
/// asked for again after the poll or after what is left of the wait, whichever is
/// shorter. The last attempt is made when the wait is just over.
pub proof fn attempts_are_repeated_until_the_deadline(
    attempt: Attempt,
    elapsed: u128,
    wait: u128,
)
    ensures
        attempt is Taken <==> lock_step(attempt, elapsed, wait) is Done,
        attempt is Interrupted <==> lock_step(attempt, elapsed, wait) is Again,
        attempt is Failed <==> lock_step(attempt, elapsed, wait) is Fail,
        attempt is Held && elapsed > wait <==> lock_step(attempt, elapsed, wait) is TimedOut,
        attempt is Held && elapsed <= wait ==> (lock_step(attempt, elapsed, wait) matches
            LockStep::Sleep(n) && n == if wait - elapsed < 10_000_000 {
            wait - elapsed
        } else {
            10_000_000
        }),
        wait_left(wait, elapsed) >= 0,
        elapsed <= wait ==> wait_left(wait, elapsed) + elapsed == wait,
        elapsed >= wait ==> wait_left(wait, elapsed) == 0,
{
}

/// A reader holds the tree once it has the root; a writer goes on to the side
/// lock, and holds the tree once it has that. All else is as for a single lock.
pub proof fn readers_take_one_lock_and_writers_two(
    phase: LockPhase,
    exclusive: bool,
    attempt: Attempt,
    elapsed: u128,
    wait: u128,
)
    ensures
        ({
            let m = lock_move(phase, exclusive, attempt, elapsed, wait);
            &&& m is Hold <==> attempt is Taken && (phase is Side || !exclusive)
            &&& m is OpenSide <==> attempt is Taken && phase is Root && exclusive
            &&& m is Again <==> attempt is Interrupted
            &&& m is Fail <==> attempt is Failed
            &&& m is TimedOut <==> attempt is Held && elapsed > wait
            &&& m matches LockMove::Sleep(n) ==> lock_step(attempt, elapsed, wait)
                == LockStep::Sleep(n)
        }),
{
}

// ── Guards ────────────────────────────────────────────────────────────

/// When a writer's lock is taken, and why it is not: the side lock has to be a
/// private file of the owner of the tree as it was opened and as it stands under
/// its name, and be the same file both times; and the master has to be the one
/// that was captured, once the side lock is held and at the end. The first of
/// these that fails is the reason.
pub proof fn write_locks_are_taken_on_five_checks(f: SideLockFacts)
    ensures
        ({
            let r = side_lock_check(f);
            let owner = if f.captured is Some {
                f.captured->0
            } else {
                f.root
            };
            let opened = safe_lock(f.opened, owner.uid, owner.gid);
            let unchanged = same_master(f.captured, f.verified);
            let current = safe_lock(f.current, owner.uid, owner.gid);
            let one = f.opened.device == f.current.device && f.opened.inode == f.current.inode;
            let kept = same_master(f.verified, f.recaptured);
            &&& r is Ok <==> opened && unchanged && current && one && kept
            &&& r is Ok ==> r->Ok_0 == (owner.uid, owner.gid)
            &&& r == Err::<(u32, u32), LockError>(LockError::UnsafeLock(owner.uid, owner.gid))
                <==> !opened || (unchanged && !current)
            &&& r == Err::<(u32, u32), LockError>(LockError::MasterChanged) <==> opened
                && !unchanged
            &&& r == Err::<(u32, u32), LockError>(LockError::LockInodeChanged) <==> opened
                && unchanged && current && !one
            &&& r == Err::<(u32, u32), LockError>(LockError::MasterReplaced) <==> opened
                && unchanged && current && one && !kept
        }),
{
}

/// When what an editor left behind is taken in, and how: the side lock has to be
/// fit still, and there has to be a regular file under one name. Its owner is
/// corrected exactly where it is another one and the right to do so is there.
pub proof fn editors_may_change_the_owner(
    owner: (u32, u32),
    side: FileFacts,
    leaf: Option<FileFacts>,
    privileged: bool,
)
    ensures
        ({
            let r = recapture_step(owner, side, leaf, privileged);
            let fit = safe_lock(side, owner.0, owner.1);
            let plain = leaf matches Some(f) && f.regular && f.links == 1;
            let owned = leaf matches Some(f) && f.uid == owner.0 && f.gid == owner.1;
            &&& r is Ok <==> fit && plain
            &&& !fit <==> r == Err::<Recapture, LockError>(LockError::SideLockChanged)
            &&& fit && leaf is None <==> r == Err::<Recapture, LockError>(LockError::EditorRemoved)
            &&& fit && leaf is Some && !plain <==> r == Err::<Recapture, LockError>(
                LockError::EditorReplacement,
            )
            &&& fit && plain && !owned && privileged <==> r == Ok::<Recapture, LockError>(
                Recapture::Chown(owner.0, owner.1),
            )
            &&& fit && plain && (owned || !privileged) <==> r == Ok::<Recapture, LockError>(
                Recapture::Keep,
            )
        }),
{
}

/// In the end the file has the owner of the side lock, both user and group, or is
/// refused; and the side lock vouches for its owner only as long as it is fit.
pub proof fn masters_end_with_the_owner_of_the_lock(owner: (u32, u32), f: FileFacts)
    ensures
        owner_check(owner, f) is Ok <==> f.uid == owner.0 && f.gid == owner.1,
        owner_check(owner, f) matches Err(e) ==> e == LockError::EditorOwner(owner.0, owner.1),
        owner_admitted(owner, f) is Ok <==> safe_lock(f, owner.0, owner.1),
        owner_admitted(owner, f) matches Ok(o) ==> o == owner,
        owner_admitted(owner, f) matches Err(e) ==> e == LockError::SideLockChanged,
{
}

// ── Texts ─────────────────────────────────────────────────────────────

/// The errors that are about a path end in it, those that are about an owner name
/// the user before the group, and the others say one thing whatever the path.
pub proof fn errors_name_what_they_are_about(path: Seq<char>, other: Seq<char>, uid: u32, gid: u32)
    ensures
        error_text(LockError::NamesNoFile, path, other) == "master config path must name a file: "@
            + path,
        error_text(LockError::AboveRoot, path, other)
            == "config path leads above the filesystem root: "@ + path,
        error_text(LockError::Reserved, path, other)
            == "reserved config namespace cannot contain a master: "@ + path,
        error_text(LockError::NonRegularMaster, path, other)
            == "config path is not a regular file: "@ + path,
        error_text(LockError::AncestorNotDirectory, path, other)
            == "config root ancestor is not a directory: "@ + path,
        error_text(LockError::RootChanged, path, other)
            == "config root changed while acquiring its lock: "@ + path,
        error_text(LockError::SideLockChanged, path, other)
            == "config side lock changed after admission: "@ + path,
        error_text(LockError::EditorReplacement, path, other)
            == "editor replacement must be a regular single-link canonical master: "@ + path,
        error_text(LockError::ForeignGuard, path, other) == "config guard belongs to "@ + path
            + ", not "@ + other,
        error_text(LockError::TimedOut, path, other)
            == "another warden process holds the config tree lock (waited "@ + other + ")"@,
        error_text(LockError::Unreadable, path, other) == other,
        error_text(LockError::EditorOwner(uid, gid), path, other)
            == "editor replacement owner does not match admitted config lock owner "@
            + crate::text::decimal(uid as nat) + ":"@ + crate::text::decimal(gid as nat) + ": "@
            + path,
        error_text(LockError::UnsafeLock(uid, gid), path, other)
            == "unsafe config lock (expected regular, single-link, mode 0600, owner "@
            + crate::text::decimal(uid as nat) + ":"@ + crate::text::decimal(gid as nat) + "): "@
            + path + crate::write_lock::REMEDY@,
        error_text(LockError::NoParent, path, other) == "master config path has no parent"@,
        error_text(LockError::NoAncestor, path, other) == "config root has no existing ancestor"@,
        error_text(LockError::IdentityChanged, path, other)
            == "config identity changed while creating its root"@,
        error_text(LockError::RootReplaced, path, other)
            == "config root changed while opening its lock"@,
        error_text(LockError::MasterReplaced, path, other)
            == "canonical master changed between identity verification and capture"@,
        error_text(LockError::MasterChanged, path, other)
            == "canonical master changed while acquiring the side lock"@,
        error_text(LockError::LockInodeChanged, path, other)
            == "config lock inode changed during acquisition"@,
        error_text(LockError::EditorRemoved, path, other) == "editor removed the canonical master"@,
        error_text(LockError::Untraversable, path, other)
            == "requested master spelling cannot be traversed"@,
        error_text(LockError::DataAccess, path, other)
            == "refusing data access to a non-regular, non-directory inode"@,
        error_text(LockError::ReopenChanged, path, other)
            == "inspected inode changed during reopen"@,
        error_text(LockError::OwnerNotRegular, path, other)
            == "master config must be a regular file"@,
        error_text(LockError::OwnerUnreadable, path, other)
            == "inspect canonical master ownership"@,
{
}

/// A refusal lists all that a validation found, in order, with a semicolon and a
/// blank between any two.
pub proof fn refusals_list_all_that_was_found(errors: Seq<Seq<char>>, next: Seq<char>)
    ensures
        refusal_text(Seq::<Seq<char>>::empty()) == "validation failed: "@,
        refusal_text(seq![next]) == "validation failed: "@ + next,
        errors.len() > 0 ==> refusal_text(errors.push(next)) == refusal_text(errors) + seq![';', ' ']
            + next,
        errors.len() > 0 ==> listed(errors.push(next)).len() == listed(errors).len() + 2
            + next.len(),
{
    reveal_strlit("; ");
    assert("; "@ =~= seq![';', ' ']);
    assert(errors.push(next).drop_last() =~= errors);
    assert("validation failed: "@ + Seq::<char>::empty() =~= "validation failed: "@);
    if errors.len() > 0 {
        assert(refusal_text(errors.push(next)) =~= refusal_text(errors) + seq![';', ' '] + next);
    }
}

/// The way to a root goes down from the root of the file system, one component at
/// a time; only the root itself is opened for reading; and a directory that is
/// missing on the way is made by a writer and by nobody else.
pub proof fn ways_lead_down_to_the_root(root: Seq<Seq<u8>>, plan: Seq<OpenStep>, i: int)
    requires
        opens(root, plan),
        0 <= i < plan.len(),
    ensures
        plan[0].path@.len() == 0,
        plan.last().path@ == root,
        plan[i].path@.len() == i,
        i > 0 ==> plan[i].path@.drop_last() == plan[i - 1].path@,
        plan[i].read <==> i == plan.len() - 1,
        directory_created(true, true),
        !directory_created(false, true),
        !directory_created(true, false),
{
    let n = root.len() as int;
    assert(plan[n].path@ == root.take(n));
    assert(root.take(n) =~= root);
    assert(plan[0].path@ == root.take(0));
    if i > 0 {
        assert(plan[i - 1].path@ == root.take(i - 1));
        assert(root.take(i).drop_last() =~= root.take(i - 1));
    }
}

/// The directory of the path that was asked for stands for the root exactly where
/// it leads there, and is then kept as it was spelled.
pub proof fn aliases_lead_to_the_root(parent: Seq<u8>, resolved: Seq<Seq<u8>>, id: IdentityV)
    ensures
        alias_of(parent, resolved, id) is Some <==> resolved == id.root,
        alias_of(parent, resolved, id) matches Some(a) ==> a == parent,
{
}

/// Components are seen one for one, octet for octet.
pub proof fn components_are_seen_one_for_one(list: Seq<Vec<u8>>, i: int)
    requires
        0 <= i < list.len(),
    ensures
        crate::tree_path::octet_views(list).len() == list.len(),
        crate::tree_path::octet_views(list)[i] == list[i]@,
{
}

} // verus!
