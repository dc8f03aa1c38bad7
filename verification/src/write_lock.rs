//! The locks of a configuration tree: which tree a path belongs to, which
//! files are fit to be locks, and in what order they are taken.
//!
//! Readers lock the root directory shared. Writers lock it exclusive, and then
//! a side file whose inode survives the renames of the files next to it. The
//! system calls are made by the caller; what they say comes in as facts.
use vstd::prelude::*;
use crate::record::ascii_octets;
use crate::text::{decimal, joined, to_decimal};
use crate::tree_path::{
    asks_above_root, begins, begins_with, climbs_above_root, copy_octets, ends_in_a_name, file_name,
    has_file_name, octet_views, octets_of_text, pieces, same_octets, spelled, spelled_as_file,
    split_path, TreePath,
};

verus! {

/// The side file that writers lock.
pub const WRITE_LOCK_FILE: &'static str = ".warden-config.lock";

/// What the names of staged writes begin with.
pub const WRITE_STAGE_PREFIX: &'static str = ".warden-write-";

/// The directory of an unfinished migration.
pub const TXN_DIR_NAME: &'static str = ".warden-migration";

/// What the names of migrations that are being cleaned up begin with.
pub const CLEANUP_DIR_PREFIX: &'static str = ".warden-migration.cleanup-";

/// What the names of finished migrations begin with.
pub const FINALIZED_DIR_PREFIX: &'static str = ".warden-migration.finalized-";

/// How long a lock is waited for, in nanoseconds.
pub const LOCK_DEADLINE: u128 = 30_000_000_000;

/// The pause between two attempts, in nanoseconds.
pub const LOCK_POLL: u128 = 10_000_000;

/// The mode of a lock file: the owner reads and writes.
pub const LOCK_MODE: u32 = 0x180;

/// The mode of a directory that is created on the way to a tree.
pub const DIRECTORY_MODE: u32 = 0x1e8;

/// The permission bits of a mode.
pub const MODE_BITS: u32 = 0xfff;

// ── Reserved names ────────────────────────────────────────────────────

/// A name that the configuration tree keeps for itself.
pub open spec fn reserved(name: Seq<u8>) -> bool {
    ||| name == ascii_octets(WRITE_LOCK_FILE@)
    ||| begins(name, ascii_octets(WRITE_STAGE_PREFIX@))
    ||| name == ascii_octets(TXN_DIR_NAME@)
    ||| begins(name, ascii_octets(CLEANUP_DIR_PREFIX@))
    ||| begins(name, ascii_octets(FINALIZED_DIR_PREFIX@))
}

/// Whether a name is one that the configuration tree keeps for itself.
pub fn reserved_component(name: &Vec<u8>) -> (r: bool)
    ensures
        r == reserved(name@),
{
    same_octets(name, &octets_of_text(WRITE_LOCK_FILE)) || begins_with(name, WRITE_STAGE_PREFIX)
        || same_octets(name, &octets_of_text(TXN_DIR_NAME)) || begins_with(name, CLEANUP_DIR_PREFIX)
        || begins_with(name, FINALIZED_DIR_PREFIX)
}

/// Some component of a path is reserved.
pub open spec fn in_reserved_namespace(parts: Seq<Seq<u8>>) -> bool {
    exists|i: int| 0 <= i < parts.len() && reserved(#[trigger] parts[i])
}

/// Whether some component of a path is reserved.
pub fn leads_through_reserved(parts: &Vec<Vec<u8>>) -> (r: bool)
    ensures
        r == in_reserved_namespace(octet_views(parts@)),
{
    let ghost views = octet_views(parts@);
    let mut i: usize = 0;
    while i < parts.len()
        invariant
            i <= parts.len(),
            views == octet_views(parts@),
            forall|k: int| 0 <= k < i ==> !reserved(#[trigger] views[k]),
        decreases parts.len() - i,
    {
        proof {
            assert(views[i as int] == parts@[i as int]@);
        }
        if reserved_component(&parts[i]) {
            return true;
        }
        i += 1;
    }
    false
}

// ── Errors ────────────────────────────────────────────────────────────

/// Why a lock is not taken.
#[derive(Clone, Copy, Debug, PartialEq, Eq, Structural)]
pub enum LockError {
    /// The path does not name a file.
    NamesNoFile,
    /// The path asks for what is above the root of the file system.
    AboveRoot,
    /// The master lies in the reserved namespace.
    Reserved,
    /// The master is not a regular file.
    NonRegularMaster,
    /// The master has no directory.
    NoParent,
    /// No directory above the root exists.
    NoAncestor,
    /// The nearest thing above the root that exists is not a directory.
    AncestorNotDirectory,
    /// What is above the root could not be looked at.
    Unreadable,
    /// The directory that pins the tree is another one by now.
    RootChanged,
    /// The lock is for another tree.
    ForeignGuard,
    /// The path leads to another tree than it did at first.
    IdentityChanged,
    /// The directory that was opened is not the root any more.
    RootReplaced,
    /// The master was replaced between its check and its capture.
    MasterReplaced,
    /// The master was replaced while the side lock was awaited.
    MasterChanged,
    /// The side lock was replaced while it was awaited.
    LockInodeChanged,
    /// The side lock is not a file that is fit for it. The owner is the one
    /// that was expected.
    UnsafeLock(u32, u32),
    /// The side lock was changed after it was taken.
    SideLockChanged,
    /// An editor removed the master.
    EditorRemoved,
    /// What an editor put in place of the master is not fit for it.
    EditorReplacement,
    /// What an editor put in place of the master has another owner than the
    /// one that is expected.
    EditorOwner(u32, u32),
    /// Somebody else holds the lock.
    TimedOut,
    /// The master is there, but not under the spelling that was asked for.
    Untraversable,
    /// The file is a device, a socket or a pipe.
    DataAccess,
    /// The file that was opened is not the one that was inspected.
    ReopenChanged,
    /// The master whose owner is asked for is not a regular file.
    OwnerNotRegular,
    /// The owner of the master cannot be read.
    OwnerUnreadable,
}

/// The text of an error. `path` is the path that it is about; `other` is the
/// path that was asked for, the time that was waited, or what the system said.
pub open spec fn error_text(e: LockError, path: Seq<char>, other: Seq<char>) -> Seq<char> {
    match e {
        LockError::NamesNoFile => "master config path must name a file: "@ + path,
        LockError::AboveRoot => "config path leads above the filesystem root: "@ + path,
        LockError::Reserved => "reserved config namespace cannot contain a master: "@ + path,
        LockError::NonRegularMaster => "config path is not a regular file: "@ + path,
        LockError::NoParent => "master config path has no parent"@,
        LockError::NoAncestor => "config root has no existing ancestor"@,
        LockError::AncestorNotDirectory => "config root ancestor is not a directory: "@ + path,
        LockError::Unreadable => other,
        LockError::RootChanged => "config root changed while acquiring its lock: "@ + path,
        LockError::ForeignGuard => "config guard belongs to "@ + path + ", not "@ + other,
        LockError::IdentityChanged => "config identity changed while creating its root"@,
        LockError::RootReplaced => "config root changed while opening its lock"@,
        LockError::MasterReplaced => {
            "canonical master changed between identity verification and capture"@
        },
        LockError::MasterChanged => "canonical master changed while acquiring the side lock"@,
        LockError::LockInodeChanged => "config lock inode changed during acquisition"@,
        LockError::UnsafeLock(uid, gid) => {
            "unsafe config lock (expected regular, single-link, mode 0600, owner "@ + decimal(
                uid as nat,
            ) + ":"@ + decimal(gid as nat) + "): "@ + path + REMEDY@
        },
        LockError::SideLockChanged => "config side lock changed after admission: "@ + path,
        LockError::EditorRemoved => "editor removed the canonical master"@,
        LockError::EditorReplacement => {
            "editor replacement must be a regular single-link canonical master: "@ + path
        },
        LockError::EditorOwner(uid, gid) => {
            "editor replacement owner does not match admitted config lock owner "@ + decimal(
                uid as nat,
            ) + ":"@ + decimal(gid as nat) + ": "@ + path
        },
        LockError::TimedOut => {
            "another warden process holds the config tree lock (waited "@ + other + ")"@
        },
        LockError::Untraversable => "requested master spelling cannot be traversed"@,
        LockError::DataAccess => "refusing data access to a non-regular, non-directory inode"@,
        LockError::ReopenChanged => "inspected inode changed during reopen"@,
        LockError::OwnerNotRegular => "master config must be a regular file"@,
        LockError::OwnerUnreadable => "inspect canonical master ownership"@,
    }
}

/// What to do about an unsafe lock.
pub const REMEDY: &'static str =
    ". Stop all warden daemons and commands before maintenance; inspect this exact entry without following symlinks. After confirming it is an obsolete lock, move it aside and let warden recreate it. Do not remove or replace a lock while any old or new process may hold it";

impl LockError {
    /// The error in words.
    pub fn text(&self, path: &str, other: &str) -> (r: String)
        ensures
            r@ == error_text(*self, path@, other@),
    {
        match self {
            LockError::NamesNoFile => joined("master config path must name a file: ", path),
            LockError::AboveRoot => joined("config path leads above the filesystem root: ", path),
            LockError::Reserved => {
                joined("reserved config namespace cannot contain a master: ", path)
            },
            LockError::NonRegularMaster => joined("config path is not a regular file: ", path),
            LockError::NoParent => "master config path has no parent".to_owned(),
            LockError::NoAncestor => "config root has no existing ancestor".to_owned(),
            LockError::AncestorNotDirectory => {
                joined("config root ancestor is not a directory: ", path)
            },
            LockError::Unreadable => other.to_owned(),
            LockError::RootChanged => {
                joined("config root changed while acquiring its lock: ", path)
            },
            LockError::ForeignGuard => {
                let a = joined("config guard belongs to ", path);
                let b = joined(&a, ", not ");
                joined(&b, other)
            },
            LockError::IdentityChanged => {
                "config identity changed while creating its root".to_owned()
            },
            LockError::RootReplaced => "config root changed while opening its lock".to_owned(),
            LockError::MasterReplaced => {
                "canonical master changed between identity verification and capture".to_owned()
            },
            LockError::MasterChanged => {
                "canonical master changed while acquiring the side lock".to_owned()
            },
            LockError::LockInodeChanged => {
                "config lock inode changed during acquisition".to_owned()
            },
            LockError::UnsafeLock(uid, gid) => {
                let a = joined(
                    "unsafe config lock (expected regular, single-link, mode 0600, owner ",
                    &to_decimal(*uid as u64),
                );
                let b = joined(&a, ":");
                let c = joined(&b, &to_decimal(*gid as u64));
                let d = joined(&c, "): ");
                let e = joined(&d, path);
                joined(&e, REMEDY)
            },
            LockError::SideLockChanged => {
                joined("config side lock changed after admission: ", path)
            },
            LockError::EditorRemoved => "editor removed the canonical master".to_owned(),
            LockError::EditorReplacement => {
                joined(
                    "editor replacement must be a regular single-link canonical master: ",
                    path,
                )
            },
            LockError::EditorOwner(uid, gid) => {
                let a = joined(
                    "editor replacement owner does not match admitted config lock owner ",
                    &to_decimal(*uid as u64),
                );
                let b = joined(&a, ":");
                let c = joined(&b, &to_decimal(*gid as u64));
                let d = joined(&c, ": ");
                joined(&d, path)
            },
            LockError::TimedOut => {
                let a = joined(
                    "another warden process holds the config tree lock (waited ",
                    other,
                );
                joined(&a, ")")
            },
            LockError::Untraversable => {
                "requested master spelling cannot be traversed".to_owned()
            },
            LockError::DataAccess => {
                "refusing data access to a non-regular, non-directory inode".to_owned()
            },
            LockError::ReopenChanged => "inspected inode changed during reopen".to_owned(),
            LockError::OwnerNotRegular => "master config must be a regular file".to_owned(),
            LockError::OwnerUnreadable => "inspect canonical master ownership".to_owned(),
        }
    }
}

// ── Files ─────────────────────────────────────────────────────────────

/// What the system says of an open file.
#[derive(Clone, Copy, Debug, PartialEq, Eq, Structural)]
pub struct FileFacts {
    pub regular: bool,
    pub directory: bool,
    pub links: u64,
    pub mode: u32,
    pub uid: u32,
    pub gid: u32,
    pub device: u64,
    pub inode: u64,
}

impl FileFacts {
    /// What tells a file from every other.
    pub open spec fn id_spec(&self) -> (u64, u64) {
        (self.device, self.inode)
    }

    /// What tells a file from every other.
    pub fn id(&self) -> (r: (u64, u64))
        ensures
            r == self.id_spec(),
    {
        (self.device, self.inode)
    }
}

/// The file is fit to be a lock of `(uid, gid)`: regular, under one name,
/// readable and writable by the owner alone.
pub open spec fn safe_lock(f: FileFacts, uid: u32, gid: u32) -> bool {
    &&& f.regular
    &&& f.links == 1
    &&& f.mode & MODE_BITS == LOCK_MODE
    &&& f.uid == uid
    &&& f.gid == gid
}

fn is_safe_lock(f: &FileFacts, uid: u32, gid: u32) -> (r: bool)
    ensures
        r == safe_lock(*f, uid, gid),
{
    f.regular && f.links == 1 && f.mode & MODE_BITS == LOCK_MODE && f.uid == uid && f.gid == gid
}

/// The check of a side lock against the owner that is expected.
pub open spec fn lock_check(f: FileFacts, owner: FileFacts) -> Result<(), LockError> {
    if safe_lock(f, owner.uid, owner.gid) {
        Ok(())
    } else {
        Err(LockError::UnsafeLock(owner.uid, owner.gid))
    }
}

/// Accepts a side lock, or says why not.
pub fn validate_lock(f: &FileFacts, owner: &FileFacts) -> (r: Result<(), LockError>)
    ensures
        r == lock_check(*f, *owner),
{
    if is_safe_lock(f, owner.uid, owner.gid) {
        Ok(())
    } else {
        Err(LockError::UnsafeLock(owner.uid, owner.gid))
    }
}

/// Whether two optional files are the same file, or are both absent.
pub fn same_optional_inode(a: &Option<FileFacts>, b: &Option<FileFacts>) -> (r: bool)
    ensures
        r == same_master(*a, *b),
{
    match a {
        Some(x) => match b {
            Some(y) => x.device == y.device && x.inode == y.inode,
            None => false,
        },
        None => b.is_none(),
    }
}

/// Two optional files are the same file, or are both absent.
pub open spec fn same_master(a: Option<FileFacts>, b: Option<FileFacts>) -> bool {
    match (a, b) {
        (Some(x), Some(y)) => x.id_spec() == y.id_spec(),
        (None, None) => true,
        _ => false,
    }
}

/// The check of a file that is to be opened for its contents.
pub open spec fn access_check(f: FileFacts) -> Result<(), LockError> {
    if f.regular || f.directory {
        Ok(())
    } else {
        Err(LockError::DataAccess)
    }
}

/// The check of a file that was inspected and then opened for its contents.
pub open spec fn reopen_check(seen: FileFacts, reopened: FileFacts) -> Result<(), LockError> {
    if access_check(seen) is Err {
        access_check(seen)
    } else if seen.id_spec() != reopened.id_spec() {
        Err(LockError::ReopenChanged)
    } else {
        Ok(())
    }
}

/// The check of the spelling that was asked for against the master.
pub open spec fn traversal_check(master_found: bool, spelling_found: bool) -> Result<
    (),
    LockError,
> {
    if master_found && !spelling_found {
        Err(LockError::Untraversable)
    } else {
        Ok(())
    }
}

/// Whether a file that was inspected may be opened for its contents: devices,
/// sockets and pipes may not.
pub fn may_reopen(f: &FileFacts) -> (r: Result<(), LockError>)
    ensures
        r == access_check(*f),
{
    if f.regular || f.directory {
        Ok(())
    } else {
        Err(LockError::DataAccess)
    }
}

/// What comes of opening an inspected file for its contents: it may be opened,
/// and what was opened is the file that was inspected.
pub fn reopen_inspected(seen: &FileFacts, reopened: &FileFacts) -> (r: Result<(), LockError>)
    ensures
        r == reopen_check(*seen, *reopened),
{
    match may_reopen(seen) {
        Ok(_) => {},
        Err(e) => {
            return Err(e);
        },
    }
    if seen.device == reopened.device && seen.inode == reopened.inode {
        Ok(())
    } else {
        Err(LockError::ReopenChanged)
    }
}

/// Whether the spelling that was asked for leads to the master. A master that
/// is there has to be reachable under it; a missing one need not be.
pub fn check_traversal(master_found: bool, spelling_found: bool) -> (r: Result<(), LockError>)
    ensures
        r == traversal_check(master_found, spelling_found),
{
    if master_found && !spelling_found {
        Err(LockError::Untraversable)
    } else {
        Ok(())
    }
}

/// The file whose owner the side lock takes: the master, or the root where
/// there is no master.
pub fn lock_owner(master: &Option<FileFacts>, root: &FileFacts) -> (r: FileFacts)
    ensures
        r == owner_of(*master, *root),
{
    match master {
        Some(f) => *f,
        None => *root,
    }
}

/// The file whose owner the side lock takes.
pub open spec fn owner_of(master: Option<FileFacts>, root: FileFacts) -> FileFacts {
    match master {
        Some(f) => f,
        None => root,
    }
}

// ── Identity ──────────────────────────────────────────────────────────

/// What a look at a path finds.
#[derive(Clone, Copy, Debug, PartialEq, Eq, Structural)]
pub enum Probe {
    Missing,
    Found(FileFacts),
    Failed,
}

/// The file whose owner the files of the tree take, or why there is none.
pub open spec fn owner_found(master: Probe, root: FileFacts) -> Result<FileFacts, LockError> {
    match master {
        Probe::Found(f) => if f.regular {
            Ok(f)
        } else {
            Err(LockError::OwnerNotRegular)
        },
        Probe::Missing => Ok(root),
        Probe::Failed => Err(LockError::OwnerUnreadable),
    }
}

/// The file whose owner the files of the tree take: the master, which has to
/// be a regular file, or the root where there is no master.
pub fn owner_metadata(master: &Probe, root: &FileFacts) -> (r: Result<FileFacts, LockError>)
    ensures
        r == owner_found(*master, *root),
{
    match master {
        Probe::Found(f) => if f.regular {
            Ok(*f)
        } else {
            Err(LockError::OwnerNotRegular)
        },
        Probe::Missing => Ok(*root),
        Probe::Failed => Err(LockError::OwnerUnreadable),
    }
}

/// Which tree a path belongs to.
#[derive(Debug)]
pub struct ConfigTreeIdentity {
    pub canonical_master: TreePath,
    pub root: TreePath,
    pub lock_path: TreePath,
    pub txn_dir: TreePath,
    /// The nearest directory that exists, at the root or above it.
    pub anchor: TreePath,
    pub anchor_inode: (u64, u64),
}

/// The identity of a tree as mathematical values.
pub struct IdentityV {
    pub canonical_master: Seq<Seq<u8>>,
    pub root: Seq<Seq<u8>>,
    pub lock_path: Seq<Seq<u8>>,
    pub txn_dir: Seq<Seq<u8>>,
    pub anchor: Seq<Seq<u8>>,
    pub anchor_inode: (u64, u64),
}

impl View for ConfigTreeIdentity {
    type V = IdentityV;

    open spec fn view(&self) -> IdentityV {
        IdentityV {
            canonical_master: self.canonical_master@,
            root: self.root@,
            lock_path: self.lock_path@,
            txn_dir: self.txn_dir@,
            anchor: self.anchor@,
            anchor_inode: self.anchor_inode,
        }
    }
}

/// The identity of the tree of a master, pinned by a directory.
pub open spec fn identity_of(
    master: Seq<Seq<u8>>,
    anchor: Seq<Seq<u8>>,
    inode: (u64, u64),
) -> IdentityV {
    let root = master.drop_last();
    IdentityV {
        canonical_master: master,
        root,
        lock_path: root.push(ascii_octets(WRITE_LOCK_FILE@)),
        txn_dir: root.push(ascii_octets(TXN_DIR_NAME@)),
        anchor,
        anchor_inode: inode,
    }
}

/// The path names a file, as far as its spelling goes.
pub open spec fn names_a_file(requested: Seq<u8>) -> bool {
    requested.len() > 0 && file_name(requested) is Some && spelled_as_file(requested)
}

/// The directory that pins a root: the first, from the root upwards, that is
/// not missing. `probes[i]` is what is found `i` levels above the root.
pub open spec fn anchored(root: Seq<Seq<u8>>, probes: Seq<Probe>, i: int) -> Result<
    (Seq<Seq<u8>>, (u64, u64)),
    LockError,
>
    decreases root.len() - i,
{
    if i < 0 || i > root.len() || i >= probes.len() {
        Err(LockError::NoAncestor)
    } else {
        match probes[i] {
            Probe::Failed => Err(LockError::Unreadable),
            Probe::Found(f) => if f.directory {
                Ok((root.take(root.len() - i), f.id_spec()))
            } else {
                Err(LockError::AncestorNotDirectory)
            },
            Probe::Missing => if i == root.len() {
                Err(LockError::NoAncestor)
            } else {
                anchored(root, probes, i + 1)
            },
        }
    }
}

/// The identity that a path resolves to. `canonical` is where the path leads,
/// `master` is what is there. No reserved name may stand on either: a reserved
/// spelling is no way to a master, wherever it leads.
pub open spec fn resolved_identity(
    requested: Seq<u8>,
    canonical: Seq<Seq<u8>>,
    master: Option<FileFacts>,
    probes: Seq<Probe>,
) -> Result<IdentityV, LockError> {
    if !names_a_file(requested) {
        Err(LockError::NamesNoFile)
    } else if climbs_above_root(requested) {
        Err(LockError::AboveRoot)
    } else if in_reserved_namespace(canonical) || in_reserved_namespace(pieces(requested)) {
        Err(LockError::Reserved)
    } else if master is Some && !master->0.regular {
        Err(LockError::NonRegularMaster)
    } else if canonical.len() == 0 {
        Err(LockError::NoParent)
    } else {
        match anchored(canonical.drop_last(), probes, 0) {
            Ok((anchor, inode)) => Ok(identity_of(canonical, anchor, inode)),
            Err(e) => Err(e),
        }
    }
}

/// The check of a spelling before anything is looked up.
pub open spec fn spelling_check(requested: Seq<u8>) -> Result<(), LockError> {
    if requested.len() > 0 && file_name(requested) is Some {
        Ok(())
    } else {
        Err(LockError::NamesNoFile)
    }
}

/// Whether the spelling of a path can be that of a master at all, before
/// anything is looked up.
pub fn check_spelling(requested: &Vec<u8>) -> (r: Result<(), LockError>)
    ensures
        r == spelling_check(requested@),
{
    if requested.len() == 0 || !has_file_name(requested) {
        Err(LockError::NamesNoFile)
    } else {
        Ok(())
    }
}

fn find_anchor(root: &TreePath, probes: &Vec<Probe>) -> (r: Result<
    (TreePath, (u64, u64)),
    LockError,
>)
    ensures
        match r {
            Ok((anchor, inode)) => anchored(root@, probes@, 0) == Ok::<
                (Seq<Seq<u8>>, (u64, u64)),
                LockError,
            >((anchor@, inode)),
            Err(e) => anchored(root@, probes@, 0) == Err::<
                (Seq<Seq<u8>>, (u64, u64)),
                LockError,
            >(e),
        },
{
    let n = root.parts.len();
    let mut i: usize = 0;
    while i < probes.len()
        invariant
            i <= probes.len(),
            i <= n,
            n == root@.len(),
            anchored(root@, probes@, 0) == anchored(root@, probes@, i as int),
        decreases probes.len() - i,
    {
        match probes[i] {
            Probe::Failed => {
                return Err(LockError::Unreadable);
            },
            Probe::Found(f) => {
                if !f.directory {
                    return Err(LockError::AncestorNotDirectory);
                }
                return Ok((root.first(n - i), f.id()));
            },
            Probe::Missing => {
                if i == n {
                    return Err(LockError::NoAncestor);
                }
                i += 1;
            },
        }
    }
    Err(LockError::NoAncestor)
}

impl ConfigTreeIdentity {
    /// Resolves a path to the tree that it belongs to.
    pub fn resolve_from(
        requested: &Vec<u8>,
        canonical: &TreePath,
        master: &Option<FileFacts>,
        probes: &Vec<Probe>,
    ) -> (r: Result<ConfigTreeIdentity, LockError>)
        ensures
            match r {
                Ok(id) => resolved_identity(requested@, canonical@, *master, probes@) == Ok::<
                    IdentityV,
                    LockError,
                >(id@),
                Err(e) => resolved_identity(requested@, canonical@, *master, probes@) == Err::<
                    IdentityV,
                    LockError,
                >(e),
            },
    {
        if requested.len() == 0 || !has_file_name(requested) || !ends_in_a_name(requested) {
            return Err(LockError::NamesNoFile);
        }
        if asks_above_root(requested) {
            return Err(LockError::AboveRoot);
        }
        if leads_through_reserved(&canonical.parts) || leads_through_reserved(
            &split_path(requested),
        ) {
            return Err(LockError::Reserved);
        }
        match master {
            Some(f) => {
                if !f.regular {
                    return Err(LockError::NonRegularMaster);
                }
            },
            None => {},
        }
        let n = canonical.parts.len();
        proof {
            assert(n == canonical@.len());
        }
        if n == 0 {
            return Err(LockError::NoParent);
        }
        let root = canonical.first(n - 1);
        proof {
            assert(root@ =~= canonical@.drop_last());
        }
        match find_anchor(&root, probes) {
            Ok((anchor, anchor_inode)) => Ok(
                ConfigTreeIdentity {
                    canonical_master: canonical.copy(),
                    lock_path: root.join(WRITE_LOCK_FILE),
                    txn_dir: root.join(TXN_DIR_NAME),
                    root,
                    anchor,
                    anchor_inode,
                },
            ),
            Err(e) => Err(e),
        }
    }

    /// Whether two identities are the same.
    pub fn same(&self, other: &ConfigTreeIdentity) -> (r: bool)
        ensures
            r == (self@ == other@),
    {
        self.canonical_master.same(&other.canonical_master) && self.root.same(&other.root)
            && self.lock_path.same(&other.lock_path) && self.txn_dir.same(&other.txn_dir)
            && self.anchor.same(&other.anchor) && self.anchor_inode.0 == other.anchor_inode.0
            && self.anchor_inode.1 == other.anchor_inode.1
    }

    /// Whether a path that was resolved once more still leads to this tree.
    pub fn verify_master_from(&self, again: &ConfigTreeIdentity) -> (r: Result<(), LockError>)
        ensures
            r == identity_check(self@, again@),
    {
        if self.same(again) {
            Ok(())
        } else {
            Err(LockError::ForeignGuard)
        }
    }

    /// Checks one directory on the way down to the root: the one that pins
    /// the tree has to be the one that did.
    pub fn check_anchor(&self, path: &TreePath, found: &FileFacts) -> (r: Result<(), LockError>)
        ensures
            r == anchor_check(self@, path@, found.id_spec()),
    {
        if path.same(&self.anchor) && !(found.device == self.anchor_inode.0 && found.inode
            == self.anchor_inode.1) {
            Err(LockError::RootChanged)
        } else {
            Ok(())
        }
    }

    /// The directories that are opened on the way down to the root, the root
    /// of the file system first. Only the last is opened for reading, so that
    /// a directory above it need not be readable.
    pub fn open_plan(&self) -> (r: Vec<OpenStep>)
        ensures
            opens(self@.root, r@),
    {
        let n = self.root.parts.len();
        let mut plan: Vec<OpenStep> = Vec::new();
        let mut i: usize = 0;
        while i < n
            invariant
                i <= n,
                n == self@.root.len(),
                plan@.len() == i,
                forall|k: int|
                    0 <= k < i ==> (#[trigger] plan@[k]).path@ == self@.root.take(k)
                        && !plan@[k].read,
            decreases n - i,
        {
            plan.push(OpenStep { path: self.root.first(i), read: false });
            i += 1;
        }
        plan.push(OpenStep { path: self.root.first(n), read: true });
        plan
    }

    /// Whether the root that was opened is the one that the path leads to.
    /// `again` is what the path resolves to now that the root is open.
    pub fn root_unchanged(&self, again: &ConfigTreeIdentity, root: &FileFacts) -> (r: Result<
        (),
        LockError,
    >)
        ensures
            r == root_check(self@, again@, root.id_spec()),
    {
        if !(self.root.same(&again.root) && self.canonical_master.same(&again.canonical_master)) {
            return Err(LockError::IdentityChanged);
        }
        if !(root.device == again.anchor_inode.0 && root.inode == again.anchor_inode.1
            && again.anchor.same(&again.root)) {
            return Err(LockError::RootReplaced);
        }
        Ok(())
    }
}

/// The check of a path that was resolved once more.
pub open spec fn identity_check(first: IdentityV, again: IdentityV) -> Result<(), LockError> {
    if first == again {
        Ok(())
    } else {
        Err(LockError::ForeignGuard)
    }
}

/// The check of one directory on the way down to the root.
pub open spec fn anchor_check(id: IdentityV, path: Seq<Seq<u8>>, found: (u64, u64)) -> Result<
    (),
    LockError,
> {
    if path == id.anchor && found != id.anchor_inode {
        Err(LockError::RootChanged)
    } else {
        Ok(())
    }
}

/// The check of an opened root. The tree has to be the one that the path led
/// to at first, and the root has to exist and be the directory that was opened.
pub open spec fn root_check(first: IdentityV, again: IdentityV, root: (u64, u64)) -> Result<
    (),
    LockError,
> {
    if first.root != again.root || first.canonical_master != again.canonical_master {
        Err(LockError::IdentityChanged)
    } else if root != again.anchor_inode || again.anchor != again.root {
        Err(LockError::RootReplaced)
    } else {
        Ok(())
    }
}

/// A directory to be opened.
#[derive(Debug)]
pub struct OpenStep {
    pub path: TreePath,
    pub read: bool,
}

/// The steps open the directories down to a root, and read the last.
pub open spec fn opens(root: Seq<Seq<u8>>, plan: Seq<OpenStep>) -> bool {
    &&& plan.len() == root.len() + 1
    &&& forall|i: int|
        0 <= i < plan.len() ==> (#[trigger] plan[i]).path@ == root.take(i) && plan[i].read == (i
            == root.len())
}

/// A directory on the way is created.
pub open spec fn directory_created(exclusive: bool, missing: bool) -> bool {
    exclusive && missing
}

/// What is done about a directory that cannot be opened: it is created where
/// it is missing and a writer asks for it, and nowhere else.
pub fn creates_directory(exclusive: bool, missing: bool) -> (r: bool)
    ensures
        r == directory_created(exclusive, missing),
{
    exclusive && missing
}

// ── Waiting ───────────────────────────────────────────────────────────

/// What an attempt to take a lock says.
#[derive(Clone, Copy, Debug, PartialEq, Eq, Structural)]
pub enum Attempt {
    Taken,
    Interrupted,
    Held,
    Failed,
}

/// What is done after an attempt.
#[derive(Clone, Copy, Debug, PartialEq, Eq, Structural)]
pub enum LockStep {
    Done,
    Again,
    /// Wait for some nanoseconds, then try again.
    Sleep(u128),
    TimedOut,
    Fail,
}

/// What is done after an attempt, `elapsed` nanoseconds into a wait of `wait`.
pub open spec fn lock_step(attempt: Attempt, elapsed: u128, wait: u128) -> LockStep {
    match attempt {
        Attempt::Taken => LockStep::Done,
        Attempt::Interrupted => LockStep::Again,
        Attempt::Failed => LockStep::Fail,
        Attempt::Held => if elapsed > wait {
            LockStep::TimedOut
        } else if wait - elapsed < LOCK_POLL {
            LockStep::Sleep((wait - elapsed) as u128)
        } else {
            LockStep::Sleep(LOCK_POLL)
        },
    }
}

/// What is done after an attempt to take a lock.
pub fn flock_until(attempt: Attempt, elapsed: u128, wait: u128) -> (r: LockStep)
    ensures
        r == lock_step(attempt, elapsed, wait),
{
    match attempt {
        Attempt::Taken => LockStep::Done,
        Attempt::Interrupted => LockStep::Again,
        Attempt::Failed => LockStep::Fail,
        Attempt::Held => {
            if elapsed > wait {
                return LockStep::TimedOut;
            }
            let left: u128 = wait - elapsed;
            if left < LOCK_POLL {
                LockStep::Sleep(left)
            } else {
                LockStep::Sleep(LOCK_POLL)
            }
        },
    }
}

/// Which lock is waited for: the root of the tree first, then the side lock.
#[derive(Clone, Copy, Debug, PartialEq, Eq, Structural)]
pub enum LockPhase {
    Root,
    Side,
}

/// What an acquisition does after an attempt.
#[derive(Clone, Copy, Debug, PartialEq, Eq, Structural)]
pub enum LockMove {
    Again,
    /// Wait for some nanoseconds, then try again.
    Sleep(u128),
    /// The root is held: open the side lock, or make it.
    OpenSide,
    /// Everything is held.
    Hold,
    TimedOut,
    Fail,
}

/// What an acquisition does after an attempt. A writer goes on to the side
/// lock once it holds the root; a reader holds nothing else.
pub open spec fn lock_move(
    phase: LockPhase,
    exclusive: bool,
    attempt: Attempt,
    elapsed: u128,
    wait: u128,
) -> LockMove {
    match lock_step(attempt, elapsed, wait) {
        LockStep::Done => if phase == LockPhase::Root && exclusive {
            LockMove::OpenSide
        } else {
            LockMove::Hold
        },
        LockStep::Again => LockMove::Again,
        LockStep::Sleep(n) => LockMove::Sleep(n),
        LockStep::TimedOut => LockMove::TimedOut,
        LockStep::Fail => LockMove::Fail,
    }
}

/// What an acquisition does after an attempt, `elapsed` nanoseconds into a
/// wait of `wait`.
pub fn next_move(
    phase: LockPhase,
    exclusive: bool,
    attempt: Attempt,
    elapsed: u128,
    wait: u128,
) -> (r: LockMove)
    ensures
        r == lock_move(phase, exclusive, attempt, elapsed, wait),
{
    match flock_until(attempt, elapsed, wait) {
        LockStep::Done => if phase == LockPhase::Root && exclusive {
            LockMove::OpenSide
        } else {
            LockMove::Hold
        },
        LockStep::Again => LockMove::Again,
        LockStep::Sleep(n) => LockMove::Sleep(n),
        LockStep::TimedOut => LockMove::TimedOut,
        LockStep::Fail => LockMove::Fail,
    }
}

/// What is left of a wait.
pub open spec fn wait_left(wait: u128, elapsed: u128) -> int {
    if elapsed < wait {
        wait - elapsed
    } else {
        0
    }
}

/// What is left of a wait for the second lock.
pub fn remaining_wait(wait: u128, elapsed: u128) -> (r: u128)
    ensures
        r == wait_left(wait, elapsed),
{
    if elapsed < wait {
        wait - elapsed
    } else {
        0
    }
}

// ── Guards ────────────────────────────────────────────────────────────

/// What the checks before and after the side lock is taken are based on.
#[derive(Clone, Copy, Debug)]
pub struct SideLockFacts {
    /// The master as it was when the root was locked.
    pub captured: Option<FileFacts>,
    pub root: FileFacts,
    /// The side lock as it was opened.
    pub opened: FileFacts,
    /// The master once the side lock is held.
    pub verified: Option<FileFacts>,
    /// The side lock under its name, once it is held.
    pub current: FileFacts,
    /// The master as it is captured in the end.
    pub recaptured: Option<FileFacts>,
}

/// The outcome of taking the side lock: its owner, or the first check that
/// fails.
pub open spec fn side_lock_check(f: SideLockFacts) -> Result<(u32, u32), LockError> {
    let owner = owner_of(f.captured, f.root);
    if !safe_lock(f.opened, owner.uid, owner.gid) {
        Err(LockError::UnsafeLock(owner.uid, owner.gid))
    } else if !same_master(f.captured, f.verified) {
        Err(LockError::MasterChanged)
    } else if !safe_lock(f.current, owner.uid, owner.gid) {
        Err(LockError::UnsafeLock(owner.uid, owner.gid))
    } else if f.opened.id_spec() != f.current.id_spec() {
        Err(LockError::LockInodeChanged)
    } else if !same_master(f.verified, f.recaptured) {
        Err(LockError::MasterReplaced)
    } else {
        Ok((owner.uid, owner.gid))
    }
}

/// Checks what was found while the side lock was taken.
pub fn check_side_lock(f: &SideLockFacts) -> (r: Result<(u32, u32), LockError>)
    ensures
        r == side_lock_check(*f),
{
    let owner = lock_owner(&f.captured, &f.root);
    match validate_lock(&f.opened, &owner) {
        Ok(_) => {},
        Err(e) => {
            return Err(e);
        },
    }
    if !same_optional_inode(&f.captured, &f.verified) {
        return Err(LockError::MasterChanged);
    }
    match validate_lock(&f.current, &owner) {
        Ok(_) => {},
        Err(e) => {
            return Err(e);
        },
    }
    if !(f.opened.device == f.current.device && f.opened.inode == f.current.inode) {
        return Err(LockError::LockInodeChanged);
    }
    match capture_master(&f.verified, &f.recaptured) {
        Ok(_) => {},
        Err(e) => {
            return Err(e);
        },
    }
    Ok((owner.uid, owner.gid))
}

/// The check of the master that is captured.
pub open spec fn capture_check(verified: Option<FileFacts>, found: Option<FileFacts>) -> Result<
    (),
    LockError,
> {
    if same_master(verified, found) {
        Ok(())
    } else {
        Err(LockError::MasterReplaced)
    }
}

/// Whether the master that is captured is the one that was verified.
pub fn capture_master(verified: &Option<FileFacts>, found: &Option<FileFacts>) -> (r: Result<
    (),
    LockError,
>)
    ensures
        r == capture_check(*verified, *found),
{
    if same_optional_inode(verified, found) {
        Ok(())
    } else {
        Err(LockError::MasterReplaced)
    }
}

/// What a writer's lock is bound to.
#[derive(Debug)]
pub struct ConfigWriteLock {
    identity: ConfigTreeIdentity,
    /// The path that was asked for, made absolute.
    requested: Vec<u8>,
    side_lock_owner: (u32, u32),
}

/// A writer's lock as mathematical values.
pub struct GuardV {
    pub identity: IdentityV,
    pub requested: Seq<u8>,
    pub owner: (u32, u32),
}

impl View for ConfigWriteLock {
    type V = GuardV;

    closed spec fn view(&self) -> GuardV {
        GuardV {
            identity: self.identity@,
            requested: self.requested@,
            owner: self.side_lock_owner,
        }
    }
}

/// A path is known to be the master of a lock by its spelling alone: it is
/// the path that was asked for, or the canonical one.
pub open spec fn known_spelling(g: GuardV, absolute: Seq<u8>, master: Seq<u8>) -> bool {
    absolute == g.requested || master == spelled(g.identity.canonical_master)
}

/// The check of a path against a lock.
pub open spec fn guard_check(
    g: GuardV,
    absolute: Seq<u8>,
    master: Seq<u8>,
    resolved: IdentityV,
) -> Result<(), LockError> {
    if known_spelling(g, absolute, master) || resolved == g.identity {
        Ok(())
    } else {
        Err(LockError::ForeignGuard)
    }
}

/// The owner of the side lock, as long as it is still fit to be one.
pub open spec fn owner_admitted(owner: (u32, u32), side: FileFacts) -> Result<
    (u32, u32),
    LockError,
> {
    if safe_lock(side, owner.0, owner.1) {
        Ok(owner)
    } else {
        Err(LockError::SideLockChanged)
    }
}

/// The last check on what an editor left behind.
pub open spec fn owner_check(owner: (u32, u32), left: FileFacts) -> Result<(), LockError> {
    if (left.uid, left.gid) == owner {
        Ok(())
    } else {
        Err(LockError::EditorOwner(owner.0, owner.1))
    }
}

/// What becomes of the master that an editor left behind.
#[derive(Clone, Copy, Debug, PartialEq, Eq, Structural)]
pub enum Recapture {
    /// It has the right owner.
    Keep,
    /// Its owner is to be corrected first.
    Chown(u32, u32),
}

/// The first step of taking in what an editor left behind.
pub open spec fn recapture_step(
    owner: (u32, u32),
    side: FileFacts,
    leaf: Option<FileFacts>,
    privileged: bool,
) -> Result<Recapture, LockError> {
    if !safe_lock(side, owner.0, owner.1) {
        Err(LockError::SideLockChanged)
    } else {
        match leaf {
            None => Err(LockError::EditorRemoved),
            Some(f) => if !(f.regular && f.links == 1) {
                Err(LockError::EditorReplacement)
            } else if (f.uid, f.gid) != owner && privileged {
                Ok(Recapture::Chown(owner.0, owner.1))
            } else {
                Ok(Recapture::Keep)
            },
        }
    }
}

impl ConfigWriteLock {
    /// The lock of a tree whose root and side lock are held, once all checks
    /// have been passed.
    pub fn acquire(
        identity: ConfigTreeIdentity,
        requested: Vec<u8>,
        facts: &SideLockFacts,
    ) -> (r: Result<ConfigWriteLock, LockError>)
        ensures
            match r {
                Ok(g) => side_lock_check(*facts) is Ok && g@ == (GuardV {
                    identity: identity@,
                    requested: requested@,
                    owner: side_lock_check(*facts)->Ok_0,
                }),
                Err(e) => side_lock_check(*facts) == Err::<(u32, u32), LockError>(e),
            },
    {
        match check_side_lock(facts) {
            Ok(side_lock_owner) => Ok(ConfigWriteLock { identity, requested, side_lock_owner }),
            Err(e) => Err(e),
        }
    }

    /// The path of the side lock.
    pub fn path(&self) -> (r: &TreePath)
        ensures
            r@ == self@.identity.lock_path,
    {
        &self.identity.lock_path
    }

    /// The canonical path of the master.
    pub fn canonical_master(&self) -> (r: &TreePath)
        ensures
            r@ == self@.identity.canonical_master,
    {
        &self.identity.canonical_master
    }

    /// The identity of the locked tree.
    pub fn identity(&self) -> (r: &ConfigTreeIdentity)
        ensures
            r@ == self@.identity,
    {
        &self.identity
    }

    /// Whether a path needs no resolving to be known as the master. `absolute`
    /// is the path made absolute.
    pub fn knows_spelling(&self, absolute: &Vec<u8>, master: &Vec<u8>) -> (r: bool)
        ensures
            r == known_spelling(self@, absolute@, master@),
    {
        same_octets(absolute, &self.requested) || same_octets(
            master,
            &self.identity.canonical_master.to_octets(),
        )
    }

    /// Whether a path is the master of this lock. `resolved` is what it
    /// resolves to, which counts only for a spelling that is not known.
    pub fn verify_master(
        &self,
        absolute: &Vec<u8>,
        master: &Vec<u8>,
        resolved: &ConfigTreeIdentity,
    ) -> (r: Result<(), LockError>)
        ensures
            r == guard_check(self@, absolute@, master@, resolved@),
    {
        if self.knows_spelling(absolute, master) || resolved.same(&self.identity) {
            Ok(())
        } else {
            Err(LockError::ForeignGuard)
        }
    }

    /// The owner of the side lock, as long as it is still fit to be one.
    pub fn admitted_side_lock_owner(&self, side: &FileFacts) -> (r: Result<
        (u32, u32),
        LockError,
    >)
        ensures
            r == owner_admitted(self@.owner, *side),
    {
        if is_safe_lock(side, self.side_lock_owner.0, self.side_lock_owner.1) {
            Ok(self.side_lock_owner)
        } else {
            Err(LockError::SideLockChanged)
        }
    }

    /// Takes in the master that an editor left behind: a regular file under
    /// one name, whose owner is corrected where that is possible.
    pub fn recapture_canonical_master_after_editor(
        &self,
        side: &FileFacts,
        leaf: &Option<FileFacts>,
        privileged: bool,
    ) -> (r: Result<Recapture, LockError>)
        ensures
            r == recapture_step(self@.owner, *side, *leaf, privileged),
    {
        let owner = match self.admitted_side_lock_owner(side) {
            Ok(owner) => owner,
            Err(e) => {
                return Err(e);
            },
        };
        match leaf {
            None => Err(LockError::EditorRemoved),
            Some(f) => {
                if !(f.regular && f.links == 1) {
                    return Err(LockError::EditorReplacement);
                }
                if !(f.uid == owner.0 && f.gid == owner.1) && privileged {
                    return Ok(Recapture::Chown(owner.0, owner.1));
                }
                Ok(Recapture::Keep)
            },
        }
    }

    /// The last check on what an editor left behind: it has the owner of the
    /// side lock.
    pub fn recapture_owner(&self, after: &FileFacts) -> (r: Result<(), LockError>)
        ensures
            r == owner_check(self@.owner, *after),
    {
        if after.uid == self.side_lock_owner.0 && after.gid == self.side_lock_owner.1 {
            Ok(())
        } else {
            Err(LockError::EditorOwner(self.side_lock_owner.0, self.side_lock_owner.1))
        }
    }
}

/// The directory of the path that was asked for, where it is another name of
/// the root.
pub open spec fn alias_of(
    parent: Seq<u8>,
    resolved: Seq<Seq<u8>>,
    identity: IdentityV,
) -> Option<Seq<u8>> {
    if resolved == identity.root {
        Some(parent)
    } else {
        None
    }
}

/// The directory of the path that was asked for, where it is another name of
/// the root.
pub fn admitted_parent_alias(
    parent: &Vec<u8>,
    resolved: &TreePath,
    identity: &ConfigTreeIdentity,
) -> (r: Option<Vec<u8>>)
    ensures
        match r {
            Some(alias) => alias_of(parent@, resolved@, identity@) == Some(alias@),
            None => alias_of(parent@, resolved@, identity@) is None,
        },
{
    if resolved.same(&identity.root) {
        Some(copy_octets(parent))
    } else {
        None
    }
}

// ── Laws ──────────────────────────────────────────────────────────────

/// A path that resolves at all resolves to a tree that keeps its own names
/// to itself, and whose side lock and migration directory stand next to the
/// master.
pub proof fn masters_stay_out_of_the_reserved_namespace(
    requested: Seq<u8>,
    canonical: Seq<Seq<u8>>,
    master: Option<FileFacts>,
    probes: Seq<Probe>,
    i: int,
)
    requires
        resolved_identity(requested, canonical, master, probes) is Ok,
        0 <= i < canonical.len(),
    ensures
        ({
            let id = resolved_identity(requested, canonical, master, probes)->Ok_0;
            &&& !reserved(canonical[i])
            &&& id.canonical_master == canonical
            &&& id.root == canonical.drop_last()
            &&& id.lock_path.drop_last() == id.root
            &&& id.txn_dir.drop_last() == id.root
            &&& reserved(id.lock_path.last())
            &&& reserved(id.txn_dir.last())
        }),
{
    let id = resolved_identity(requested, canonical, master, probes)->Ok_0;
    assert(id.lock_path.drop_last() =~= id.root);
    assert(id.txn_dir.drop_last() =~= id.root);
}

/// However a master is spelled, two paths that lead to the same place are the
/// same tree: they contend for the same locks. A spelling that is refused for
/// itself leads nowhere.
pub proof fn aliases_share_an_identity(
    a: Seq<u8>,
    b: Seq<u8>,
    canonical: Seq<Seq<u8>>,
    master: Option<FileFacts>,
    probes: Seq<Probe>,
)
    requires
        names_a_file(a),
        names_a_file(b),
        !climbs_above_root(a),
        !climbs_above_root(b),
        !in_reserved_namespace(pieces(a)),
        !in_reserved_namespace(pieces(b)),
    ensures
        resolved_identity(a, canonical, master, probes) == resolved_identity(
            b,
            canonical,
            master,
            probes,
        ),
{
}

/// A reserved name in the spelling of a path is refused, even where it leads
/// to a good master.
pub proof fn reserved_spellings_lead_nowhere(
    requested: Seq<u8>,
    canonical: Seq<Seq<u8>>,
    master: Option<FileFacts>,
    probes: Seq<Probe>,
    i: int,
)
    requires
        0 <= i < pieces(requested).len(),
        reserved(pieces(requested)[i]),
    ensures
        resolved_identity(requested, canonical, master, probes) is Err,
{
}

proof fn lemma_anchor_is_above(root: Seq<Seq<u8>>, probes: Seq<Probe>, i: int)
    requires
        0 <= i <= root.len(),
        anchored(root, probes, i) is Ok,
    ensures
        ({
            let (anchor, inode) = anchored(root, probes, i)->Ok_0;
            let k = root.len() - anchor.len();
            &&& i <= k <= root.len()
            &&& k < probes.len()
            &&& anchor == root.take(root.len() - k)
            &&& probes[k] is Found
            &&& probes[k]->Found_0.directory
            &&& probes[k]->Found_0.id_spec() == inode
            &&& forall|j: int| i <= j < k ==> #[trigger] probes[j] is Missing
        }),
    decreases root.len() - i,
{
    if probes[i] is Missing {
        lemma_anchor_is_above(root, probes, i + 1);
    }
}

/// A tree is pinned by the nearest directory that exists: everything between
/// it and the root is missing.
pub proof fn trees_are_pinned_by_the_nearest_directory(
    requested: Seq<u8>,
    canonical: Seq<Seq<u8>>,
    master: Option<FileFacts>,
    probes: Seq<Probe>,
)
    requires
        resolved_identity(requested, canonical, master, probes) is Ok,
    ensures
        ({
            let id = resolved_identity(requested, canonical, master, probes)->Ok_0;
            let k = id.root.len() - id.anchor.len();
            &&& 0 <= k < probes.len()
            &&& id.anchor == id.root.take(id.root.len() - k)
            &&& probes[k] is Found
            &&& probes[k]->Found_0.directory
            &&& probes[k]->Found_0.id_spec() == id.anchor_inode
            &&& forall|j: int| 0 <= j < k ==> #[trigger] probes[j] is Missing
        }),
{
    lemma_anchor_is_above(canonical.drop_last(), probes, 0);
}

/// A root that was swapped for another directory is noticed: the way down to
/// the root passes the directory that pins the tree, and there the swap shows.
pub proof fn substituted_roots_are_noticed(
    id: IdentityV,
    found: (u64, u64),
    requested: Seq<u8>,
    canonical: Seq<Seq<u8>>,
    master: Option<FileFacts>,
    probes: Seq<Probe>,
)
    requires
        resolved_identity(requested, canonical, master, probes) == Ok::<IdentityV, LockError>(id),
        found != id.anchor_inode,
    ensures
        0 <= id.anchor.len() <= id.root.len(),
        anchor_check(id, id.root.take(id.anchor.len() as int), found) == Err::<(), LockError>(
            LockError::RootChanged,
        ),
{
    trees_are_pinned_by_the_nearest_directory(requested, canonical, master, probes);
}

/// Waiting for a lock ends on time: no pause goes past the deadline, none is
/// longer than the poll, and past the deadline there is no other attempt.
pub proof fn waits_end_on_time(attempt: Attempt, elapsed: u128, wait: u128)
    ensures
        lock_step(attempt, elapsed, wait) matches LockStep::Sleep(n) ==> elapsed + n <= wait && n
            <= LOCK_POLL,
        attempt == Attempt::Held && elapsed > wait ==> lock_step(attempt, elapsed, wait)
            == LockStep::TimedOut,
        lock_step(attempt, elapsed, wait) == LockStep::Done <==> attempt == Attempt::Taken,
{
}

/// Who holds the root of a tree.
pub struct Holders {
    pub writers: nat,
    pub readers: nat,
}

/// A writer is alone.
pub open spec fn writers_are_alone(held: Holders) -> bool {
    held.writers == 0 || (held.writers == 1 && held.readers == 0)
}

/// One more holds the root.
pub open spec fn joined_by(held: Holders, exclusive: bool) -> Holders {
    if exclusive {
        Holders { writers: held.writers + 1, readers: held.readers }
    } else {
        Holders { writers: held.writers, readers: held.readers + 1 }
    }
}

/// Somebody holds the root who keeps another out.
pub open spec fn kept_out(held: Holders, exclusive: bool) -> bool {
    held.writers > 0 || (exclusive && held.readers > 0)
}

/// Guards exclude each other, as far as the system keeps a lock from those
/// whom its holders keep out: a writer goes on only where it is alone, a reader
/// only beside readers, and whoever goes on leaves the writers alone.
pub proof fn guards_exclude_each_other(
    held: Holders,
    exclusive: bool,
    attempt: Attempt,
    elapsed: u128,
    wait: u128,
)
    requires
        writers_are_alone(held),
        attempt == Attempt::Taken ==> !kept_out(held, exclusive),
    ensures
        ({
            let step = lock_move(LockPhase::Root, exclusive, attempt, elapsed, wait);
            let goes_on = step == LockMove::OpenSide || step == LockMove::Hold;
            &&& goes_on ==> writers_are_alone(joined_by(held, exclusive))
            &&& kept_out(held, exclusive) ==> !goes_on
        }),
{
}

/// An acquisition that is kept out does nothing but wait or give up. It gives
/// up no sooner than its wait is over, and it does so once it is.
pub proof fn held_trees_are_left_alone(
    phase: LockPhase,
    exclusive: bool,
    attempt: Attempt,
    elapsed: u128,
    wait: u128,
)
    requires
        attempt == Attempt::Held || attempt == Attempt::Interrupted,
    ensures
        ({
            let step = lock_move(phase, exclusive, attempt, elapsed, wait);
            &&& step is Again || step is Sleep || step == LockMove::TimedOut
            &&& step == LockMove::TimedOut ==> elapsed > wait
            &&& attempt == Attempt::Held && elapsed > wait ==> step == LockMove::TimedOut
        }),
{
}

/// The side lock is opened by nobody but a writer who has just taken the root.
pub proof fn side_locks_come_second(
    phase: LockPhase,
    exclusive: bool,
    attempt: Attempt,
    elapsed: u128,
    wait: u128,
)
    ensures
        lock_move(phase, exclusive, attempt, elapsed, wait) == LockMove::OpenSide <==> phase
            == LockPhase::Root && exclusive && attempt == Attempt::Taken,
{
}

/// A writer's lock vouches for what it was taken on: the side lock is a
/// private file of the owner of the tree, it is the one under its name, and
/// the master has not been swapped since the root was locked.
pub proof fn write_locks_are_sound(f: SideLockFacts)
    requires
        side_lock_check(f) is Ok,
    ensures
        ({
            let (uid, gid) = side_lock_check(f)->Ok_0;
            let owner = owner_of(f.captured, f.root);
            &&& uid == owner.uid
            &&& gid == owner.gid
            &&& safe_lock(f.opened, uid, gid)
            &&& safe_lock(f.current, uid, gid)
            &&& f.opened.id_spec() == f.current.id_spec()
            &&& same_master(f.captured, f.recaptured)
        }),
{
}

/// What an editor leaves behind is taken in only as a regular file under one
/// name: no symbolic or hard link, directory, pipe or socket.
pub proof fn editors_leave_plain_files(
    owner: (u32, u32),
    side: FileFacts,
    leaf: Option<FileFacts>,
    privileged: bool,
)
    requires
        recapture_step(owner, side, leaf, privileged) is Ok,
    ensures
        leaf is Some,
        leaf->0.regular,
        leaf->0.links == 1,
        safe_lock(side, owner.0, owner.1),
{
}

} // verus!
