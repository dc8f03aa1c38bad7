//! The lock of the configuration tree: names, identities, waits and guards.
use purge_warden::tree_path::{
    begins_with, ends_in_a_name, has_file_name, octets_of_text, split_path, TreePath,
};
use purge_warden::write_lock::{
    admitted_parent_alias, capture_master, check_side_lock, check_spelling, check_traversal,
    creates_directory, flock_until, leads_through_reserved, lock_owner, may_reopen, next_move,
    owner_metadata, remaining_wait, reopen_inspected, reserved_component, same_optional_inode,
    validate_lock, Attempt, ConfigTreeIdentity, ConfigWriteLock, FileFacts, LockError, LockMove,
    LockPhase, LockStep, Probe, Recapture, SideLockFacts, CLEANUP_DIR_PREFIX, FINALIZED_DIR_PREFIX,
    LOCK_DEADLINE, LOCK_POLL, WRITE_LOCK_FILE,
};
use purge_warden::writer::{validation_outcome, write_config_v1_locked, WriteRefusal};

const MILLI: u128 = 1_000_000;

fn octets(text: &str) -> Vec<u8> {
    text.as_bytes().to_vec()
}

fn path(text: &str) -> TreePath {
    TreePath { parts: split_path(&octets(text)).into_iter().filter(|p| !p.is_empty()).collect() }
}

fn spelling(p: &TreePath) -> String {
    String::from_utf8(p.to_octets()).unwrap()
}

fn file(inode: u64) -> FileFacts {
    FileFacts {
        regular: true,
        directory: false,
        links: 1,
        mode: 0o100600,
        uid: 1000,
        gid: 1000,
        device: 1,
        inode,
    }
}

fn dir(inode: u64) -> FileFacts {
    FileFacts { regular: false, directory: true, links: 2, mode: 0o040750, ..file(inode) }
}

fn found_dir() -> Vec<Probe> {
    vec![Probe::Found(dir(9))]
}

fn identity(master: &str) -> ConfigTreeIdentity {
    ConfigTreeIdentity::resolve_from(&octets(master), &path(master), &None, &found_dir()).unwrap()
}

fn side_facts() -> SideLockFacts {
    SideLockFacts {
        captured: Some(file(5)),
        root: dir(9),
        opened: file(6),
        verified: Some(file(5)),
        current: file(6),
        recaptured: Some(file(5)),
    }
}

fn guard(master: &str) -> ConfigWriteLock {
    ConfigWriteLock::acquire(identity(master), octets(master), &side_facts()).unwrap()
}

#[test]
fn reserved_names_are_rejected_for_masters_and_members_after_alias_resolution() {
    for name in [
        ".warden-config.lock",
        ".warden-migration",
        ".warden-migration.cleanup-",
        ".warden-migration.cleanup-deadbeef",
        ".warden-write-",
        ".warden-write-stale",
    ] {
        assert!(reserved_component(&octets(name)), "{name}");
        for canonical in [format!("/etc/{name}"), format!("/etc/{name}/config.toml")] {
            for requested in [canonical.as_str(), "/etc/alias"] {
                let refused = ConfigTreeIdentity::resolve_from(
                    &octets(requested),
                    &path(&canonical),
                    &None,
                    &found_dir(),
                );
                assert_eq!(refused.unwrap_err(), LockError::Reserved, "{canonical}");
            }
        }
    }
    for name in [".warden-migration.old", ".warden-migration-cleanup", "migration.toml"] {
        assert!(!reserved_component(&octets(name)), "{name}");
        let master = format!("/etc/{name}");
        assert!(ConfigTreeIdentity::resolve_from(
            &octets(&master),
            &path(&master),
            &None,
            &found_dir()
        )
        .is_ok());
    }
}

#[test]
fn an_unsafe_lock_is_rejected_before_data_open_and_names_offline_remediation() {
    let device = FileFacts { regular: false, ..file(3) };
    assert!(may_reopen(&device).is_err(), "unsafe inode reached data open");
    let err = validate_lock(&device, &file(5)).unwrap_err();
    assert_eq!(err, LockError::UnsafeLock(1000, 1000));
    let message = err.text("/etc/warden/.warden-config.lock", "");
    assert!(message.contains("Stop all warden daemons and commands"));
    assert!(message.contains(WRITE_LOCK_FILE));
    assert!(message.contains("Do not remove or replace a lock"));
    assert!(message.contains("owner 1000:1000"));
}

#[test]
fn a_device_inspection_descriptor_cannot_be_reopened_for_data_access() {
    let device = FileFacts { regular: false, ..file(3) };
    assert_eq!(may_reopen(&device), Err(LockError::DataAccess));
    assert_eq!(reopen_inspected(&device, &device), Err(LockError::DataAccess));
    assert!(may_reopen(&file(3)).is_ok());
    assert!(may_reopen(&dir(3)).is_ok());
    assert_eq!(reopen_inspected(&file(3), &file(3)), Ok(()));
    assert_eq!(reopen_inspected(&file(3), &file(4)), Err(LockError::ReopenChanged));
    assert_eq!(
        LockError::DataAccess.text("", ""),
        "refusing data access to a non-regular, non-directory inode"
    );
    assert_eq!(LockError::ReopenChanged.text("", ""), "inspected inode changed during reopen");
}

#[test]
fn a_present_master_has_to_be_reachable_as_it_is_spelled() {
    assert_eq!(check_traversal(true, true), Ok(()));
    assert_eq!(check_traversal(false, false), Ok(()));
    assert_eq!(check_traversal(true, false), Err(LockError::Untraversable));
    assert_eq!(
        LockError::Untraversable.text("", ""),
        "requested master spelling cannot be traversed"
    );
}

#[test]
fn files_of_the_tree_take_the_owner_of_the_master() {
    let root = FileFacts { uid: 7, ..dir(9) };
    assert_eq!(owner_metadata(&Probe::Found(file(5)), &root), Ok(file(5)));
    assert_eq!(owner_metadata(&Probe::Missing, &root), Ok(root));
    assert_eq!(owner_metadata(&Probe::Found(dir(5)), &root), Err(LockError::OwnerNotRegular));
    assert_eq!(owner_metadata(&Probe::Failed, &root), Err(LockError::OwnerUnreadable));
    assert_eq!(LockError::OwnerNotRegular.text("", ""), "master config must be a regular file");
    assert_eq!(LockError::OwnerUnreadable.text("", ""), "inspect canonical master ownership");
}

#[test]
fn a_missing_directory_is_created_by_writers_alone() {
    assert!(creates_directory(true, true));
    assert!(!creates_directory(false, true));
    assert!(!creates_directory(true, false));
}

#[test]
fn existing_and_missing_master_aliases_converge_and_contend() {
    for master in [None, Some(file(5))] {
        let canonical = path("/srv/real/config.toml");
        let held = ConfigTreeIdentity::resolve_from(
            &octets("/srv/real/config.toml"),
            &canonical,
            &master,
            &found_dir(),
        )
        .unwrap();
        for alias in [
            "/srv/real/config.toml",
            "../../srv/real/config.toml",
            "/srv/real/nested/.././config.toml",
            "/srv/parent-alias/config.toml",
            "/srv/master-alias",
        ] {
            let other =
                ConfigTreeIdentity::resolve_from(&octets(alias), &canonical, &master, &found_dir())
                    .unwrap();
            assert!(other.same(&held), "{alias}");
            assert!(held.verify_master_from(&other).is_ok());
        }
        assert_eq!(spelling(&held.lock_path), "/srv/real/.warden-config.lock");
        assert_eq!(spelling(&held.txn_dir), "/srv/real/.warden-migration");
        assert_eq!(spelling(&held.root), "/srv/real");
    }
}

#[test]
fn missing_suffix_and_dangling_target_follow_existing_parent_aliases() {
    let probes = vec![Probe::Missing, Probe::Missing, Probe::Found(dir(4))];
    let id = ConfigTreeIdentity::resolve_from(
        &octets("/srv/master-link"),
        &path("/srv/real/new/deep/config.toml"),
        &None,
        &probes,
    )
    .unwrap();
    assert_eq!(spelling(&id.canonical_master), "/srv/real/new/deep/config.toml");
    assert_eq!(spelling(&id.anchor), "/srv/real");
    assert_eq!(id.anchor_inode, (1, 4));
    let plan: Vec<(String, bool)> =
        id.open_plan().iter().map(|s| (spelling(&s.path), s.read)).collect();
    assert_eq!(
        plan,
        vec![
            ("/".to_string(), false),
            ("/srv".to_string(), false),
            ("/srv/real".to_string(), false),
            ("/srv/real/new".to_string(), false),
            ("/srv/real/new/deep".to_string(), true),
        ]
    );
}

#[test]
fn the_anchor_is_the_nearest_directory() {
    let resolve = |probes: Vec<Probe>| {
        ConfigTreeIdentity::resolve_from(
            &octets("/a/b/config.toml"),
            &path("/a/b/config.toml"),
            &None,
            &probes,
        )
    };
    let missing = Probe::Missing;
    let id = resolve(vec![missing, missing, Probe::Found(dir(2))]).unwrap();
    assert_eq!(spelling(&id.anchor), "/");
    assert_eq!(resolve(vec![missing, missing, missing]).unwrap_err(), LockError::NoAncestor);
    assert_eq!(resolve(vec![]).unwrap_err(), LockError::NoAncestor);
    assert_eq!(
        resolve(vec![missing, Probe::Found(file(1))]).unwrap_err(),
        LockError::AncestorNotDirectory
    );
    assert_eq!(resolve(vec![missing, Probe::Failed]).unwrap_err(), LockError::Unreadable);
    assert_eq!(LockError::Unreadable.text("/a", "Permission denied"), "Permission denied");
}

#[test]
fn editor_recapture_admits_one_regular_rename_then_keeps_swap_rejection() {
    let g = guard("/etc/config.toml");
    let replacement = Some(file(50));
    assert_eq!(
        g.recapture_canonical_master_after_editor(&file(6), &replacement, false),
        Ok(Recapture::Keep)
    );
    assert!(capture_master(&replacement, &replacement).is_ok());
    assert_eq!(capture_master(&replacement, &Some(file(51))), Err(LockError::MasterReplaced));
}

#[test]
fn editor_recapture_normalizes_owner_to_the_admitted_side_lock() {
    let owned = |uid: u32, gid: u32, f: FileFacts| FileFacts { uid, gid, ..f };
    let facts = SideLockFacts {
        captured: Some(owned(65534, 65534, file(5))),
        opened: owned(65534, 65534, file(6)),
        current: owned(65534, 65534, file(6)),
        ..side_facts()
    };
    let g = ConfigWriteLock::acquire(
        identity("/etc/config.toml"),
        octets("/etc/config.toml"),
        &facts,
    )
    .unwrap();
    let side = owned(65534, 65534, file(6));
    for owner in [(0, 65534), (65534, 0), (0, 0)] {
        let leaf = owned(owner.0, owner.1, file(7));
        assert_eq!(
            g.recapture_canonical_master_after_editor(&side, &Some(leaf), true),
            Ok(Recapture::Chown(65534, 65534))
        );
        assert!(g.recapture_owner(&owned(65534, 65534, file(7))).is_ok());
        assert_eq!(
            g.recapture_canonical_master_after_editor(&side, &Some(leaf), false),
            Ok(Recapture::Keep)
        );
        assert_eq!(g.recapture_owner(&leaf), Err(LockError::EditorOwner(65534, 65534)));
    }
    let message = LockError::EditorOwner(65534, 65534).text("/etc/config.toml", "");
    assert_eq!(
        message,
        "editor replacement owner does not match admitted config lock owner 65534:65534: \
         /etc/config.toml"
    );
}

#[test]
fn editor_recapture_rejects_unsafe_canonical_leaves() {
    let g = guard("/etc/config.toml");
    let other = FileFacts { regular: false, ..file(7) };
    for (kind, leaf, refusal) in [
        ("absent", None, LockError::EditorRemoved),
        ("symlink", Some(other), LockError::EditorReplacement),
        ("hardlink", Some(FileFacts { links: 2, ..file(7) }), LockError::EditorReplacement),
        ("directory", Some(dir(7)), LockError::EditorReplacement),
        ("fifo", Some(other), LockError::EditorReplacement),
        ("socket", Some(other), LockError::EditorReplacement),
    ] {
        for privileged in [false, true] {
            assert_eq!(
                g.recapture_canonical_master_after_editor(&file(6), &leaf, privileged),
                Err(refusal),
                "{kind} canonical leaf was admitted"
            );
        }
    }
    let loose = FileFacts { mode: 0o100644, ..file(6) };
    assert_eq!(
        g.recapture_canonical_master_after_editor(&loose, &Some(file(7)), false),
        Err(LockError::SideLockChanged)
    );
    assert_eq!(g.admitted_side_lock_owner(&file(6)), Ok((1000, 1000)));
    assert_eq!(g.admitted_side_lock_owner(&loose), Err(LockError::SideLockChanged));
}

#[test]
fn contended_acquisition_waits_for_its_deadline() {
    let wait = 25 * MILLI;
    let mut clock: u128 = 0;
    let mut polls = 0;
    loop {
        match flock_until(Attempt::Held, clock, wait) {
            LockStep::Sleep(nap) => {
                assert!(nap <= LOCK_POLL);
                clock += if nap == 0 { 1 } else { nap };
                polls += 1;
            }
            step => {
                assert_eq!(step, LockStep::TimedOut);
                break;
            }
        }
    }
    assert!(clock >= wait);
    assert_eq!(polls, 4);
    let message = LockError::TimedOut.text("", "25ms");
    assert_eq!(message, "another warden process holds the config tree lock (waited 25ms)");
}

#[test]
fn a_lock_attempt_ends_as_it_went() {
    assert_eq!(flock_until(Attempt::Taken, 99, 0), LockStep::Done);
    assert_eq!(flock_until(Attempt::Interrupted, 99, 0), LockStep::Again);
    assert_eq!(flock_until(Attempt::Failed, 0, 99), LockStep::Fail);
    assert_eq!(flock_until(Attempt::Held, 0, LOCK_DEADLINE), LockStep::Sleep(LOCK_POLL));
    assert_eq!(flock_until(Attempt::Held, 0, 3), LockStep::Sleep(3));
    assert_eq!(flock_until(Attempt::Held, 4, 3), LockStep::TimedOut);
    assert_eq!(remaining_wait(10, 3), 7);
    assert_eq!(remaining_wait(10, 30), 0);
}

#[test]
fn unsafe_side_lock_types_links_and_modes_are_refused_without_repair() {
    let owner = file(5);
    let refused = Err(LockError::UnsafeLock(1000, 1000));
    assert_eq!(validate_lock(&FileFacts { regular: false, ..file(6) }, &owner), refused);
    assert_eq!(validate_lock(&FileFacts { links: 2, ..file(6) }, &owner), refused);
    assert_eq!(validate_lock(&dir(6), &owner), refused);
    for mode in [0o000, 0o400, 0o200, 0o700, 0o640, 0o666, 0o1600, 0o2600, 0o4600] {
        let lock = FileFacts { mode: 0o100000 | mode, ..file(6) };
        assert_eq!(validate_lock(&lock, &owner), refused, "mode {mode:o}");
    }
    assert_eq!(validate_lock(&file(6), &owner), Ok(()));
}

#[test]
fn invalid_master_spellings_cycles_and_substituted_roots_are_refused() {
    for bad in ["", "/", "/..", "..", "/srv/missing/.", "/srv/missing/"] {
        let refused =
            ConfigTreeIdentity::resolve_from(&octets(bad), &path("/srv/x"), &None, &found_dir());
        assert_eq!(refused.unwrap_err(), LockError::NamesNoFile, "{bad}");
    }
    for bad in ["/../../config.toml", "/.././etc/config.toml", "//./../config.toml"] {
        let refused = ConfigTreeIdentity::resolve_from(
            &octets(bad),
            &path("/config.toml"),
            &None,
            &found_dir(),
        );
        let refusal = refused.unwrap_err();
        assert_eq!(refusal, LockError::AboveRoot, "{bad}");
        assert_eq!(
            refusal.text(bad, ""),
            format!("config path leads above the filesystem root: {bad}")
        );
    }
    for good in ["../../config.toml", "/srv/../config.toml", "/..srv/config.toml"] {
        let id = ConfigTreeIdentity::resolve_from(
            &octets(good),
            &path("/config.toml"),
            &None,
            &found_dir(),
        );
        assert!(id.is_ok(), "{good}");
    }
    assert_eq!(check_spelling(&octets("")), Err(LockError::NamesNoFile));
    assert_eq!(check_spelling(&octets("/..")), Err(LockError::NamesNoFile));
    assert_eq!(check_spelling(&octets("config.toml")), Ok(()));
    let directory = ConfigTreeIdentity::resolve_from(
        &octets("/srv"),
        &path("/srv"),
        &Some(dir(3)),
        &found_dir(),
    );
    assert_eq!(directory.unwrap_err(), LockError::NonRegularMaster);
    let nowhere =
        ConfigTreeIdentity::resolve_from(&octets("/srv/x"), &path("/"), &None, &found_dir());
    assert_eq!(nowhere.unwrap_err(), LockError::NoParent);

    let id = identity("/srv/root/config.toml");
    assert_eq!(id.check_anchor(&path("/srv/root"), &dir(9)), Ok(()));
    assert_eq!(id.check_anchor(&path("/srv/root"), &dir(10)), Err(LockError::RootChanged));
    assert_eq!(id.check_anchor(&path("/srv"), &dir(10)), Ok(()));
}

#[test]
fn a_root_that_moved_while_it_was_opened_is_refused() {
    let first = identity("/srv/root/config.toml");
    let again = identity("/srv/root/config.toml");
    assert_eq!(first.root_unchanged(&again, &dir(9)), Ok(()));
    assert_eq!(first.root_unchanged(&again, &dir(8)), Err(LockError::RootReplaced));
    let moved = identity("/srv/other/config.toml");
    assert_eq!(first.root_unchanged(&moved, &dir(9)), Err(LockError::IdentityChanged));
    assert_eq!(first.verify_master_from(&moved), Err(LockError::ForeignGuard));
    let far = ConfigTreeIdentity::resolve_from(
        &octets("/srv/root/config.toml"),
        &path("/srv/root/config.toml"),
        &None,
        &vec![Probe::Missing, Probe::Found(dir(9))],
    )
    .unwrap();
    assert_eq!(first.root_unchanged(&far, &dir(9)), Err(LockError::RootReplaced));
}

#[test]
fn root_created_lock_inherits_master_owner_and_rejects_existing_wrong_owner() {
    let master = FileFacts { uid: 65534, gid: 65534, ..file(5) };
    let owner = lock_owner(&Some(master), &dir(9));
    assert_eq!((owner.uid, owner.gid), (65534, 65534));
    let rooted = lock_owner(&None, &dir(9));
    assert_eq!((rooted.uid, rooted.gid), (1000, 1000));
    let inherited = FileFacts { uid: 65534, gid: 65534, ..file(6) };
    assert_eq!(validate_lock(&inherited, &owner), Ok(()));
    let wrong = FileFacts { uid: 0, gid: 0, ..file(6) };
    assert_eq!(validate_lock(&wrong, &owner), Err(LockError::UnsafeLock(65534, 65534)));
}

#[test]
fn reserved_alias_spellings_cannot_bypass_the_namespace_policy() {
    for name in [
        ".warden-config.lock",
        ".warden-migration",
        ".warden-migration.cleanup-obsolete",
        ".warden-write-obsolete",
    ] {
        let reserved = format!("/etc/{name}");
        for (canonical, master) in [
            ("/etc/config.toml", Some(file(5))),
            ("/etc/config.toml", None),
            (reserved.as_str(), None),
        ] {
            let refused = ConfigTreeIdentity::resolve_from(
                &octets(&reserved),
                &path(canonical),
                &master,
                &found_dir(),
            );
            assert_eq!(refused.unwrap_err(), LockError::Reserved, "{name} to {canonical}");
        }
    }
    assert!(begins_with(&octets(".warden-migration.cleanup-x"), CLEANUP_DIR_PREFIX));
    assert!(reserved_component(&octets_of_text(FINALIZED_DIR_PREFIX)));
}

#[test]
fn master_capture_rejects_regular_replacement_and_unexpected_creation() {
    for before in [None, Some(file(5))] {
        let error = capture_master(&before, &Some(file(77))).unwrap_err();
        assert!(error.text("", "").contains("between identity verification and capture"));
        let facts = SideLockFacts {
            captured: before,
            verified: before,
            recaptured: Some(file(77)),
            ..side_facts()
        };
        assert_eq!(check_side_lock(&facts), Err(LockError::MasterReplaced));
    }
    assert!(capture_master(&None, &None).is_ok());
    assert!(!same_optional_inode(&Some(file(5)), &None));
}

#[test]
fn a_side_lock_is_held_to_its_file_and_its_master() {
    assert_eq!(check_side_lock(&side_facts()), Ok((1000, 1000)));
    let swapped = SideLockFacts { current: file(60), ..side_facts() };
    assert_eq!(check_side_lock(&swapped), Err(LockError::LockInodeChanged));
    let changed = SideLockFacts { verified: Some(file(50)), ..side_facts() };
    assert_eq!(check_side_lock(&changed), Err(LockError::MasterChanged));
    let loose = SideLockFacts { current: FileFacts { mode: 0o100644, ..file(6) }, ..side_facts() };
    assert_eq!(check_side_lock(&loose), Err(LockError::UnsafeLock(1000, 1000)));
    let refused = ConfigWriteLock::acquire(identity("/etc/c"), octets("/etc/c"), &loose);
    assert_eq!(refused.unwrap_err(), LockError::UnsafeLock(1000, 1000));
}

#[test]
fn a_guard_knows_its_own_tree() {
    let g = guard("/etc/warden/config.toml");
    assert_eq!(spelling(g.path()), "/etc/warden/.warden-config.lock");
    assert_eq!(spelling(g.canonical_master()), "/etc/warden/config.toml");
    assert!(g.identity().same(&identity("/etc/warden/config.toml")));
    let other = identity("/srv/config.toml");
    assert!(g.verify_master(&octets("/etc/warden/config.toml"), &octets("x"), &other).is_ok());
    assert!(g.verify_master(&octets("/y"), &octets("/etc/warden/config.toml"), &other).is_ok());
    assert!(g
        .verify_master(&octets("/y"), &octets("z"), &identity("/etc/warden/config.toml"))
        .is_ok());
    assert_eq!(
        g.verify_master(&octets("/y"), &octets("z"), &other),
        Err(LockError::ForeignGuard)
    );
    let alias = admitted_parent_alias(&octets("/alias"), &path("/etc/warden"), g.identity());
    assert_eq!(alias, Some(octets("/alias")));
    assert_eq!(admitted_parent_alias(&octets("/alias"), &path("/etc"), g.identity()), None);
}

#[test]
fn locked_writer_rejects_a_guard_from_another_tree_before_change() {
    let g = guard("/other/config.toml");
    let target = identity("/target/config.toml");
    let asked = octets("/target/config.toml");
    match write_config_v1_locked(&g, &asked, &asked, &target, &Ok(())) {
        Err(WriteRefusal::Lock(e)) => {
            let message = e.text("/other/config.toml", "/target/config.toml");
            assert_eq!(message, "config guard belongs to /other/config.toml, not /target/config.toml");
        }
        other => panic!("a foreign guard was taken: {other:?}"),
    }
}

#[test]
fn locked_writer_validation_failure_preserves_existing_or_absent_master() {
    let g = guard("/etc/config.toml");
    let asked = octets("/etc/config.toml");
    let id = identity("/etc/config.toml");
    let found = Err(vec!["profile ghost is not defined".to_string(), "second".to_string()]);
    match write_config_v1_locked(&g, &asked, &asked, &id, &found) {
        Err(WriteRefusal::Invalid(text)) => {
            assert!(text.contains("ghost"), "{text}");
            assert_eq!(text, "validation failed: profile ghost is not defined; second");
        }
        other => panic!("an invalid configuration was taken: {other:?}"),
    }
    assert!(write_config_v1_locked(&g, &asked, &asked, &id, &Ok(())).is_ok());
    assert!(validation_outcome(&Ok(())).is_ok());
    assert_eq!(validation_outcome(&Err(vec![])).unwrap_err(), "validation failed: ");
}

#[test]
fn paths_are_split_at_their_slashes() {
    let parts = |text: &str| -> Vec<String> {
        split_path(&octets(text)).into_iter().map(|p| String::from_utf8(p).unwrap()).collect()
    };
    assert_eq!(parts("/a/b//c"), vec!["", "a", "b", "", "c"]);
    assert_eq!(parts("/"), vec!["", ""]);
    assert_eq!(parts(""), vec![""]);
    assert!(has_file_name(&octets("/a/b")));
    assert!(has_file_name(&octets("a/.")));
    assert!(!has_file_name(&octets("/a/..")));
    assert!(!has_file_name(&octets("")));
    assert!(ends_in_a_name(&octets("/a/b")));
    assert!(!ends_in_a_name(&octets("/a/b/")));
    assert!(!ends_in_a_name(&octets("/a/.")));
    assert_eq!(spelling(&path("/a/b").join("c")), "/a/b/c");
    assert_eq!(spelling(&path("/a/b").first(1)), "/a");
    assert_eq!(spelling(&path("/")), "/");
    assert!(path("/a/b").same(&path("//a/b/").copy()));
    assert!(!path("/a/b").same(&path("/a")));
}

#[test]
fn a_reserved_name_anywhere_in_the_spelling_is_refused() {
    for bad in ["/etc/.warden-migration/../config.toml", ".warden-write-1/config.toml"] {
        let refused = ConfigTreeIdentity::resolve_from(
            &octets(bad),
            &path("/etc/config.toml"),
            &Some(file(5)),
            &found_dir(),
        );
        assert_eq!(refused.unwrap_err(), LockError::Reserved, "{bad}");
    }
    assert!(leads_through_reserved(&split_path(&octets("/etc/.warden-config.lock"))));
    assert!(!leads_through_reserved(&split_path(&octets("/etc/warden-config.lock"))));
}

#[test]
fn the_side_lock_is_opened_only_by_a_writer_who_holds_the_root() {
    let root = |exclusive, attempt| next_move(LockPhase::Root, exclusive, attempt, 0, 5);
    assert_eq!(root(true, Attempt::Taken), LockMove::OpenSide);
    assert_eq!(root(false, Attempt::Taken), LockMove::Hold);
    assert_eq!(root(true, Attempt::Held), LockMove::Sleep(5));
    assert_eq!(root(true, Attempt::Interrupted), LockMove::Again);
    assert_eq!(root(true, Attempt::Failed), LockMove::Fail);
    assert_eq!(
        next_move(LockPhase::Side, true, Attempt::Taken, 9, 5),
        LockMove::Hold
    );
    for phase in [LockPhase::Root, LockPhase::Side] {
        assert_eq!(next_move(phase, true, Attempt::Held, 6, 5), LockMove::TimedOut);
        assert_eq!(next_move(phase, true, Attempt::Held, 5, 5), LockMove::Sleep(0));
    }
}

#[test]
fn a_side_lock_that_was_replaced_is_reported_as_changed() {
    let replaced = SideLockFacts { opened: file(6), current: file(61), ..side_facts() };
    assert_eq!(check_side_lock(&replaced), Err(LockError::LockInodeChanged));
}
