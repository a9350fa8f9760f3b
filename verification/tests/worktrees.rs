//! Worktrees made for sessions: naming, making, registering, filling and removing them.

use copilot_session_tui::paths::{
    is_absolute, is_safe_relative_path, join_path, path_file_name, path_parent,
};
use copilot_session_tui::session::cleanup::{
    branch_deletion_args, branch_tip, conclude_rollback, delete_branch_if_owned, expected_of_entry,
    finish_branch_deletion, finish_removal, finish_rollback, identity_marker, plan_reserved_rollback,
    remove_managed_worktree, rollback_created_worktree, rollback_reserved_creation,
    validate_worktree_identity, worktree_identity_path, BranchCleanup, BranchPlan, IdentityFacts,
    MarkerFacts, WorktreeIdentity,
};
use copilot_session_tui::session::creation::{
    create_managed_worktree, creation_command, plan_creation, CreatedWorktree, CreationEvent,
    CreationFacts, CreationPlan, CreationStage,
};
use copilot_session_tui::session::includes::{
    copy_worktree_includes, hash_content, included_files_are_dirty, included_state, is_dirty,
    no_includes, nul_paths, scan_includes, WorktreeIncludeState,
};
use copilot_session_tui::session::manager::{
    delete_managed_session, failed_worktree_launch, start_worktree_session, worktree_announcement,
    CopilotProbe, UserConfig,
};
use copilot_session_tui::session::registry::{
    finalize_creation, load_registry, lock_step, managed_worktree_for_cwd, registry_path,
    release_reservation, reserve_creation, unregister, IncludedFileState, LockAttempt, LockStep,
    ManagedWorktree, WorktreeRegistry, WorktreeReservation, REGISTRY_VERSION,
};
use copilot_session_tui::session::worktree::{
    branch_exists, canonicalize_or_absolute, command_error, derive_worktree_path, filesystem_slug,
    generated_branch_name, git_stdout, main_worktree_of, prefix_probe, relative_path_key,
    resolve_base, resolve_repository, resolve_repository_root, short_hash, strip_windows_prefix,
    validate_branch, validate_branch_prefix, validate_branch_syntax, CommandOutput, Failure,
    Repository, ResolvedPaths,
};

type Ran = Result<CommandOutput, Failure>;

fn printed(stdout: &str) -> Ran {
    Ok(CommandOutput {
        success: true,
        code: Some(0),
        stdout: stdout.as_bytes().to_vec(),
        stderr: Vec::new(),
    })
}

fn complained(code: i32, stderr: &str) -> Ran {
    Ok(CommandOutput {
        success: false,
        code: Some(code),
        stdout: Vec::new(),
        stderr: stderr.as_bytes().to_vec(),
    })
}

fn paths() -> ResolvedPaths {
    ResolvedPaths { pairs: Vec::new(), windows: false }
}

fn repository() -> Repository {
    Repository { main_worktree: "/repo".to_string(), common_git_dir: "/repo/.git".to_string() }
}

fn facts(remote: Ran, shown: Ran) -> CreationFacts {
    CreationFacts {
        project: Ok(repository()),
        checked: printed(""),
        main: Ok(repository()),
        shown,
        remote,
        head: printed("0123456789abcdef\n"),
    }
}

fn no_branch() -> Ran {
    complained(1, "")
}

fn plan(branch: &str) -> CreationPlan {
    plan_creation(branch, "/wt", &facts(printed("fedcba\n"), no_branch()), &paths()).unwrap()
}

/// Goes through the steps of making a worktree; `fails_at` names a stage whose step fails.
fn make(plan: &CreationPlan, fails_at: &str) -> (Result<CreatedWorktree, Failure>, Vec<String>) {
    let mut stage = CreationStage::Reserve;
    let mut seen = Vec::new();
    loop {
        let name = format!("{stage:?}");
        let name = name.split(['(', ' ']).next().unwrap().to_string();
        seen.push(name.clone());
        let failed = name == fails_at;
        let done = if failed { Err(Failure::of("injected failure".to_string())) } else { Ok(()) };
        let output = if failed { complained(128, "fatal: no") } else { printed("") };
        let event = match &stage {
            CreationStage::Finished(_) => break,
            CreationStage::ReserveBranch
            | CreationStage::AddWorktree
            | CreationStage::Populate => {
                assert!(creation_command(plan, &stage).is_some());
                CreationEvent::Output(output)
            }
            CreationStage::Initialize => CreationEvent::Included(done.map(|_| no_includes())),
            _ => CreationEvent::Done(done),
        };
        stage = create_managed_worktree(plan, stage, event, false);
    }
    match stage {
        CreationStage::Finished(result) => (result, seen),
        _ => unreachable!(),
    }
}

fn entry(path: &str, branch: &str) -> ManagedWorktree {
    ManagedWorktree {
        path: path.to_string(),
        source_repository: "/repo".to_string(),
        common_git_dir: "/repo/.git".to_string(),
        branch: branch.to_string(),
        identity: "identity-1".to_string(),
        include_patterns: None,
        included_files: Vec::new(),
    }
}

fn reservation(identity: &str, branch: &str) -> WorktreeReservation {
    WorktreeReservation {
        identity: identity.to_string(),
        path: format!("/wt/{identity}"),
        source_repository: "/repo".to_string(),
        common_git_dir: "/repo/.git".to_string(),
        branch: branch.to_string(),
        base_oid: "0123".to_string(),
    }
}

fn empty_registry() -> WorktreeRegistry {
    WorktreeRegistry {
        version: REGISTRY_VERSION,
        worktrees: Vec::new(),
        reservations: Vec::new(),
    }
}

fn registry_with(entry: ManagedWorktree) -> WorktreeRegistry {
    WorktreeRegistry { worktrees: vec![entry], ..empty_registry() }
}

fn seen(marker: MarkerFacts) -> IdentityFacts {
    IdentityFacts {
        repository: Ok(repository()),
        marker,
        current_branch: printed("copilot/x\n"),
        head: printed("0123\n"),
        tip: printed("0123\n"),
    }
}

fn mark(branch: &str) -> WorktreeIdentity {
    WorktreeIdentity {
        identity: "identity-1".to_string(),
        source_repository: "/repo".to_string(),
        common_git_dir: "/repo/.git".to_string(),
        branch: branch.to_string(),
    }
}

#[test]
fn generated_paths_are_safe_bounded_and_collision_resistant() {
    let root = "/tmp/worktrees";
    let first = derive_worktree_path(
        root,
        "C:\\repo",
        "C:\\repo\\.git",
        "feature/a:b*long-name",
        false,
    )
    .unwrap();
    let second = derive_worktree_path(
        root,
        "C:\\repo",
        "C:\\repo\\.git",
        "feature/a?b*long-name",
        false,
    )
    .unwrap();

    assert_ne!(first, second);
    assert!(first.encode_utf16().count() <= 240);
    let derived = first.strip_prefix(root).unwrap();
    assert!(!derived.contains(':'));
    assert!(!derived.contains('*'));
}

#[test]
fn generated_branch_uses_configured_prefix_and_valid_git_syntax() {
    let branch = generated_branch_name("copilot/", "20260806-120000");
    assert!(branch.starts_with("copilot/"));
    validate_branch_syntax(&branch, &printed("")).unwrap();
    validate_branch_prefix("feature/", &printed("")).unwrap();
    assert!(prefix_probe("feature/").starts_with("feature/"));
    let bad = complained(128, "fatal: 'bad..prefix/x' is not a valid branch name");
    assert!(validate_branch_prefix("bad..prefix/", &bad).is_err());
}

#[test]
fn creates_from_cached_origin_head() {
    let plan = plan("copilot/remote");
    assert_eq!(plan.reservation.base_oid, "fedcba");

    let (created, _) = make(&plan, "");

    let created = created.unwrap();
    assert!(created.notice.is_none());
    assert_eq!(created.entry.branch, "copilot/remote");
    assert_eq!(created.entry.path, plan.reservation.path);
    assert_eq!(created.entry.identity, plan.reservation.identity);
}

#[test]
fn falls_back_to_current_head_with_notice() {
    let seen = facts(complained(128, "fatal: Needed a single revision"), no_branch());
    let plan = plan_creation("copilot/fallback", "/wt", &seen, &paths()).unwrap();
    let (created, _) = make(&plan, "");

    assert!(created.unwrap().notice.unwrap().contains("current HEAD"));
    assert_eq!(plan.reservation.base_oid, "0123456789abcdef");
    let nothing = resolve_base(&complained(128, "no"), &complained(128, "no HEAD"));
    assert!(nothing.is_err());
}

#[test]
fn rejects_existing_branch_collision() {
    let seen = facts(printed("fedcba\n"), printed("fedcba refs/heads/copilot/existing\n"));

    let error = plan_creation("copilot/existing", "/wt", &seen, &paths()).unwrap_err().shown();

    assert!(error.contains("Branch already exists"), "{error}");
    assert_eq!(branch_exists("a", &printed("")).ok(), Some(true));
    assert_eq!(branch_exists("a", &no_branch()).ok(), Some(false));
    assert!(branch_exists("a", &complained(128, "fatal")).is_err());
    let main = Ok(repository());
    assert!(validate_branch("a", &printed(""), &main, &no_branch()).is_ok());
}

#[test]
fn initialization_failure_rolls_back_worktree_and_branch() {
    let (result, stages) = make(&plan("copilot/fail"), "Initialize");

    let failure = result.unwrap_err();
    assert_eq!(
        failure.messages,
        ["Creation was rolled back", "Worktree initialization failed", "injected failure"]
    );
    assert!(stages.contains(&"RollBack".to_string()), "{stages:?}");
    assert!(!stages.contains(&"Register".to_string()), "{stages:?}");
}

#[test]
fn a_failure_before_the_branch_only_gives_the_reservation_up() {
    let (result, stages) = make(&plan("copilot/early"), "ReserveBranch");
    assert!(result.is_err());
    assert!(stages.contains(&"Release".to_string()), "{stages:?}");
    let (result, stages) = make(&plan("copilot/taken"), "Reserve");
    assert!(result.is_err());
    assert_eq!(stages, ["Reserve", "Finished"]);
}

#[test]
fn concurrent_creation_keeps_the_successful_worktree_and_branch() {
    // Both reserve under one lock, one after the other: the second finds the place taken.
    let mut registry = empty_registry();
    let first = plan("copilot/concurrent").reservation;
    let second = plan("copilot/concurrent").reservation;
    assert_ne!(first.identity, second.identity);
    let listing = || Ok("worktree /repo\n".to_string());
    reserve_creation(&mut registry, &first, false, listing(), &paths()).unwrap();
    assert!(reserve_creation(&mut registry, &second, false, listing(), &paths()).is_err());

    let made = ManagedWorktree {
        identity: first.identity.clone(),
        path: first.path.clone(),
        ..entry("", "copilot/concurrent")
    };
    finalize_creation(&mut registry, &first, &made, Ok("0123".to_string()), &paths()).unwrap();
    assert_eq!(registry.worktrees.len(), 1);
    assert!(registry.reservations.is_empty());
}

#[test]
fn dirty_worktree_requires_force_and_clean_deletion_removes_branch() {
    let entry = entry("/wt/dirty", "copilot/dirty");
    let registry = registry_with(entry.clone());
    let identity = || Ok("0123".to_string());

    assert!(
        remove_managed_worktree(&registry, &entry, false, Ok(true), identity(), &paths()).is_err()
    );
    let plan =
        remove_managed_worktree(&registry, &entry, true, Ok(true), identity(), &paths()).unwrap();
    assert_eq!(plan.args, ["worktree", "remove", "--force", "/wt/dirty"]);
    let branch = delete_branch_if_owned(
        "copilot/dirty",
        &plan.branch_oid,
        true,
        &printed("0123\n"),
        &printed("worktree /repo\nbranch refs/heads/main\n"),
        &printed(""),
    )
    .unwrap();
    assert!(matches!(branch, BranchPlan::Delete(_)));
    let cleanup = finish_branch_deletion(&printed(""));
    let outcome = finish_removal(&entry, &printed(""), cleanup).unwrap();
    assert!(outcome.branch_removed);
}

#[test]
fn reused_path_with_different_identity_is_never_deleted() {
    let entry = entry("/wt/original", "copilot/original");
    let registry = registry_with(entry.clone());
    let unmarked = MarkerFacts::Unavailable {
        path: "/repo/.git/worktrees/original/cst-identity.json".to_string(),
        cause: Failure::of("No such file or directory".to_string()),
    };
    let identity =
        validate_worktree_identity(&expected_of_entry(&entry), &seen(unmarked), &paths());

    let error = remove_managed_worktree(&registry, &entry, true, Ok(false), identity, &paths())
        .unwrap_err()
        .shown();
    assert!(error.contains("identity marker"), "{error}");

    let mut other = mark("copilot/original");
    other.identity = "identity-2".to_string();
    let identity = validate_worktree_identity(
        &expected_of_entry(&entry),
        &seen(MarkerFacts::Read(other)),
        &paths(),
    );
    assert!(identity.is_err());
}

#[test]
fn a_marked_worktree_is_recognised() {
    let expected = expected_of_entry(&entry("/wt/x", "copilot/x"));
    let identity = validate_worktree_identity(
        &expected,
        &seen(MarkerFacts::Read(mark("copilot/x"))),
        &paths(),
    );
    assert_eq!(identity.unwrap(), "0123");
    let marker = identity_marker(&reservation("identity-1", "copilot/x"));
    assert_eq!((marker.identity.as_str(), marker.branch.as_str()), ("identity-1", "copilot/x"));
    assert!(worktree_identity_path("/repo/.git/worktrees/x", false).starts_with("/repo/.git/"));
}

#[test]
fn unmerged_branch_is_preserved_after_worktree_removal() {
    let entry = entry("/wt/unmerged", "copilot/unmerged");
    let plan = delete_branch_if_owned(
        "copilot/unmerged",
        "0123",
        true,
        &printed("0123\n"),
        &printed("worktree /repo\nbranch refs/heads/main\n"),
        &complained(1, ""),
    )
    .unwrap();
    let BranchPlan::Settled(cleanup) = plan else {
        panic!("an unmerged branch stays");
    };

    let outcome = finish_removal(&entry, &printed(""), Ok(cleanup)).unwrap();
    assert!(!outcome.branch_removed);
    assert!(outcome.branch_notice.unwrap().contains("preserved"));
}

#[test]
fn a_branch_that_moved_or_is_in_use_stays() {
    let decide = |tip: Ran, listing: &str| {
        delete_branch_if_owned("b", "0123", false, &tip, &printed(listing), &printed("")).unwrap()
    };
    assert!(matches!(decide(printed("0123\n"), ""), BranchPlan::Delete(_)));
    assert!(matches!(
        decide(printed("4567\n"), ""),
        BranchPlan::Settled(BranchCleanup::Preserved(_))
    ));
    assert!(matches!(
        decide(printed("0123\n"), "branch refs/heads/b\n"),
        BranchPlan::Settled(BranchCleanup::Preserved(_))
    ));
    assert!(matches!(decide(no_branch(), ""), BranchPlan::Settled(BranchCleanup::Missing)));
    assert!(branch_tip("b", &complained(128, "fatal")).is_err());
}

#[test]
fn registry_prunes_stale_entries_and_does_not_own_manual_worktrees() {
    assert!(managed_worktree_for_cwd(&empty_registry(), "/tmp/manual", &paths()).is_none());

    let stale = entry("/tmp/missing", "stale");
    let (registry, changed) = load_registry(
        Some(registry_with(stale)),
        "/tmp/registry.json",
        &vec!["/tmp/missing".to_string()],
    )
    .unwrap();
    assert!(registry.worktrees.is_empty());
    assert!(changed);
    let mut newer = empty_registry();
    newer.version = REGISTRY_VERSION + 1;
    assert!(load_registry(Some(newer), "/tmp/registry.json", &Vec::new()).is_err());
    let (fresh, changed) = load_registry(None, "/tmp/registry.json", &Vec::new()).unwrap();
    assert!(fresh.worktrees.is_empty() && !changed);
}

#[test]
fn registry_lock_times_out_and_recovers_after_owner_exit() {
    assert!(matches!(lock_step(LockAttempt::Busy, 0, "/l"), LockStep::Sleep { millis: 25 }));
    let LockStep::GiveUp(error) = lock_step(LockAttempt::Busy, 5_000, "/l") else {
        panic!("second registry lock unexpectedly succeeded");
    };
    assert!(error.shown().contains("Timed out"));

    assert!(matches!(lock_step(LockAttempt::Locked, 6_000, "/l"), LockStep::Acquired));
    let failed = LockAttempt::Failed(Failure::of("denied".to_string()));
    assert!(matches!(lock_step(failed, 0, "/l"), LockStep::GiveUp(_)));
}

#[test]
fn concurrent_registry_mutations_preserve_both_reservations() {
    let first = reservation("first", "copilot/first");
    let second = reservation("second", "copilot/second");
    let mut registry = empty_registry();
    let listing = || Ok("worktree /repo\n".to_string());

    reserve_creation(&mut registry, &first, false, listing(), &paths()).unwrap();
    reserve_creation(&mut registry, &second, false, listing(), &paths()).unwrap();

    assert_eq!(registry.reservations.len(), 2);
    let identities: Vec<&str> =
        registry.reservations.iter().map(|held| held.identity.as_str()).collect();
    assert_eq!(identities, ["first", "second"]);

    release_reservation(&mut registry, &first).unwrap();
    assert_eq!(registry.reservations.len(), 1);
    assert!(release_reservation(&mut registry, &first).is_err());
}

#[test]
fn a_place_that_is_taken_is_not_reserved() {
    let wanted = reservation("first", "copilot/first");
    let mut registry = empty_registry();
    let listing = || Ok("worktree /repo\n".to_string());
    let exists = reserve_creation(&mut registry, &wanted, true, listing(), &paths());
    assert!(exists.unwrap_err().shown().contains("Worktree path already exists"));
    let listed = Ok("worktree /wt/first\n".to_string());
    let known = reserve_creation(&mut registry, &wanted, false, listed, &paths());
    assert!(known.unwrap_err().shown().contains("Git already has a worktree at"));
    assert!(registry.reservations.is_empty());
    let mut registry = registry_with(entry("/wt/first", "b"));
    assert!(reserve_creation(&mut registry, &wanted, false, listing(), &paths()).is_err());
    assert!(unregister(&mut registry, &entry("/wt/first", "b")));
    assert!(!unregister(&mut registry, &entry("/wt/first", "b")));
}

fn copied(content: &[u8]) -> ManagedWorktree {
    ManagedWorktree {
        include_patterns: Some(".env\ncache/\n".to_string()),
        included_files: vec![IncludedFileState {
            path: ".env".to_string(),
            sha256: hash_content(&content.to_vec()),
        }],
        ..entry("/wt/includes", "copilot/includes")
    }
}

fn dirty(entry: &ManagedWorktree, content: Option<&[u8]>, ignored: &str) -> bool {
    let in_git = printed(".gitignore\0.worktreeinclude\0tracked.txt\0");
    let contents = vec![Ok(content.map(|bytes| bytes.to_vec()))];
    let included = included_files_are_dirty(entry, &in_git, &contents, &printed(ignored), false);
    is_dirty(entry, true, &printed(""), included).unwrap()
}

#[test]
fn included_ignored_files_are_clean_until_changed_or_added() {
    let entry = copied(b"secret");
    assert_eq!(entry.included_files.len(), 1);
    assert!(!dirty(&entry, Some(b"secret"), ".env\0"));

    assert!(dirty(&entry, Some(b"changed"), ".env\0"));

    assert!(!dirty(&entry, Some(b"secret"), ".env\0"));
    assert!(dirty(&entry, Some(b"secret"), ".env\0cache/new.txt\0"));
    assert!(dirty(&entry, None, ""));
    assert!(!dirty(&entry, Some(b"secret"), ".env\0other.txt\0"));
}

#[test]
fn uncommitted_changes_make_a_worktree_dirty() {
    let plain = entry("/wt/plain", "b");
    assert!(is_dirty(&plain, true, &printed(" M tracked.txt\n"), Ok(false)).unwrap());
    assert!(!is_dirty(&plain, true, &printed(""), Ok(false)).unwrap());
    assert!(is_dirty(&plain, false, &printed(""), Ok(false)).is_err());
    assert!(is_dirty(&plain, true, &complained(128, "fatal"), Ok(false)).is_err());
    assert_eq!(
        hash_content(&b"abc".to_vec()),
        "ba7816bf8f01cfea414140de5dae2223b00361a396177a9cb410ff61f20015ad"
    );
}

fn texts(list: &[&str]) -> Vec<String> {
    list.iter().map(|text| text.to_string()).collect()
}

#[test]
fn tracked_include_destination_fails_setup_without_overwriting() {
    let scan = scan_includes(
        "/repo/.worktreeinclude",
        "collision.txt\n",
        &printed("collision.txt\0"),
        &printed("collision.txt\0"),
        false,
    )
    .unwrap();

    let error = copy_worktree_includes(
        &scan,
        &texts(&["collision.txt"]),
        &texts(&["collision.txt"]),
        "/repo",
        "/wt",
        false,
    )
    .unwrap_err();

    assert!(error.shown().contains("tracked target file"));
}

#[test]
fn worktreeinclude_copies_only_matching_ignored_files() {
    let ignored = [".env", "cache/keep.txt", "cache/skip.txt", "ignored.txt"];
    let scan = scan_includes(
        "/repo/.worktreeinclude",
        ".env\ncache/\n!cache/skip.txt\ntracked.txt\n",
        &printed(&(ignored.join("\0") + "\0")),
        &printed(""),
        false,
    )
    .unwrap();

    let copies =
        copy_worktree_includes(&scan, &texts(&ignored), &Vec::new(), "/repo", "/wt", false)
            .unwrap();

    let pairs: Vec<(&str, &str)> = copies
        .iter()
        .map(|copy| (copy.source.as_str(), copy.destination.as_str()))
        .collect();
    assert_eq!(
        pairs,
        [("/repo/.env", "/wt/.env"), ("/repo/cache/keep.txt", "/wt/cache/keep.txt")]
    );
    let state = included_state(
        ".env\n".to_string(),
        &copies,
        &vec![b"secret".to_vec(), b"keep".to_vec()],
    );
    assert_eq!(state.files[0].path, ".env");
    assert_eq!(state.files[0].sha256, hash_content(&b"secret".to_vec()));
    let WorktreeIncludeState { patterns, files } = no_includes();
    assert!(patterns.is_none() && files.is_empty());
}

#[test]
fn a_file_that_is_there_is_not_copied_over() {
    let scan = scan_includes("/i", ".env\n", &printed(".env\0"), &printed(""), false).unwrap();
    let env = texts(&[".env"]);
    let error = copy_worktree_includes(&scan, &env, &env, "/repo", "/wt", false).unwrap_err();
    assert!(error.shown().contains("existing target file"), "{}", error.shown());
    assert!(scan_includes("/i", "[z-a]\n", &printed(""), &printed(""), false).is_err());
    assert_eq!(nul_paths(&b"a\0b/c\0".to_vec()).unwrap(), ["a", "b/c"]);
    assert!(nul_paths(&b"\xff\0".to_vec()).is_err());
}

#[test]
fn a_created_worktree_can_be_unmade() {
    let made = entry("/wt/made", "copilot/made");
    let mut registry = registry_with(made.clone());
    let plan =
        rollback_created_worktree(&registry, &made, Ok("0123".to_string()), &paths()).unwrap();
    assert_eq!(plan.args, ["worktree", "remove", "--force", "/wt/made"]);
    let progress =
        finish_rollback(&mut registry, &made, &printed(""), Ok(BranchCleanup::Removed)).unwrap();
    assert!(progress.errors.is_empty() && progress.save);
    assert!(registry.worktrees.is_empty());
    assert!(conclude_rollback(progress, None, "registry cleanup failed: ").is_ok());
}

#[test]
fn a_reserved_worktree_can_be_unmade() {
    let held = reservation("first", "copilot/first");
    let mut registry = empty_registry();
    let listing = Ok("worktree /repo\n".to_string());
    reserve_creation(&mut registry, &held, false, listing, &paths()).unwrap();
    let identity = Ok("0123".to_string());
    assert_eq!(
        plan_reserved_rollback(&registry, &held, true, &identity).unwrap().unwrap(),
        ["worktree", "remove", "--force", held.path.as_str()]
    );
    assert_eq!(plan_reserved_rollback(&registry, &held, false, &identity).unwrap(), None);
    assert_eq!(
        branch_deletion_args("copilot/x", "0123"),
        ["update-ref", "-d", "refs/heads/copilot/x", "0123"]
    );
    let progress = rollback_reserved_creation(
        &mut registry,
        &held,
        &Some(printed("")),
        &Ok(BranchCleanup::Removed),
    );
    assert!(progress.errors.is_empty(), "{:?}", progress.errors);
    assert!(registry.reservations.is_empty());
    let failed = rollback_reserved_creation(
        &mut registry,
        &held,
        &Some(complained(1, "busy")),
        &Ok(BranchCleanup::Missing),
    );
    let unsaved = Some(Failure::of("disk full".to_string()));
    let message = "creation reservation cleanup failed: ";
    assert!(conclude_rollback(failed, unsaved, message).is_err());
}

#[test]
fn repositories_are_found_by_what_git_says() {
    let list = "worktree /repo\nHEAD 0123\nbranch refs/heads/main\n\nworktree /wt/x\n";
    assert_eq!(main_worktree_of(list).as_deref(), Some("/repo"));
    assert_eq!(main_worktree_of("nothing"), None);
    let found = resolve_repository(
        "/repo/src",
        &printed("/repo\n"),
        &printed(".git\n"),
        &printed(list),
        &paths(),
    )
    .unwrap();
    assert_eq!(found.main_worktree, "/repo");
    assert_eq!(found.common_git_dir, "/repo/.git");
    assert_eq!(resolve_repository_root(Ok(found)).unwrap(), "/repo");
    let outside = complained(128, "fatal: not a git repository");
    assert!(resolve_repository("/", &outside, &printed(""), &printed(""), &paths()).is_err());
    assert_eq!(git_stdout(&printed("  text \n")).unwrap(), "text");
    let quiet = CommandOutput {
        success: false,
        code: None,
        stdout: b"printed\n".to_vec(),
        stderr: Vec::new(),
    };
    assert_eq!(command_error(&quiet), "printed");
}

#[test]
fn names_for_directories_are_plain() {
    assert_eq!(filesystem_slug("Feature/A b", 40), "feature-a-b");
    assert_eq!(short_hash("abc", 8), "ba7816bf");
    assert_eq!(relative_path_key(r"a\B", false), "a/B");
    assert_eq!(relative_path_key(r"a\B", true), "a/b");
    assert_eq!(relative_path_key("É", true), "é");
    assert_eq!(strip_windows_prefix(r"\\?\C:\work"), r"C:\work");
    assert_eq!(strip_windows_prefix(r"\\?\UNC\server\share"), r"\\server\share");
    let here = Some("/here".to_string());
    assert_eq!(canonicalize_or_absolute("sub", &None, &here, false), "/here/sub");
    assert_eq!(canonicalize_or_absolute("sub", &Some("/real".to_string()), &here, false), "/real");
}

#[test]
fn paths_are_taken_apart_and_put_together() {
    assert!(is_absolute("/a", false) && !is_absolute("a", false));
    assert!(is_absolute(r"C:\a", true) && !is_absolute(r"\a", true));
    assert_eq!(join_path("/a", "b", false), "/a/b");
    assert_eq!(join_path("/a", "/b", false), "/b");
    assert_eq!(join_path(r"C:\a", "b", true), r"C:\a\b");
    assert_eq!(path_file_name("/a/b/", false).as_deref(), Some("b"));
    assert_eq!(path_parent("/a/b", false).as_deref(), Some("/a"));
    assert_eq!(path_parent("/", false), None);
    assert!(is_safe_relative_path("a/b", false));
    assert!(!is_safe_relative_path("a/../b", false));
    assert!(!is_safe_relative_path("/a", false));
    assert!(!is_safe_relative_path(r"C:a", true));
    assert_eq!(
        registry_path(&Some("/data".to_string()), &None, false),
        "/data/cst/worktrees.json"
    );
}

#[test]
fn deleting_a_session_tells_what_became_of_its_worktree() {
    let made = entry("/wt/made", "copilot/made");
    let removed = finish_removal(&made, &printed(""), Ok(BranchCleanup::Removed));
    let message = delete_managed_session("/state/s", &made, removed, Ok(()), Ok(())).unwrap();
    assert!(message.contains("copilot/made"), "{message}");
    let removed = finish_removal(&made, &complained(128, "fatal: locked"), Ok(BranchCleanup::Missing));
    assert!(delete_managed_session("/state/s", &made, removed, Ok(()), Ok(())).is_err());
}

#[test]
fn a_session_in_a_fresh_worktree_is_launched_there() {
    let probe = Some(CopilotProbe {
        program: "copilot".to_string(),
        version: None,
        version_ok: true,
    });
    let launch =
        start_worktree_session(&probe, "/wt/made", &UserConfig::default(), None).unwrap();
    assert_eq!(launch.directory.as_deref(), Some("/wt/made"));
    assert!(worktree_announcement("copilot/made", "/wt/made").contains("/wt/made"));
    let failure = failed_worktree_launch(
        Failure::of("no copilot".to_string()),
        &Err(Failure::of("locked".to_string())),
    );
    assert!(failure.shown().contains("locked") || failure.messages.len() > 1);
}

#[test]
fn a_second_reservation_for_the_same_is_refused() {
    let mut registry = empty_registry();
    let listing = || Ok("worktree /repo\n".to_string());
    let first = reservation("first", "copilot/first");
    reserve_creation(&mut registry, &first, false, listing(), &paths()).unwrap();

    let again = reserve_creation(&mut registry, &first, false, listing(), &paths());
    assert!(again.unwrap_err().shown().contains("The worktree registry already contains"));
    let mut branch = reservation("other", "copilot/other");
    branch.branch = first.branch.clone();
    let taken = reserve_creation(&mut registry, &branch, false, listing(), &paths());
    assert!(taken.unwrap_err().shown().contains("already reserves branch 'copilot/first'"));
    assert_eq!(registry.reservations.len(), 1);
}

#[test]
fn names_for_directories_ignore_case_and_join_runs() {
    assert_eq!(filesystem_slug("A--b  /C", 40), "a-b-c");
    assert_eq!(filesystem_slug("FEATURE/a B", 40), filesystem_slug("feature/A b", 40));
    assert_eq!(filesystem_slug("--", 40), "item");
}

fn scan_with(patterns: &str, ignored: &str, windows: bool) -> Result<Vec<String>, Failure> {
    scan_includes("/repo/.worktreeinclude", patterns, &printed(ignored), &printed(""), windows)
        .map(|scan| scan.matched)
}

#[test]
fn deeply_nested_braces_are_refused() {
    let nested = |depth: usize| format!("{}a{}\n", "{".repeat(depth), "}".repeat(depth));
    let failure = scan_with(&nested(1_000_000), "a\0", false).unwrap_err();
    assert_eq!(
        failure.messages,
        [
            "Failed to parse .worktreeinclude at /repo/.worktreeinclude",
            "braces are nested too deeply"
        ]
    );
    let deepest = format!("{}{}\n.env\n", "{".repeat(500), "}".repeat(500));
    assert_eq!(scan_with(&deepest, ".env\0", false).unwrap(), [".env"]);
    assert!(scan_with(&format!("{}{}\n", "{".repeat(501), "}".repeat(501)), "a\0", false).is_err());
    assert!(scan_with(&format!("{}\n", r"{\}".repeat(501)), "a\0", false).is_err());

    let flat = format!("{}\n.env\n", "{a}".repeat(1_500));
    assert_eq!(scan_with(&flat, ".env\0", false).unwrap(), [".env"]);
    let comment = format!("#{}\n.env\n", nested(1_000).trim_end());
    assert_eq!(scan_with(&comment, ".env\0", false).unwrap(), [".env"]);
}

#[test]
fn a_leading_dot_is_dropped_on_windows() {
    assert_eq!(scan_with("/.env\n", ".//.env\0", true).unwrap(), [".//.env"]);
    assert_eq!(scan_with("/.env\n", ".\\.\\.env\0", true).unwrap(), [".\\.\\.env"]);
    assert!(scan_with("*\n", "./C:/x\0", true).unwrap().is_empty());
    assert!(scan_with("*\n", ".//x\0", false).unwrap().is_empty());
}

#[test]
fn a_path_that_is_no_text_is_told_with_its_reason() {
    let mut output = printed("");
    if let Ok(printed) = &mut output {
        printed.stdout = b"ok\0bad\xff\0".to_vec();
    }
    let scan = scan_includes("/repo/i", "*\n", &output, &printed(""), false).unwrap();
    assert_eq!(scan.matched, ["ok"]);
    assert_eq!(
        scan.stopped.unwrap().messages,
        [
            "Git returned a non-UTF-8 ignored file path",
            "invalid utf-8 sequence of 1 bytes from index 3"
        ]
    );
    let failure = nul_paths(&b"bad\xff\0".to_vec()).unwrap_err();
    assert_eq!(failure.messages[0], "Git returned a non-UTF-8 file path");
    assert_eq!(failure.messages.len(), 2);
}

#[test]
fn paths_in_long_form_are_joined_without_dots() {
    let join = |base: &str, path: &str| join_path(base, path, true);
    assert_eq!(join(r"\\?\C:\w", r"a\.\b"), r"\\?\C:\w\a\b");
    assert_eq!(join(r"\\?\C:\w", "a/b"), r"\\?\C:\w\a\b");
    assert_eq!(join(r"\\?\C:\w\", r"..\x"), r"\\?\C:\x");
    assert_eq!(join(r"\\?\C:\w", r"\x"), r"\\?\C:\x");
    assert_eq!(join(r"\\?\C:", "."), r"\\?\C:");
    assert_eq!(join(r"\\?\UNC\srv\share", "x"), r"\\?\UNC\srv\share\x");
    assert_eq!(join(r"\\?\C:\w", ""), r"\\?\C:\w\");
    assert_eq!(join(r"C:\w", r"a\.\b"), r"C:\w\a\.\b");
    assert_eq!(path_file_name(r"\\?\UNC\srv\share", true), None);
    assert_eq!(path_file_name(r"\\?\C:\w\a/b", true).as_deref(), Some("a/b"));
    assert_eq!(path_parent(r"\\?\C:\w\a", true).as_deref(), Some(r"\\?\C:\w"));
}
