//! Stored sessions: listing, launching, renaming, and taking over.

use copilot_session_tui::session::loader::{
    canonicalize_or_lossy, copilot_home, detect_project_root, find_project_root,
    load_session_details, load_sessions, load_single_session, pending_detail_bytes, pid_of_lock,
    session_is_active, take_details, GitEntry, ProjectStep, ReadSession, SessionDirectory,
};
use copilot_session_tui::session::manager::{
    copilot_probe, find_copilot, new_session_args, new_session_args_for, new_session_command,
    npm_copilot_path, rename_session, resume_args, resume_command, resume_session,
    start_new_session, version_line, CopilotProbe, LaunchPolicy, NpmCopilot, ProbeOutput,
    ProjectSettings, UserConfig,
};
use copilot_session_tui::session::process::{
    active_session_pids, begin_takeover, filetime_to_system_time, process_is_running,
    terminate_owner, terminate_session, validate_owner, OwnerFacts, OwnerPlatform, OwnerStage,
    SessionOwner, WindowsProcess,
};
use copilot_session_tui::session::worktree::Failure;
use copilot_session_tui::session::{Session, Timestamp, WorkspaceYaml};

fn workspace(name: Option<&str>, summary: Option<&str>) -> WorkspaceYaml {
    WorkspaceYaml {
        id: "test-session".to_string(),
        cwd: Some("/work/project".to_string()),
        name: name.map(str::to_string),
        summary: summary.map(str::to_string),
        summary_count: None,
        created_at: Some("2026-08-06T12:00:00Z".to_string()),
        updated_at: Some("2026-08-06T12:00:00Z".to_string()),
    }
}

fn load(workspace: WorkspaceYaml) -> Session {
    load_single_session(workspace, "/state/test-session".to_string(), None, false)
}

#[test]
fn loads_current_name_field() {
    let session = load(workspace(Some("Generated title"), None));

    assert_eq!(session.display_name(), "Generated title");
}

#[test]
fn legacy_summary_takes_precedence() {
    let session = load(workspace(Some("Generated title"), Some("Legacy TUI rename")));

    assert_eq!(session.display_name(), "Legacy TUI rename");
}

#[test]
fn times_are_read_as_moments() {
    let session = load(workspace(None, None));
    assert_eq!(session.display_name(), "(unnamed)");
    assert_eq!(
        session.updated_at,
        Some(Timestamp { seconds: 1_786_017_600, nanos: 0 })
    );
    let mut broken = workspace(None, None);
    broken.updated_at = Some("yesterday".to_string());
    let session = load(broken);
    assert_eq!(session.updated_at, None);
    assert_eq!(session.last_touched(), session.created_at);
}

/// Searches as the program does, with the directories that hold a `.git` directory.
fn search(cwd: &str, repositories: &[&str]) -> Option<String> {
    let mut step = find_project_root(cwd);
    loop {
        match step {
            ProjectStep::Found(root) => return Some(root),
            ProjectStep::NotFound => return None,
            ProjectStep::LookInto(directory) => {
                let entry = if repositories.contains(&directory.as_str()) {
                    GitEntry::Directory
                } else {
                    GitEntry::Missing
                };
                step = detect_project_root(&directory, entry, false);
            }
        }
    }
}

#[test]
fn detect_project_root_finds_repo_root_from_subdirectory() {
    let detected = search("/tmp/repo/src/deep", &["/tmp/repo"]).unwrap();

    assert_eq!(detected, canonicalize_or_lossy("/tmp/repo", None));
}

#[test]
fn detect_project_root_returns_none_outside_a_repo() {
    assert!(search("/tmp/loose", &[]).is_none());
    assert!(search("", &[]).is_none());
}

#[test]
fn a_worktree_belongs_to_its_repository() {
    let pointer = "gitdir: /repos/main/.git/worktrees/feature\n".to_string();
    match detect_project_root("/trees/feature", GitEntry::File(Some(pointer)), false) {
        ProjectStep::Found(root) => assert_eq!(root, "/repos/main"),
        _ => panic!("a worktree has a root"),
    }
    match detect_project_root("/trees/feature", GitEntry::File(None), false) {
        ProjectStep::Found(root) => assert_eq!(root, "/trees/feature"),
        _ => panic!("an unreadable pointer leaves the directory itself"),
    }
}

#[test]
fn the_newest_session_comes_first_and_empty_ones_are_left_out() {
    let session = |id: &str, summary: Option<&str>, seconds: i64| {
        let mut session = load(workspace(None, summary));
        session.id = id.to_string();
        session.updated_at = Some(Timestamp { seconds, nanos: 0 });
        Some(session)
    };
    let sessions = vec![
        ReadSession { session: session("old", Some("Old"), 10), events_len: None },
        ReadSession { session: session("empty", None, 40), events_len: Some(100) },
        ReadSession { session: session("untitled", None, 20), events_len: Some(101) },
        ReadSession { session: None, events_len: Some(5000) },
        ReadSession { session: session("new", Some("New"), 30), events_len: None },
    ];
    let found = SessionDirectory::Read { sessions, failure: None };
    let ids: Vec<String> =
        load_sessions("/state", found).unwrap().into_iter().map(|session| session.id).collect();
    assert_eq!(ids, ["new", "untitled", "old"]);
}

#[test]
fn a_session_directory_that_cannot_be_read_is_reported() {
    let failure = load_sessions("/state", SessionDirectory::Missing).unwrap_err();
    assert_eq!(failure.messages, ["Session directory not found: /state"]);
    let unreadable = SessionDirectory::Unreadable(Failure::of("denied".to_string()));
    let failure = load_sessions("/state", unreadable).unwrap_err();
    assert_eq!(failure.messages, ["Failed to read /state", "denied"]);
    let broken = SessionDirectory::Read {
        sessions: Vec::new(),
        failure: Some(Failure::of("bad entry".to_string())),
    };
    assert_eq!(load_sessions("/state", broken).unwrap_err().messages, ["bad entry"]);
}

#[test]
fn copilot_lives_where_it_was_told_to() {
    let home = Some("/home/me".to_string());
    assert_eq!(copilot_home(&Some("/elsewhere".to_string()), &home, false), "/elsewhere");
    assert_eq!(copilot_home(&None, &home, false), "/home/me/.copilot");
    assert_eq!(copilot_home(&None, &None, false), "./.copilot");
    assert_eq!(copilot_home(&None, &Some(r"C:\Users\me".to_string()), true), r"C:\Users\me\.copilot");
}

#[test]
fn details_are_read_again_only_behind_what_was_read() {
    let mut session = load(workspace(None, Some("Title")));
    session.details_parsed_len = 100;
    assert_eq!(pending_detail_bytes(&session, Some(150)), 50);
    assert_eq!(pending_detail_bytes(&session, Some(90)), 0);
    assert_eq!(pending_detail_bytes(&session, None), 0);
    session.turn_count = 4;
    let details = take_details(&mut session);
    load_session_details(&mut session, details);
    assert_eq!(session.turn_count, 4);
}

#[test]
fn names_and_times_are_shown_short() {
    let mut session = load(workspace(None, Some("Title")));
    assert_eq!(session.project_name(false), "project");
    session.cwd = r"C:\work\thing".to_string();
    assert_eq!(session.project_name(true), "thing");
    let at = session.updated_at.unwrap();
    let later = |seconds: i64| Timestamp { seconds: at.seconds + seconds, nanos: 0 };
    assert_eq!(session.relative_time(later(30)), "just now");
    assert_eq!(session.relative_time(later(5 * 60)), "5m ago");
    assert_eq!(session.relative_time(later(3 * 3600)), "3h ago");
}

/// The policy for a directory with no project, so the test is about arguments rather than about where
/// they came from.
fn policy_of(config: &UserConfig) -> LaunchPolicy {
    LaunchPolicy {
        yolo: config.yolo,
        max_autopilot_continues: config.max_autopilot_continues,
    }
}

#[test]
fn a_new_session_is_told_the_id_it_will_have() {
    let config = UserConfig::default();

    let (args, session_id) = new_session_args(&config, &policy_of(&config));

    assert!(
        uuid::Uuid::parse_str(&session_id).is_ok(),
        "Copilot expects a UUID, got {session_id}"
    );
    assert_eq!(
        args.first().map(String::as_str),
        Some(format!("--session-id={session_id}").as_str()),
        "the pane and the child must agree on the id"
    );
    assert_eq!(new_session_args_for(&session_id, &config, &policy_of(&config)), args);
}

#[test]
fn every_new_session_gets_its_own_id() {
    let config = UserConfig::default();

    let (_, first) = new_session_args(&config, &policy_of(&config));
    let (_, second) = new_session_args(&config, &policy_of(&config));

    // Two new sessions sharing an id would share a scratchpad.
    assert_ne!(first, second);
}

#[test]
fn naming_a_new_session_does_not_drop_the_configured_arguments() {
    let config = UserConfig {
        yolo: true,
        model: Some("gpt-5-codex".to_string()),
        reasoning_effort: Some("high".to_string()),
        ..UserConfig::default()
    };

    let (args, _) = new_session_args(&config, &policy_of(&config));

    assert!(args.iter().any(|arg| arg == "--yolo"), "got {args:?}");
    assert!(args.iter().any(|arg| arg == "--model=gpt-5-codex"), "got {args:?}");
    assert!(args.iter().any(|arg| arg == "--reasoning-effort=high"), "got {args:?}");
}

#[test]
fn resuming_preserves_the_sessions_model_and_effort() {
    let config = UserConfig {
        yolo: true,
        model: Some("new-default-model".to_string()),
        reasoning_effort: Some("xhigh".to_string()),
        ..UserConfig::default()
    };

    let args = resume_args("existing-session", &policy_of(&config));

    assert_eq!(args[0], "--resume=existing-session");
    assert!(args.iter().any(|arg| arg == "--yolo"), "got {args:?}");
    assert!(
        !args.iter().any(|arg| arg.starts_with("--model=")),
        "a CST default must not replace the session's model: {args:?}"
    );
    assert!(
        !args.iter().any(|arg| arg.starts_with("--reasoning-effort=")),
        "a CST default must not replace the session's effort: {args:?}"
    );
}

#[test]
fn rename_updates_current_name_field() {
    let content =
        rename_session("id: test\nname: Generated title\nsummary_count: 0\n", "My title");

    assert!(content.contains("name: My title\n"));
    assert!(!content.contains("summary: My title\n"));
}

#[test]
fn rename_preserves_legacy_summary_field() {
    let content = rename_session("id: test\nsummary: Old title\nsummary_count: 1\n", "My title");

    assert!(content.contains("summary: My title\n"));
    assert!(content.contains("summary_count: 1\n"));
}

fn yolo(answer: Option<bool>) -> Option<ProjectSettings> {
    Some(ProjectSettings { yolo: answer, max_autopilot_continues: None })
}

#[test]
fn a_project_decides_yolo_for_sessions_started_in_it() {
    let careful = UserConfig::default();
    let reckless = UserConfig { yolo: true, ..UserConfig::default() };

    assert!(LaunchPolicy::resolve(&careful, yolo(Some(true))).yolo);

    // The direction that matters most: a repository can hold the prompts on for someone whose own
    // default is yolo.
    assert!(!LaunchPolicy::resolve(&reckless, yolo(Some(false))).yolo);

    // A project with no opinion here.
    assert!(LaunchPolicy::resolve(&reckless, yolo(None)).yolo);
    assert!(!LaunchPolicy::resolve(&careful, yolo(None)).yolo);
}

#[test]
fn a_directory_with_no_project_falls_back_to_the_global_setting() {
    let reckless = UserConfig { yolo: true, ..UserConfig::default() };

    assert!(LaunchPolicy::resolve(&reckless, None).yolo);
    assert!(!LaunchPolicy::resolve(&UserConfig::default(), None).yolo);
}

#[test]
fn the_project_answer_is_what_reaches_copilots_arguments() {
    let reckless = UserConfig { yolo: true, ..UserConfig::default() };
    let policy = LaunchPolicy::resolve(&reckless, yolo(Some(false)));

    let (new_args, _) = new_session_args(&reckless, &policy);
    let resumed = resume_args("existing", &policy);

    assert!(
        !new_args.iter().any(|arg| arg == "--yolo"),
        "a global yolo must not leak past the project's no, got {new_args:?}"
    );
    assert!(
        !resumed.iter().any(|arg| arg == "--yolo"),
        "and resuming into that project is the same session, got {resumed:?}"
    );
}

#[test]
fn a_copilot_version_banner_is_reduced_to_its_first_line() {
    // Real output on a working install: the version, then an upsell line.
    let banner = "GitHub Copilot CLI 1.0.84-3.\nRun 'copilot update' to check for updates.\n";
    assert_eq!(version_line(banner).as_deref(), Some("GitHub Copilot CLI 1.0.84-3"));
}

#[test]
fn a_version_banner_cannot_smuggle_an_escape_sequence_into_the_doctor_report() {
    // The banner is printed raw, so a control byte would be executed by the terminal rather than
    // shown.
    let banner = "\u{1b}[2JGitHub Copilot CLI 1.0.84";
    let line = version_line(banner).expect("a version remains");
    assert!(!line.contains('\u{1b}'), "got {line:?}");
}

#[test]
fn a_copilot_that_printed_nothing_yields_no_version_text() {
    assert_eq!(version_line(""), None);
    assert_eq!(version_line("\n  \n"), None);
}

#[test]
fn the_autopilot_cap_reaches_copilot_on_new_and_resumed_sessions_alike() {
    // Copilot does not persist this one, so a cap passed only at creation would quietly do nothing
    // for every resume, which is most launches.
    let capped = UserConfig { max_autopilot_continues: Some(25), ..UserConfig::default() };
    let policy = policy_of(&capped);

    let (new_args, _) = new_session_args(&capped, &policy);
    let resumed = resume_args("existing", &policy);

    assert!(
        new_args.iter().any(|arg| arg == "--max-autopilot-continues=25"),
        "got {new_args:?}"
    );
    assert!(
        resumed.iter().any(|arg| arg == "--max-autopilot-continues=25"),
        "got {resumed:?}"
    );
}

#[test]
fn no_configured_cap_leaves_copilots_own_default_alone() {
    // Passing an invented number would pin the limit to whatever Copilot's default happened to be.
    let (args, _) = new_session_args(&UserConfig::default(), &policy_of(&UserConfig::default()));
    assert!(
        !args.iter().any(|arg| arg.starts_with("--max-autopilot-continues")),
        "got {args:?}"
    );
}

#[test]
fn a_cap_of_zero_is_passed_rather_than_treated_as_unset() {
    // Copilot accepts 0, and it means something: never continue on its own.
    let never = UserConfig { max_autopilot_continues: Some(0), ..UserConfig::default() };
    let (args, _) = new_session_args(&never, &policy_of(&never));
    assert!(
        args.iter().any(|arg| arg == "--max-autopilot-continues=0"),
        "got {args:?}"
    );
}

#[test]
fn a_project_can_set_its_own_autopilot_cap_over_the_global_one() {
    let global = UserConfig { max_autopilot_continues: Some(50), ..UserConfig::default() };

    let restrained = ProjectSettings { yolo: None, max_autopilot_continues: Some(2) };
    assert_eq!(
        LaunchPolicy::resolve(&global, Some(restrained)).max_autopilot_continues,
        Some(2),
        "a repository that wants autopilot on a short leash must be able to say so"
    );

    assert_eq!(
        LaunchPolicy::resolve(&global, yolo(None)).max_autopilot_continues,
        Some(50),
        "a project with no opinion inherits"
    );

    assert_eq!(
        LaunchPolicy::resolve(&global, None).max_autopilot_continues,
        Some(50),
        "and so does a directory that is not a project at all"
    );
}

fn answered(stdout: &[u8]) -> Option<ProbeOutput> {
    Some(ProbeOutput { success: true, stdout: stdout.to_vec() })
}

#[test]
fn copilot_is_looked_for_in_three_places() {
    let probe = copilot_probe(&answered(b"Copilot 1.0\n"), &None, &None).unwrap();
    assert_eq!((probe.program.as_str(), probe.version.as_deref()), ("copilot", Some("Copilot 1.0")));
    let probe = copilot_probe(&None, &answered(b"Copilot 2.0\n"), &None).unwrap();
    assert_eq!(probe.program, "copilot.exe");
    assert!(copilot_probe(&None, &None, &None).is_none());
    let root = b"/usr/lib/node_modules\n".to_vec();
    assert!(npm_copilot_path(&root).starts_with("/usr/lib/node_modules"));
    let npm = NpmCopilot { root_stdout: root.clone(), exists: true, output: None };
    let probe = copilot_probe(&None, &None, &Some(npm)).unwrap();
    assert_eq!(probe.program, npm_copilot_path(&root));
}

#[test]
fn a_launch_needs_copilot() {
    let probe = Some(CopilotProbe { program: "copilot".to_string(), version: None, version_ok: true });
    assert_eq!(find_copilot(&probe), Ok("copilot".to_string()));
    assert!(find_copilot(&None).is_err());
    let config = UserConfig::default();
    let (program, args) = resume_command(&probe, "abc", &config, None).unwrap();
    assert_eq!((program.as_str(), args), ("copilot", vec!["--resume=abc".to_string()]));
    assert!(resume_command(&None, "abc", &config, None).is_err());
    let (_, args, id) = new_session_command(&probe, &config, None).unwrap();
    assert_eq!(args, [format!("--session-id={id}")]);
    assert!(new_session_command(&None, &config, None).is_err());
}

#[test]
fn a_foreground_launch_runs_where_the_session_was() {
    let probe = Some(CopilotProbe { program: "copilot".to_string(), version: None, version_ok: true });
    let config = UserConfig::default();
    let launch = resume_session(&probe, "abc", "/work", true, &config, None).unwrap();
    assert_eq!(launch.directory.as_deref(), Some("/work"));
    let launch = resume_session(&probe, "abc", "/gone", false, &config, None).unwrap();
    assert_eq!(launch.directory, None);
    let launch = start_new_session(&probe, "/work", true, &config, None).unwrap();
    assert_eq!(launch.directory.as_deref(), Some("/work"));
    assert!(launch.args.is_empty());
}

fn locks(names: &[&str]) -> Vec<String> {
    names.iter().map(|name| name.to_string()).collect()
}

#[test]
fn active_pid_comes_from_a_well_formed_live_lock() {
    let pid = 4242;
    let names = locks(&["inuse.4242.lock", "inuse.not-a-pid.lock"]);

    assert_eq!(active_session_pids(&names, &vec![pid]), vec![pid]);
    assert!(session_is_active(&names, &vec![pid]));
    assert!(!session_is_active(&names, &vec![1]));
    assert_eq!(pid_of_lock("inuse.4242.lock"), Some(4242));
    assert_eq!(pid_of_lock("inuse.not-a-pid.lock"), None);
    assert_eq!(pid_of_lock("workspace.yaml"), None);
}

fn linux(command: &[u8], executable: &str) -> OwnerFacts {
    OwnerFacts::Linux {
        pinned: true,
        command: Some(command.to_vec()),
        executable: Some(executable.to_string()),
    }
}

#[test]
fn takeover_refuses_a_lock_owned_by_this_non_copilot_test_process() {
    let pid = 4242;
    let names = locks(&["inuse.4242.lock"]);
    let takeover = begin_takeover("/state/session-1", &names, &vec![pid], &vec![pid], false).unwrap();
    let facts = linux(b"/target/debug/deps/tests\0", "/target/debug/deps/tests");
    let validations: Vec<Result<(), String>> = takeover
        .owners
        .iter()
        .map(|owner| {
            validate_owner(owner, &takeover.session_id, &Some(pid.to_string()), &facts)
        })
        .collect();

    let error = terminate_session(&takeover, &validations, &vec![pid], &vec![pid]).unwrap_err();

    assert!(
        error.contains("rather than Copilot") || error.contains("does not name session"),
        "got {error}"
    );
}

#[test]
fn takeover_is_bound_to_the_pid_set_the_user_confirmed() {
    let pid = 4242;
    let names = locks(&["inuse.4242.lock"]);

    let Err(error) = begin_takeover("/state/session-1", &names, &vec![pid], &vec![pid + 1], false)
    else {
        panic!("another process holds the session");
    };

    assert!(error.contains("ownership changed"), "got {error}");
}

#[test]
fn a_confirmed_copilot_process_is_ended() {
    let pid = 4242;
    let names = locks(&["inuse.4242.lock"]);
    let takeover = begin_takeover("/state/session-1", &names, &vec![pid], &vec![pid], false).unwrap();
    assert_eq!(takeover.owners[0].lock, "/state/session-1/inuse.4242.lock");
    let facts = linux(b"copilot\0--resume=session-1\0", "/usr/bin/copilot");
    let valid =
        validate_owner(&takeover.owners[0], &takeover.session_id, &Some("4242".to_string()), &facts);
    assert_eq!(valid, Ok(()));
    assert_eq!(
        terminate_session(&takeover, &vec![Ok(())], &vec![pid], &vec![pid]),
        Ok(vec![pid])
    );
    let changed = terminate_session(&takeover, &vec![Ok(())], &vec![pid], &vec![]).unwrap_err();
    assert!(changed.contains("during validation"), "got {changed}");
}

#[test]
fn a_lock_that_names_another_process_is_refused() {
    let owner = SessionOwner { pid: 7, lock: "inuse.7.lock".to_string() };
    let facts = linux(b"copilot\0--resume=session-1\0", "/usr/bin/copilot");
    assert!(validate_owner(&owner, "session-1", &Some("8".to_string()), &facts).is_err());
    assert!(validate_owner(&owner, "session-1", &None, &facts).is_err());
    assert!(validate_owner(&owner, "session-1", &Some("7".to_string()), &OwnerFacts::OtherUnix)
        .is_err());
}

#[test]
fn a_holder_is_asked_to_end_before_it_is_killed() {
    let stage = terminate_owner(OwnerPlatform::Linux, 7, OwnerStage::Signal, true, true);
    assert!(matches!(stage, OwnerStage::AwaitExit { millis: 3000 }));
    let stage = terminate_owner(OwnerPlatform::Linux, 7, stage, true, false);
    assert!(matches!(stage, OwnerStage::Ended));
    let stage = terminate_owner(OwnerPlatform::Windows, 7, OwnerStage::Signal, false, true);
    assert!(matches!(stage, OwnerStage::Failed(_)));
}

#[test]
fn windows_times_and_processes_are_read_as_windows_means_them() {
    assert_eq!(filetime_to_system_time(116_444_736_000_000_000), Some(0));
    assert_eq!(filetime_to_system_time(116_444_736_000_000_001), Some(100));
    assert_eq!(filetime_to_system_time(1), None);
    assert!(process_is_running(&WindowsProcess::Unopened { error: 5 }));
    assert!(!process_is_running(&WindowsProcess::Unopened { error: 87 }));
    assert!(process_is_running(&WindowsProcess::Opened { exit_code: Some(259) }));
    assert!(!process_is_running(&WindowsProcess::Opened { exit_code: Some(0) }));
}
