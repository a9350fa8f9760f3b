//! Starting, restarting and leaving the program.

use clap::{Arg, ArgAction, Command};
use copilot_session_tui::app::{
    App, MainView, NewSessionRequest, UpdateRestartPane, UpdateRestartRequest, WorkspaceAreas,
};
use copilot_session_tui::input::{
    Event, KeyCode, KeyEvent, KeyModifiers, MouseProtocolEncoding, MouseProtocolMode, Rect,
};
use copilot_session_tui::mux::pane::{Pane, PaneSpec, ScreenCells, ScreenModes, Viewport};
use copilot_session_tui::mux::pty::pty_size;
use copilot_session_tui::mux::{KeyChord, MuxEvent, MuxState};
use copilot_session_tui::mux_input::InputContext;
use copilot_session_tui::restart::{
    failed_takeover, recover, restart_step, Recovery, RestartStage, StepOutcome,
};
use copilot_session_tui::run_loop::{
    after_wait, apply_terminal_event, child_sizes, exit_waits_for_update, finish_quit, last_work, loop_step,
    mux_animating, mux_paint_due, mux_wait_timeout, place_workspace, prioritize_explicit_exit,
    pump_event, terminal_resize_failure, update_layout_metrics, ChildAnswers, LoopStep, Pumped,
    Routed, Waited,
};
use copilot_session_tui::scratchpad::Scratchpad;
use copilot_session_tui::session::worktree::Failure;
use copilot_session_tui::session::{Session, Timestamp};
use copilot_session_tui::startup::{
    dismissal_step, existing_or_current_dir, handoff_arguments, handoff_step, last_directory,
    mux_override, plan_startup_load, release_step, resolve_restored_startup_session,
    resolve_startup_session, restart_arguments, restart_manifest, resume_announcement, shell_init,
    short_session_id, start_announcement, startup_directory, updated_outcome, Awaited, Dismissal,
    FirstLoad, HandoffStep, Release, RuntimeOptions, StartupSession, UpdatedProcess,
};

fn mux() -> Option<MuxState> {
    Some(MuxState::new(KeyChord::parse("C-b").unwrap()))
}

fn pane(id: u64) -> Pane {
    Pane::spawn(
        PaneSpec {
            id,
            title: format!("Pane {id}"),
            cwd: format!("/work/{id}"),
            session_id: format!("session-{id}"),
            program: "copilot".to_string(),
            args: Vec::new(),
            events_path: None,
        },
        24,
        80,
    )
}

fn context() -> InputContext {
    let modes = ScreenModes {
        application_cursor: false,
        bracketed_paste: false,
        mouse_mode: MouseProtocolMode::Off,
        mouse_encoding: MouseProtocolEncoding::Default,
    };
    InputContext {
        modes,
        shell_modes: modes,
        screen: ScreenCells { rows: Vec::new() },
        rows: Vec::new(),
        supported_key: true,
        windows: false,
    }
}

fn session(id: &str, name: &str, active: bool) -> Session {
    Session {
        id: id.to_string(),
        cwd: r"C:\work\project".to_string(),
        project_root: r"C:\work\project".to_string(),
        summary: Some(name.to_string()),
        created_at: None,
        updated_at: Some(Timestamp { seconds: 1, nanos: 0 }),
        is_active: active,
        dir_path: String::new(),
        edited_files: Vec::new(),
        last_user_message: None,
        turn_count: 0,
        tool_call_count: 0,
        details_parsed_len: 0,
    }
}

fn restart_pane(id: u64, session_id: &str, running: bool, cwd: &str) -> UpdateRestartPane {
    UpdateRestartPane {
        pane_id: Some(id),
        copilot_running: running,
        terminal_generation: None,
        session_id: session_id.to_string(),
        cwd: cwd.to_string(),
        title: session_id.to_string(),
    }
}

/// The command line that the program takes, as far as a restart writes it.
fn command_line() -> Command {
    Command::new("cst")
        .arg(Arg::new("copilot_home").long("copilot-home"))
        .arg(
            Arg::new("auto_filter")
                .long("auto-filter")
                .action(ArgAction::Set)
                .value_parser(clap::builder::BoolishValueParser::new()),
        )
        .arg(Arg::new("last_dir_file").long("last-dir-file"))
        .arg(Arg::new("mux").long("mux").action(ArgAction::SetTrue))
        .arg(Arg::new("no_mux").long("no-mux").action(ArgAction::SetTrue))
        .arg(Arg::new("restart_gate").long("restart-gate"))
        .arg(
            Arg::new("restart_parent_pid")
                .long("restart-parent-pid")
                .value_parser(clap::builder::RangedU64ValueParser::<u32>::new()),
        )
}

#[test]
fn restart_handoff_preserves_runtime_options_session_order_and_focus() {
    let options = RuntimeOptions {
        copilot_home: r"C:\copilot-home".to_string(),
        auto_filter: false,
        mux: true,
        last_dir_file: Some(r"C:\temp\last-dir".to_string()),
    };
    let request = UpdateRestartRequest {
        panes: vec![
            restart_pane(2, "session-2", true, r"C:\work\two"),
            restart_pane(1, "session-1", true, r"C:\work\one"),
        ],
        focused_session_id: Some("session-2".to_string()),
    };

    let args = restart_arguments(&options);
    let reparsed = command_line()
        .try_get_matches_from(std::iter::once("cst".to_string()).chain(args.clone()))
        .unwrap();

    assert_eq!(
        reparsed.get_one::<String>("copilot_home").map(String::as_str),
        Some(r"C:\copilot-home")
    );
    assert_eq!(reparsed.get_one::<bool>("auto_filter"), Some(&false));
    assert!(reparsed.get_flag("mux"));
    assert_eq!(
        reparsed.get_one::<String>("last_dir_file").map(String::as_str),
        Some(r"C:\temp\last-dir")
    );

    let manifest = restart_manifest(&request);
    assert_eq!(
        manifest.panes.iter().map(|pane| pane.session_id.as_str()).collect::<Vec<_>>(),
        ["session-2", "session-1"]
    );
    assert_eq!(manifest.focused_session_id.as_deref(), Some("session-2"));
}

#[test]
fn the_updated_copy_learns_its_gate_and_its_supervisor() {
    let options = RuntimeOptions {
        copilot_home: "/home/me/.copilot".to_string(),
        auto_filter: true,
        mux: false,
        last_dir_file: None,
    };
    let args = handoff_arguments(&options, "/tmp/gate", 42);
    assert_eq!(
        args,
        [
            "--copilot-home",
            "/home/me/.copilot",
            "--auto-filter",
            "true",
            "--no-mux",
            "--restart-gate",
            "/tmp/gate",
            "--restart-parent-pid",
            "42",
        ]
    );
    let matches = command_line()
        .try_get_matches_from(std::iter::once("cst".to_string()).chain(args))
        .unwrap();
    assert_eq!(matches.get_one::<u32>("restart_parent_pid"), Some(&42));
}

#[test]
fn explicit_actions_supersede_automatic_restart_after_installation() {
    let ready_app = || {
        let mut app = App::new(None);
        app.restart_after_update = Some(UpdateRestartRequest::default());
        app.installed_update_version = Some("99.0.0".to_string());
        app
    };

    let mut quitting = ready_app();
    quitting.should_quit = true;
    assert!(prioritize_explicit_exit(&mut quitting));
    assert!(quitting.restart_after_update.is_none());
    assert!(quitting.should_quit);

    let mut resuming = ready_app();
    resuming.should_resume = Some(("session-1".to_string(), "cwd".to_string()));
    assert!(prioritize_explicit_exit(&mut resuming));
    assert!(resuming.restart_after_update.is_none());
    assert!(resuming.should_resume.is_some());

    let mut creating = ready_app();
    creating.should_new_session = Some(NewSessionRequest::Normal { cwd: "cwd".to_string() });
    assert!(prioritize_explicit_exit(&mut creating));
    assert!(creating.restart_after_update.is_none());
    assert!(creating.should_new_session.is_some());
}

#[test]
fn restore_handoff_can_resume_a_session_missing_from_the_visible_catalog() {
    let restored = resolve_restored_startup_session(
        &Vec::new(),
        "fresh-session-id",
        r"C:\work\brand-new",
    );

    assert_eq!(restored.id, "fresh-session-id");
    assert_eq!(restored.cwd, r"C:\work\brand-new");
    assert_eq!(restored.title, "session fresh-se");
}

#[test]
fn terminal_only_resource_does_not_resume_a_stopped_copilot_chat() {
    let request = UpdateRestartRequest {
        panes: vec![UpdateRestartPane {
            pane_id: Some(7),
            copilot_running: false,
            terminal_generation: Some(3),
            session_id: "stopped-chat".to_string(),
            cwd: r"C:\work\project".to_string(),
            title: "Shell".to_string(),
        }],
        focused_session_id: Some("stopped-chat".to_string()),
    };

    let manifest = restart_manifest(&request);
    assert!(manifest.panes.is_empty());
    assert!(manifest.focused_session_id.is_none());
}

#[test]
fn restart_gate_waits_for_release_from_the_supervising_process() {
    assert_eq!(release_step(false, false, true), Release::Wait);
    assert_eq!(release_step(true, false, true), Release::Go);
}

#[test]
fn a_waiting_copy_ends_when_it_is_not_needed() {
    assert_eq!(release_step(false, true, true), Release::GiveUp);
    assert_eq!(release_step(false, false, false), Release::GiveUp);
    // Being let through comes first.
    assert_eq!(release_step(true, true, false), Release::Go);
}

#[test]
fn idle_mux_waits_for_events_instead_of_redrawing_four_times_per_second() {
    let mut app = App::new(None);
    assert_eq!(mux_wait_timeout(&app, false), 5_000);
    assert_eq!(mux_wait_timeout(&app, true), 100);

    app.background.sessions = true;
    assert_eq!(mux_wait_timeout(&app, false), 250);

    app.detail_pending = Some("large-session".to_string());
    assert_eq!(mux_wait_timeout(&app, false), 100);
}

#[test]
fn repaint_deadline_bounds_staleness_when_non_visual_events_keep_arriving() {
    let mut app = App::new(mux());
    assert!(mux_paint_due(&app, false, 6_000));

    app.detail_pending = Some("large-session".to_string());
    assert!(mux_paint_due(&app, false, 150));
    assert!(mux_paint_due(&app, true, 0));
    assert!(!mux_paint_due(&app, false, 50));
    app.mux = None;
    assert!(!mux_paint_due(&app, false, 6_000));
}

#[test]
fn newly_created_app_is_unattended_until_focus_or_input_arrives() {
    let mut app = App::new(None);
    assert!(!app.terminal_focused);

    let key = Event::Key(KeyEvent::new(KeyCode::Char('x'), KeyModifiers::none()));
    assert!(matches!(apply_terminal_event(&mut app, key, &context()), Routed::List(_)));

    assert!(app.terminal_focused);
    apply_terminal_event(&mut app, Event::FocusLost, &context());
    assert!(!app.terminal_focused);
}

#[test]
fn natural_exit_waits_for_background_installation() {
    let mut app = App::new(None);
    app.background.update_install = true;
    app.should_quit = true;

    assert!(exit_waits_for_update(&app));

    app.background.update_install = false;
    assert!(!exit_waits_for_update(&app));
}

#[test]
fn startup_session_requires_an_exact_inactive_match() {
    let sessions =
        vec![session("session-1", "First", false), session("session-2", "Second", true)];

    let opened = resolve_startup_session(&sessions, "session-1").unwrap();
    assert_eq!(opened.id, "session-1");
    assert_eq!(opened.cwd, r"C:\work\project");
    assert_eq!(opened.title, "First");
    assert_eq!(
        resolve_startup_session(&sessions, "session").unwrap_err(),
        "Session 'session' was not found"
    );
    assert!(resolve_startup_session(&sessions, "session-2").unwrap_err().contains("already active"));
}

#[test]
fn short_session_ids_do_not_panic() {
    assert_eq!(short_session_id("short"), "short");
    assert_eq!(short_session_id("123456789"), "12345678");
}

#[test]
fn a_short_id_never_ends_inside_a_character() {
    assert_eq!(short_session_id("éééé-more"), "éééé");
    assert_eq!(short_session_id("1234567é9"), "1234567é9");
    assert_eq!(short_session_id(""), "");
}

#[test]
fn direct_mux_startup_falls_back_when_saved_directory_is_missing() {
    let current = Some("/here".to_string());
    assert_eq!(existing_or_current_dir("/work", true, &current), "/work");

    let missing = r"Z:\definitely\missing\cst-session";
    assert_eq!(existing_or_current_dir(missing, false, &current), "/here");
    assert_eq!(existing_or_current_dir(missing, false, &None), missing);
}

fn opened(id: &str) -> StartupSession {
    StartupSession { id: id.to_string(), cwd: format!("/work/{id}"), title: id.to_string() }
}

#[test]
fn the_first_project_is_that_of_the_session_in_front() {
    let restored = vec![opened("a"), opened("b"), opened("c")];
    let focused = Some("b".to_string());
    let direct = Some(opened("direct"));
    assert_eq!(startup_directory(&direct, &restored, &focused).as_deref(), Some("/work/direct"));
    assert_eq!(startup_directory(&None, &restored, &focused).as_deref(), Some("/work/b"));
    assert_eq!(startup_directory(&None, &restored, &None).as_deref(), Some("/work/c"));
    assert_eq!(startup_directory(&None, &Vec::new(), &focused), None);
}

#[test]
fn what_is_read_first_depends_on_what_is_opened() {
    let named = plan_startup_load(true, false, false);
    assert_eq!((named.first, named.background, named.required), (FirstLoad::Named, false, true));
    let restored = plan_startup_load(false, true, false);
    assert_eq!(
        (restored.first, restored.background, restored.required),
        (FirstLoad::Restored, true, true)
    );
    let favorites = plan_startup_load(false, false, true);
    assert_eq!(
        (favorites.first, favorites.background, favorites.required),
        (FirstLoad::Favorites, false, true)
    );
    let normal = plan_startup_load(false, false, false);
    assert_eq!(
        (normal.first, normal.background, normal.required),
        (FirstLoad::Favorites, true, false)
    );
    assert_eq!(FirstLoad::Named.failure(), "Failed to load Copilot session");
    assert_eq!(FirstLoad::Restored.failure(), "Failed to load sessions after updating CST");
    assert_eq!(FirstLoad::Favorites.failure(), "Failed to load favorite Copilot sessions");
}

#[test]
fn flags_override_the_configured_panes() {
    assert_eq!(mux_override(true, false), Some(true));
    assert_eq!(mux_override(false, true), Some(false));
    assert_eq!(mux_override(false, false), None);
}

#[test]
fn the_shell_follows_the_last_session() {
    let some = |text: &str| Some(text.to_string());
    let none: Option<String> = None;
    assert_eq!(last_directory(&some("r"), &some("s"), &some("e"), &some("p"), &none), some("s"));
    assert_eq!(last_directory(&some("r"), &none, &some("e"), &some("p"), &none), some("r"));
    assert_eq!(last_directory(&none, &none, &some("e"), &some("p"), &none), some("e"));
    assert_eq!(last_directory(&none, &none, &none, &some("/P"), &some("/q")), some("/P"));
    assert_eq!(last_directory(&none, &none, &none, &some("/P"), &some("/p")), None);
    assert_eq!(last_directory(&none, &none, &none, &none, &none), None);
}

#[test]
fn what_runs_in_the_foreground_is_announced() {
    assert_eq!(resume_announcement("123456789", "/w"), "Resuming session 12345678 in /w...");
    assert_eq!(start_announcement("/w"), "Starting new session in /w...");
}

#[test]
fn known_shells_get_their_function() {
    let posix = shell_init("bash").unwrap();
    assert_eq!(shell_init("zsh"), Some(posix));
    assert!(posix.starts_with("cst() {\n    local tmpfile\n"));
    assert!(posix.contains("--last-dir-file=\"$tmpfile\" \"$@\"\n"));
    assert!(shell_init("powershell").unwrap().starts_with("function cst {\n"));
    assert_eq!(shell_init("fish"), None);
}

#[test]
fn the_supervisor_waits_a_while_for_the_updated_copy() {
    assert!(matches!(
        handoff_step(Awaited::Ready, 0, false, UpdatedProcess::Running),
        HandoffStep::Wait
    ));
    assert!(matches!(
        handoff_step(Awaited::Ready, 4_999, true, UpdatedProcess::Running),
        HandoffStep::Arrived
    ));
    let message = |step: HandoffStep| match step {
        HandoffStep::Failed(failure) => failure.messages,
        _ => panic!("expected a failure"),
    };
    assert_eq!(
        message(handoff_step(Awaited::Ready, 5_000, true, UpdatedProcess::Running)),
        ["Updated CST did not become ready for restart within 5 seconds"]
    );
    assert_eq!(
        message(handoff_step(Awaited::Started, 15_000, false, UpdatedProcess::Running)),
        ["Updated CST did not open its workspace within 15 seconds"]
    );
    let ended = || UpdatedProcess::Ended { status: "exit status: 1".to_string() };
    assert_eq!(
        message(handoff_step(Awaited::Ready, 10, false, ended())),
        ["Updated CST exited before handoff with status exit status: 1"]
    );
    assert_eq!(
        message(handoff_step(Awaited::Started, 10, false, ended())),
        ["Updated CST exited during startup with status exit status: 1"]
    );
    let unknown = UpdatedProcess::Unknown { failure: Failure::of("gone".to_string()) };
    assert_eq!(
        message(handoff_step(Awaited::Started, 10, false, unknown)),
        ["Failed to inspect the updated CST process", "gone"]
    );
    assert_eq!(
        message(handoff_step(Awaited::Started, 10, false, UpdatedProcess::Unavailable)),
        ["Updated CST process is unavailable"]
    );
    assert!(updated_outcome(true, "exit status: 0").is_ok());
    assert_eq!(
        updated_outcome(false, "exit status: 2").unwrap_err().messages,
        ["Updated CST exited with status exit status: 2"]
    );
}

#[test]
fn a_copy_that_was_let_go_gets_time_to_end() {
    assert_eq!(dismissal_step(false, 0, true), Dismissal::Kill);
    assert_eq!(dismissal_step(true, 0, false), Dismissal::Wait);
    assert_eq!(dismissal_step(true, 4_999, true), Dismissal::Gone);
    assert_eq!(dismissal_step(true, 5_000, false), Dismissal::Kill);
}

#[test]
fn a_round_of_the_loop_ends_with_what_comes_first() {
    let mut app = App::new(mux());
    assert_eq!(loop_step(&mut app, false, false), LoopStep::Continue);

    app.restart_after_update = Some(UpdateRestartRequest::default());
    app.installed_update_version = Some("99.0.0".to_string());
    assert_eq!(loop_step(&mut app, true, false), LoopStep::DeferRestart);
    assert_eq!(loop_step(&mut app, false, true), LoopStep::Continue);
    assert_eq!(loop_step(&mut app, false, false), LoopStep::Restart);

    app.should_quit = true;
    app.background.update_install = true;
    assert_eq!(loop_step(&mut app, false, false), LoopStep::Continue);
    assert_eq!(
        app.status_message.as_deref(),
        Some("Finishing the update before leaving; running sessions stay open...")
    );
    app.background.update_install = false;
    assert_eq!(loop_step(&mut app, true, false), LoopStep::Quit);
    assert!(app.restart_after_update.is_none());
    app.should_quit = false;
    app.should_resume = Some(("session-1".to_string(), "/work".to_string()));
    assert_eq!(loop_step(&mut app, false, false), LoopStep::Leave);
}

#[test]
fn quitting_waits_for_sessions_that_do_not_end() {
    let mut app = App::new(mux());
    app.mux.as_mut().unwrap().push(pane(1));
    app.view = MainView::Attached(1);
    app.should_quit = true;

    assert!(!finish_quit(&mut app, &Err("still running".to_string())));
    assert!(!app.should_quit);
    assert_eq!(app.view, MainView::List);
    assert_eq!(app.status_message.as_deref(), Some("Cannot quit yet: still running"));
    assert_eq!(app.exit_dir.as_deref(), Some("/work/1"));

    app.should_quit = true;
    assert!(finish_quit(&mut app, &Ok(())));
    assert!(app.mux.as_ref().unwrap().panes.is_empty());
}

#[test]
fn what_is_left_to_do_is_told_at_the_end() {
    let mut app = App::new(mux());
    app.mux.as_mut().unwrap().push(pane(1));
    app.scratchpad = Some(Scratchpad::open("session-1"));
    let work = last_work(&mut app);
    assert!(work.save_notes && work.stop_panes);
    assert_eq!(app.exit_dir.as_deref(), Some("/work/1"));
    app.restart_after_update = Some(UpdateRestartRequest::default());
    assert!(!last_work(&mut app).save_notes);
}

#[test]
fn events_wake_the_loop_and_their_absence_ends_it() {
    let mut app = App::new(mux());
    assert_eq!(after_wait(&mut app, Waited::Event), None);
    assert_eq!(after_wait(&mut app, Waited::TimedOut), Some(true));
    assert!(!app.should_quit);
    assert_eq!(after_wait(&mut app, Waited::Disconnected), Some(true));
    assert!(app.should_quit);
}

#[test]
fn events_are_applied_wherever_they_come_from() {
    let mut app = App::new(mux());
    app.mux.as_mut().unwrap().push(pane(1));
    let key = Event::Key(KeyEvent::new(KeyCode::Char('x'), KeyModifiers::none()));
    match pump_event(&mut app, MuxEvent::Term(key), &context()) {
        Pumped::Terminal { repaint, routed: Routed::List(_) } => assert!(repaint),
        _ => panic!("a key in the list is for the list"),
    }
    match pump_event(&mut app, MuxEvent::ConfigChanged, &context()) {
        Pumped::Pane(reaction) => assert!(reaction.reload_config && !reaction.repaint),
        _ => panic!("a changed configuration is no input"),
    }
}

#[test]
fn a_starting_pane_moves_by_itself() {
    let mut app = App::new(mux());
    assert!(!mux_animating(&app));
    app.mux.as_mut().unwrap().push(pane(1));
    assert!(mux_animating(&app));
    app.mux.as_mut().unwrap().panes[0].has_visible_output = true;
    assert!(!mux_animating(&app));
    app.background.github = true;
    assert!(mux_animating(&app));
}

#[test]
fn list_sizes_follow_the_screen() {
    let metrics = update_layout_metrics(40, false, 2, 3);
    assert_eq!(metrics.visible_rows, 16);
    assert_eq!(metrics.project_visible_rows, 6);
    assert_eq!(update_layout_metrics(40, true, 0, 3).visible_rows, 34);
    assert_eq!(update_layout_metrics(40, true, 0, 100).project_visible_rows, 16);
    let tiny = update_layout_metrics(4, true, 1, 100);
    assert_eq!((tiny.visible_rows, tiny.project_visible_rows), (0, 0));
    assert_eq!(update_layout_metrics(0, true, 0, 0).project_visible_rows, 0);
    for height in 1u16..400 {
        for projects in 0usize..20 {
            let percent = 80u16.min(25u16.max(
                (((projects + 6).min(20) as f32 / height as f32) * 100.0) as u16,
            ));
            let expected = ((height as usize * percent as usize) / 100).saturating_sub(4);
            let metrics = update_layout_metrics(height, true, 0, projects);
            assert_eq!(metrics.project_visible_rows, expected, "{projects} on {height}");
        }
    }
}

#[test]
fn panes_follow_the_size_of_the_screen() {
    let mut app = App::new(mux());
    app.mux.as_mut().unwrap().push(pane(1));
    app.mux.as_mut().unwrap().push(pane(2));
    let sizes = child_sizes(&app, 100, 40, None);
    assert_eq!(sizes.terminal, None);
    assert_eq!(sizes.panes, Some(pty_size(39, 100)));
    let answers = ChildAnswers { terminal: Ok(()), panes: vec![true, false] };
    let kept = app.mux.as_ref().unwrap().panes[1].viewport;
    place_workspace(&mut app, 100, 40, None, answers);
    assert_eq!(app.mux.as_ref().unwrap().panes[1].viewport, kept);
    assert_eq!(child_sizes(&app, 100, 40, None).panes, None);
    assert_eq!(
        app.mux.as_ref().unwrap().panes[0].viewport,
        Viewport { x: 0, y: 0, rows: 39, cols: 100 }
    );

    app.terminal
        .activate("session-1".to_string(), "One".to_string(), "/work/1".to_string(), Ok(()))
        .unwrap();
    let areas = WorkspaceAreas {
        chat: Rect { x: 0, y: 0, width: 100, height: 30 },
        scratchpad: None,
        terminal: Some(Rect { x: 0, y: 30, width: 100, height: 10 }),
    };
    let sizes = child_sizes(&app, 100, 40, Some(areas));
    assert_eq!(sizes.terminal, Some(pty_size(8, 98)));
    let was = app.terminal.active().unwrap().viewport;
    let refused = ChildAnswers { terminal: Err("gone".to_string()), panes: vec![true, true] };
    place_workspace(&mut app, 100, 40, Some(areas), refused);
    assert_eq!(app.terminal.active().unwrap().viewport, was);
    assert_eq!(app.status_message.as_deref(), Some("Terminal resize failed: gone"));
    let taken = ChildAnswers { terminal: Ok(()), panes: vec![true, true] };
    place_workspace(&mut app, 100, 40, Some(areas), taken);
    assert_eq!(
        app.mux.as_ref().unwrap().panes[0].viewport,
        Viewport { x: 1, y: 1, rows: 28, cols: 98 }
    );
    assert_eq!(
        app.terminal.active().unwrap().viewport,
        Viewport { x: 1, y: 31, rows: 8, cols: 98 }
    );
    assert_eq!(terminal_resize_failure("gone"), "Terminal resize failed: gone");
}

fn failed(error: &str) -> StepOutcome {
    StepOutcome::Failed(error.to_string())
}

#[test]
fn an_updated_copy_takes_over_after_every_step() {
    let mut stage = RestartStage::Validate;
    let mut steps = 0;
    while !matches!(stage, RestartStage::HandedOver) {
        stage = restart_step(stage, StepOutcome::Done, true);
        steps += 1;
    }
    assert_eq!(steps, 6);
    stage = restart_step(RestartStage::Validate, StepOutcome::Done, false);
    assert!(matches!(stage, RestartStage::Prepare));
}

#[test]
fn a_restart_that_fails_is_given_up() {
    let mut app = App::new(mux());
    app.restart_after_update = Some(UpdateRestartRequest::default());

    match restart_step(RestartStage::Validate, failed("busy"), true) {
        RestartStage::GivenUp { dismiss: false, recovery: Recovery::Nothing } => {}
        other => panic!("{other:?}"),
    }
    let RestartStage::GivenUp { dismiss: false, recovery } =
        restart_step(RestartStage::SaveNotes, failed("full"), true)
    else {
        panic!("notes that cannot be saved stop a restart");
    };
    assert_eq!(recover(&mut app, recovery), None);
    assert!(app.restart_after_update.is_none());
    assert_eq!(
        app.status_message.as_deref(),
        Some(
            "Update installed, but restart was cancelled because the scratchpad could not be \
             saved: full"
        )
    );
    match restart_step(RestartStage::Prepare, failed("no file"), true) {
        RestartStage::GivenUp { dismiss: false, recovery: Recovery::Cancel(message) } => {
            assert_eq!(message, "Update installed, but the new CST could not start: no file")
        }
        other => panic!("{other:?}"),
    }
    match restart_step(RestartStage::StopTerminals, failed("alive"), true) {
        RestartStage::GivenUp { dismiss: true, recovery: Recovery::Cancel(message) } => assert_eq!(
            message,
            "Update installed, but restart was cancelled because terminal shells could not stop: \
             alive"
        ),
        other => panic!("{other:?}"),
    }
    for stage in [RestartStage::StopPanes, RestartStage::WriteManifest] {
        let RestartStage::GivenUp { dismiss: true, recovery } =
            restart_step(stage, failed("broken"), true)
        else {
            panic!("a copy that waits is sent away");
        };
        assert_eq!(recover(&mut app, recovery).as_deref(), Some("broken"));
    }
    assert_eq!(
        failed_takeover("no workspace"),
        "the updated CST failed before opening its workspace: no workspace"
    );
}
