//! The shell terminals beside a session.

use copilot_session_tui::input::{
    Event, KeyCode, KeyEvent, KeyModifiers, MouseProtocolEncoding, MouseProtocolMode,
};
use copilot_session_tui::mux::callbacks::ScreenFacts;
use copilot_session_tui::mux::pane::{ScreenModes, Viewport};
use copilot_session_tui::mux::pty::{ChildLook, TerminationCall};
use copilot_session_tui::session::worktree::Failure;
use copilot_session_tui::terminal_pane::{
    end_shell, ShellEnd,
    answer_terminal_query, configured_shell, encode_key, forwarded_clipboard, forwarded_command,
    Activation, ShellCheck, TerminalInput, TerminalManager, TerminalPane, TerminalQuery,
    TerminalStatus,
};

#[test]
fn key_encoding_preserves_shell_control_keys() {
    let control_c = KeyEvent::new(KeyCode::Char('c'), KeyModifiers::with_control());
    let control_v = KeyEvent::new(KeyCode::Char('v'), KeyModifiers::with_control());
    let alt_x = KeyEvent::new(KeyCode::Char('x'), KeyModifiers::with_alt());
    let meta_v =
        KeyEvent::new(KeyCode::Char('v'), KeyModifiers { meta: true, ..KeyModifiers::none() });
    let shifted_up = KeyEvent::new(KeyCode::Up, KeyModifiers::with_shift());

    for windows in [false, true] {
        assert_eq!(encode_key(control_c, false, windows), Some(vec![3]));
        assert_eq!(encode_key(control_v, false, windows), Some(vec![0x16]));
        assert_eq!(encode_key(alt_x, false, windows), Some(b"\x1bx".to_vec()));
        assert_eq!(encode_key(meta_v, false, windows), Some(b"\x1bv".to_vec()));
        assert_eq!(encode_key(shifted_up, false, windows), Some(b"\x1b[1;2A".to_vec()));
    }
}

#[test]
fn terminal_pane_viewport_translates_outer_mouse_coordinates() {
    let viewport = Viewport { x: 1, y: 20, rows: 10, cols: 100 };

    assert_eq!(viewport.coordinates(10, 25), Some((10, 6)));
    assert_eq!(viewport.coordinates(0, 25), None);
    assert_eq!(viewport.coordinates(10, 30), None);
    assert_eq!(viewport.clamped_coordinates(0, 99), (1, 10));
}

struct Callbacks {
    input: Vec<Vec<u8>>,
    host: Vec<Vec<u8>>,
}

impl vt100::Callbacks for Callbacks {
    fn copy_to_clipboard(&mut self, _: &mut vt100::Screen, ty: &[u8], data: &[u8]) {
        self.host.push(forwarded_clipboard(&ty.to_vec(), &data.to_vec()));
    }

    fn unhandled_osc(&mut self, _: &mut vt100::Screen, params: &[&[u8]]) {
        let params: Vec<Vec<u8>> = params.iter().map(|param| param.to_vec()).collect();
        if let Some(sequence) = forwarded_command(&params) {
            self.host.push(sequence);
        }
    }

    fn unhandled_csi(
        &mut self,
        screen: &mut vt100::Screen,
        i1: Option<u8>,
        i2: Option<u8>,
        params: &[&[u16]],
        c: char,
    ) {
        let (cursor_row, cursor_column) = screen.cursor_position();
        let (rows, columns) = screen.size();
        let query = TerminalQuery {
            final_byte: c,
            first_intermediate: i1,
            second_intermediate: i2,
            params: params.iter().map(|group| group.to_vec()).collect(),
        };
        let facts = ScreenFacts { cursor_row, cursor_column, rows, columns };
        if let Some(reply) = answer_terminal_query(&query, facts) {
            self.input.push(reply);
        }
    }
}

fn parser() -> vt100::Parser<Callbacks> {
    vt100::Parser::new_with_callbacks(
        12,
        80,
        0,
        Callbacks { input: Vec::new(), host: Vec::new() },
    )
}

#[test]
fn parser_answers_cursor_position_queries() {
    let mut parser = parser();
    parser.process(b"\x1b[6n");
    assert_eq!(parser.callbacks().input, [b"\x1b[1;1R".to_vec()]);
}

#[test]
fn parser_forwards_clipboard_copy_to_the_outer_terminal() {
    let mut parser = parser();
    parser.process(b"\x1b]52;c;Q29waWVkIHRleHQ=\x07");
    assert_eq!(parser.callbacks().host, [b"\x1b]52;c;Q29waWVkIHRleHQ=\x1b\\".to_vec()]);
}

#[test]
fn parser_forwards_progress_to_the_outer_terminal() {
    let mut parser = parser();
    parser.process(b"\x1b]9;4;3;0\x07");
    assert_eq!(parser.callbacks().host, [b"\x1b]9;4;3;0\x1b\\".to_vec()]);
}

fn activate(manager: &mut TerminalManager, id: &str, name: &str) -> Activation {
    manager.activate(id.to_string(), name.to_string(), "/tmp".to_string(), Ok(())).unwrap()
}

#[test]
fn terminals_are_kept_per_session_until_shutdown() {
    let mut manager = TerminalManager::new();

    assert_eq!(activate(&mut manager, "session-a", "A"), Activation::Opened);
    manager.conceal();
    assert_eq!(activate(&mut manager, "session-a", "A"), Activation::Focused);
    assert_eq!(activate(&mut manager, "session-b", "B"), Activation::Opened);

    assert_eq!(manager.entries.len(), 2);
    assert_eq!(manager.active_session_id(), Some("session-b"));
    let _ = manager.shutdown(&Vec::new());
    assert!(manager.entries.is_empty());
    assert!(!manager.is_visible());
}

#[test]
fn stopped_terminal_is_detected_and_restarts_when_reopened() {
    let mut manager = TerminalManager::new();

    assert_eq!(activate(&mut manager, "session-a", "A"), Activation::Opened);
    manager.active_mut().unwrap().record_exit(0);

    assert_eq!(manager.stopped_session_ids(), vec!["session-a"]);
    manager.conceal();
    assert!(!manager.is_visible());
    assert_eq!(activate(&mut manager, "session-a", "A"), Activation::Restarted);
    assert!(manager.active().unwrap().is_running());
    let _ = manager.shutdown(&Vec::new());
}

#[test]
fn manager_shutdown_waits_for_shell_exit() {
    let mut manager = TerminalManager::new();
    activate(&mut manager, "session-a", "Terminal");

    manager.shutdown(&Vec::new()).unwrap();

    assert!(manager.entries.is_empty());
    assert!(manager.active_id.is_none());
}

#[test]
fn a_shell_that_does_not_end_keeps_its_terminal() {
    let mut manager = TerminalManager::new();
    activate(&mut manager, "session-a", "Terminal");
    let failures = vec![("Terminal".to_string(), "still there".to_string())];

    let error = manager.shutdown(&failures).unwrap_err();

    assert_eq!(error, "Could not end all terminal shells: 'Terminal': still there");
    assert_eq!(manager.entries.len(), 1);
    assert_eq!(
        manager.remove("session-a", Err("still there".to_string())),
        Err("still there".to_string())
    );
    assert_eq!(manager.entries.len(), 1);
}

#[test]
fn manager_remove_waits_for_shell_exit_before_forgetting_it() {
    let mut manager = TerminalManager::new();
    activate(&mut manager, "session-a", "Terminal");

    manager.remove("session-a", Ok(())).unwrap();

    assert!(manager.entries.is_empty());
    assert!(manager.active_id.is_none());
}

#[test]
fn manager_remove_stops_child_even_after_terminal_io_failure() {
    let mut manager = TerminalManager::new();
    activate(&mut manager, "session-a", "Terminal");
    manager.entries[0].pane.status = TerminalStatus::Failed("simulated parser failure".to_string());

    manager.remove("session-a", Ok(())).unwrap();

    assert!(manager.entries.is_empty());
}

#[test]
fn a_shell_that_cannot_start_leaves_nothing_on_screen() {
    let mut manager = TerminalManager::new();
    let result = manager.activate(
        "session-a".to_string(),
        "A".to_string(),
        "/tmp".to_string(),
        Err("no shell".to_string()),
    );
    assert_eq!(result, Err("no shell".to_string()));
    assert!(manager.entries.is_empty());
    assert!(!manager.is_visible());
}

#[test]
fn a_blank_shell_setting_leaves_the_default() {
    assert_eq!(configured_shell(&Some("/bin/sh".to_string())).as_deref(), Some("/bin/sh"));
    assert_eq!(configured_shell(&Some("  ".to_string())), None);
    assert_eq!(configured_shell(&None), None);
}

#[test]
fn the_status_is_told_in_words() {
    assert_eq!(TerminalStatus::Running.describe(), "running");
    assert_eq!(TerminalStatus::Exited(3).describe(), "exited (3)");
    assert_eq!(TerminalStatus::Failed("broken".to_string()).describe(), "error: broken");
}

#[test]
fn only_a_running_shell_changes_its_status() {
    let mut status = TerminalStatus::Running;
    status.refresh(ShellCheck::Running);
    assert_eq!(status, TerminalStatus::Running);
    status.refresh(ShellCheck::Exited(2));
    assert_eq!(status, TerminalStatus::Exited(2));
    status.set_failed("late".to_string());
    assert_eq!(status, TerminalStatus::Exited(2));

    let mut status = TerminalStatus::Running;
    status.refresh(ShellCheck::Error("gone".to_string()));
    assert_eq!(status, TerminalStatus::Failed("shell status check failed: gone".to_string()));

    let mut status = TerminalStatus::Running;
    status.refresh(ShellCheck::Unavailable);
    assert_eq!(status, TerminalStatus::Failed("terminal child lock was poisoned".to_string()));
    status.refresh(ShellCheck::Exited(0));
    assert_eq!(status, TerminalStatus::Failed("terminal child lock was poisoned".to_string()));
}

#[test]
fn input_for_a_shell_is_encoded_for_its_modes() {
    let mut pane = TerminalPane::open("A".to_string(), "/tmp".to_string(), 1);
    let modes = ScreenModes {
        application_cursor: false,
        bracketed_paste: true,
        mouse_mode: MouseProtocolMode::Off,
        mouse_encoding: MouseProtocolEncoding::Default,
    };
    assert_eq!(
        pane.handle_event(Event::Paste("a\nb".to_string()), modes, false),
        TerminalInput::Write(b"\x1b[200~a\nb\x1b[201~".to_vec())
    );
    let enter = Event::Key(KeyEvent::new(KeyCode::Enter, KeyModifiers::none()));
    assert_eq!(pane.handle_event(enter, modes, false), TerminalInput::Write(b"\r".to_vec()));
    assert_eq!(pane.handle_event(Event::FocusLost, modes, false), TerminalInput::Nothing);
    assert_eq!(pane.resize(1, 2, 0, 40, Ok(())), Ok(()));
    assert_eq!(pane.viewport, Viewport { x: 1, y: 2, rows: 1, cols: 40 });
    assert_eq!(pane.resize(5, 6, 7, 8, Err("gone".to_string())), Err("gone".to_string()));
    assert_eq!(pane.viewport, Viewport { x: 1, y: 2, rows: 1, cols: 40 });
}

#[test]
fn a_shell_is_told_to_end_and_waited_for() {
    let told = TerminationCall::Made { terminated: true };
    assert!(matches!(
        end_shell(ShellEnd::Start, told, ChildLook::Running, 0),
        ShellEnd::Waiting
    ));
    let none = TerminationCall::NotMade;
    assert!(matches!(
        end_shell(ShellEnd::Waiting, none, ChildLook::Ended(9), 100),
        ShellEnd::Gone(Some(9))
    ));
    let late = end_shell(ShellEnd::Waiting, TerminationCall::NotMade, ChildLook::Running, 3_000);
    let ShellEnd::Failed(failure) = late else {
        panic!("a shell that outlives its time is not gone");
    };
    assert_eq!(failure.messages, ["terminal shell did not exit within 3.0s"]);
    let refused = || TerminationCall::Refused(Failure::of("denied".to_string()));
    assert!(matches!(
        end_shell(ShellEnd::Start, refused(), ChildLook::Running, 0),
        ShellEnd::Failed(_)
    ));
    assert!(matches!(
        end_shell(ShellEnd::Start, refused(), ChildLook::Ended(0), 0),
        ShellEnd::Gone(Some(0))
    ));
    let before = TerminationCall::Made { terminated: false };
    assert!(matches!(
        end_shell(ShellEnd::Start, before, ChildLook::Running, 0),
        ShellEnd::Gone(None)
    ));
}
