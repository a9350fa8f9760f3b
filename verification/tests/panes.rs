//! Panes behind a real terminal emulator: its callbacks, the pane's state, and what the program
//! shows of it.

use copilot_session_tui::app::{App, MainView};
use copilot_session_tui::host_terminal::ProgressState;
use copilot_session_tui::input::{
    Event, KeyCode, KeyEvent, KeyModifiers, MouseProtocolEncoding, MouseProtocolMode,
};
use copilot_session_tui::lifecycle::{InputKind, LifecycleEvent};
use copilot_session_tui::mux::callbacks::{
    CallbackAction, PaneCallbacks, PaneSignalEvent, PaneSignals, Query, ScreenFacts,
};
use copilot_session_tui::mux::pane::{
    github_reference_at, github_references, scroll_position, Pane, PaneNotification,
    PaneSignalOutcome, PaneSpec, PaneStatus, ScreenCells, ScreenModes, Viewport,
};
use copilot_session_tui::mux::pty::{
    needs_resize, pty_size, terminate_and_wait, ChildLook, TerminationCall, TerminationOutcome,
    TerminationState,
};
use copilot_session_tui::mux::{KeyChord, MuxState};
use copilot_session_tui::mux_input::InputContext;
use copilot_session_tui::session::worktree::Failure;
use copilot_session_tui::run_loop::{
    apply_terminal_event, desired_terminal_title, terminal_event_needs_repaint, Routed,
};

struct Emulator {
    callbacks: PaneCallbacks,
    replies: Vec<Vec<u8>>,
    host: Vec<Vec<u8>>,
}

impl Emulator {
    fn new(light: Option<bool>) -> Self {
        Emulator { callbacks: PaneCallbacks::new(7, light), replies: Vec::new(), host: Vec::new() }
    }

    fn perform(&mut self, action: CallbackAction) {
        match action {
            CallbackAction::Reply(bytes) => self.replies.push(bytes),
            CallbackAction::Host(bytes) => self.host.push(bytes),
        }
    }

    fn next_reply(&mut self) -> Option<Vec<u8>> {
        if self.replies.is_empty() {
            None
        } else {
            Some(self.replies.remove(0))
        }
    }

    fn next_host(&mut self) -> Option<Vec<u8>> {
        if self.host.is_empty() {
            None
        } else {
            Some(self.host.remove(0))
        }
    }

    fn set_light(&mut self, light: Option<bool>) {
        if let Some(reply) = self.callbacks.set_terminal_light_mode(light) {
            self.replies.push(reply);
        }
    }
}

impl vt100::Callbacks for Emulator {
    fn audible_bell(&mut self, _: &mut vt100::Screen) {
        self.callbacks.audible_bell();
    }

    fn set_window_icon_name(&mut self, _: &mut vt100::Screen, name: &[u8]) {
        self.callbacks.set_window_icon_name(&name.to_vec());
    }

    fn set_window_title(&mut self, _: &mut vt100::Screen, title: &[u8]) {
        self.callbacks.set_window_title(&title.to_vec());
    }

    fn copy_to_clipboard(&mut self, _: &mut vt100::Screen, ty: &[u8], data: &[u8]) {
        let action = self.callbacks.copy_to_clipboard(&ty.to_vec(), &data.to_vec());
        self.perform(action);
    }

    fn unhandled_csi(
        &mut self,
        screen: &mut vt100::Screen,
        i1: Option<u8>,
        _i2: Option<u8>,
        params: &[&[u16]],
        c: char,
    ) {
        let (cursor_row, cursor_column) = screen.cursor_position();
        let (rows, columns) = screen.size();
        let query = Query {
            final_byte: c,
            intermediate: i1,
            first: params.first().and_then(|group| group.first()).copied(),
        };
        let facts = ScreenFacts { cursor_row, cursor_column, rows, columns };
        if let Some(reply) = self.callbacks.unhandled_csi(query, facts) {
            self.replies.push(reply);
        }
    }

    fn unhandled_osc(&mut self, _: &mut vt100::Screen, params: &[&[u8]]) {
        let params: Vec<Vec<u8>> = params.iter().map(|param| param.to_vec()).collect();
        if let Some(action) = self.callbacks.unhandled_osc(&params) {
            self.perform(action);
        }
    }
}

fn emulator(light: bool) -> vt100::Parser<Emulator> {
    vt100::Parser::new_with_callbacks(24, 80, 0, Emulator::new(Some(light)))
}

fn cells<C: vt100::Callbacks>(parser: &vt100::Parser<C>) -> ScreenCells {
    let screen = parser.screen();
    let (rows, columns) = screen.size();
    ScreenCells {
        rows: (0..rows)
            .map(|row| {
                (0..columns)
                    .map(|column| {
                        screen.cell(row, column).map(|cell| cell.contents().to_string()).unwrap_or_default()
                    })
                    .collect()
            })
            .collect(),
    }
}

fn modes_of(screen: &vt100::Screen) -> ScreenModes {
    ScreenModes {
        application_cursor: screen.application_cursor(),
        bracketed_paste: screen.bracketed_paste(),
        mouse_mode: match screen.mouse_protocol_mode() {
            vt100::MouseProtocolMode::None => MouseProtocolMode::Off,
            vt100::MouseProtocolMode::Press => MouseProtocolMode::Press,
            vt100::MouseProtocolMode::PressRelease => MouseProtocolMode::PressRelease,
            vt100::MouseProtocolMode::ButtonMotion => MouseProtocolMode::ButtonMotion,
            vt100::MouseProtocolMode::AnyMotion => MouseProtocolMode::AnyMotion,
        },
        mouse_encoding: match screen.mouse_protocol_encoding() {
            vt100::MouseProtocolEncoding::Default => MouseProtocolEncoding::Default,
            vt100::MouseProtocolEncoding::Utf8 => MouseProtocolEncoding::Utf8,
            vt100::MouseProtocolEncoding::Sgr => MouseProtocolEncoding::Sgr,
        },
    }
}

/// A pane with the emulator that reads its output.
struct Child {
    pane: Pane,
    parser: vt100::Parser<Emulator>,
}

fn spec(id: u64, title: &str) -> PaneSpec {
    PaneSpec {
        id,
        title: title.to_string(),
        cwd: "/tmp".to_string(),
        session_id: format!("test-session-{id}"),
        program: "/bin/sh".to_string(),
        args: vec!["-c".to_string(), "sleep 30".to_string()],
        events_path: None,
    }
}

impl Child {
    fn spawn(id: u64) -> Self {
        Child { pane: Pane::spawn(spec(id, "test"), 24, 80), parser: emulator(false) }
    }

    fn feed(&mut self, bytes: &[u8]) {
        self.parser.process(bytes);
        let screen = cells(&self.parser);
        self.pane.note_screen(&screen);
    }

    fn refresh(&mut self, attended: bool) -> (PaneSignalOutcome, Vec<PaneNotification>) {
        let signals = self.parser.callbacks_mut().callbacks.take_signals();
        self.pane.apply_signals(signals, attended)
    }

    fn modes(&self) -> ScreenModes {
        modes_of(self.parser.screen())
    }
}

fn progress(state: ProgressState) -> PaneSignals {
    PaneSignals { events: vec![PaneSignalEvent::Progress(state)], ..Default::default() }
}

fn requested(id: &str, kind: InputKind) -> LifecycleEvent {
    LifecycleEvent::InputRequested { tool_call_id: id.to_string(), kind }
}

fn resolved(id: &str, kind: InputKind) -> LifecycleEvent {
    LifecycleEvent::InputResolved { tool_call_id: id.to_string(), kind }
}

#[test]
fn answers_cursor_position_requests() {
    let mut parser = emulator(false);

    // Move to row 3, col 5 (1-based), then ask where the cursor is.
    parser.process(b"\x1b[3;5H\x1b[6n");

    assert_eq!(parser.callbacks_mut().next_reply().unwrap(), b"\x1b[3;5R");
}

#[test]
fn answers_device_status_and_attribute_queries() {
    let mut parser = emulator(false);

    parser.process(b"\x1b[5n");
    assert_eq!(parser.callbacks_mut().next_reply().unwrap(), b"\x1b[0n");

    parser.process(b"\x1b[c");
    assert_eq!(parser.callbacks_mut().next_reply().unwrap(), b"\x1b[?62;1;6c");

    parser.process(b"\x1b[>c");
    assert_eq!(parser.callbacks_mut().next_reply().unwrap(), b"\x1b[>0;10;1c");
}

#[test]
fn reports_the_text_area_size() {
    let mut parser = emulator(false);

    parser.process(b"\x1b[18t");

    assert_eq!(parser.callbacks_mut().next_reply().unwrap(), b"\x1b[8;24;80t");
}

#[test]
fn captures_the_window_title() {
    let mut parser = emulator(false);

    parser.process(b"\x1b]2;my session\x07");

    assert_eq!(parser.callbacks_mut().callbacks.take_title().as_deref(), Some("my session"));
}

#[test]
fn a_title_that_is_no_utf8_keeps_its_readable_part() {
    let mut callbacks = PaneCallbacks::new(7, None);
    callbacks.set_window_title(&b"caf\xff".to_vec());
    assert_eq!(callbacks.take_title().as_deref(), Some("caf\u{fffd}"));
}

#[test]
fn an_icon_name_is_a_title_only_without_one() {
    let mut callbacks = PaneCallbacks::new(7, None);
    callbacks.set_window_icon_name(&b"icon".to_vec());
    assert_eq!(callbacks.title.as_deref(), Some("icon"));
    callbacks.set_window_title(&b"title".to_vec());
    callbacks.set_window_icon_name(&b"icon".to_vec());
    assert_eq!(callbacks.take_title().as_deref(), Some("title"));
}

#[test]
fn unrelated_sequences_produce_no_reply() {
    let mut parser = emulator(false);

    parser.process(b"hello\x1b[1;1H");

    assert!(parser.callbacks_mut().next_reply().is_none());
}

#[test]
fn forwards_clipboard_requests_to_the_host() {
    let mut parser = emulator(false);

    parser.process(b"\x1b]52;c;Q29waWVkIHRleHQ=\x07");

    assert_eq!(parser.callbacks().callbacks.pane_id, 7);
    assert_eq!(
        parser.callbacks_mut().next_host().unwrap(),
        b"\x1b]52;c;Q29waWVkIHRleHQ=\x1b\\"
    );
}

#[test]
fn forwards_progress_state_to_the_host() {
    let mut parser = emulator(false);

    parser.process(b"\x1b]9;4;3;0\x07");

    assert_eq!(parser.callbacks().callbacks.pane_id, 7);
    assert_eq!(parser.callbacks_mut().next_host().unwrap(), b"\x1b]9;4;3;0\x1b\\");
    assert_eq!(
        parser.callbacks_mut().callbacks.take_signals().events,
        vec![PaneSignalEvent::Progress(ProgressState::Indeterminate)]
    );
}

#[test]
fn progress_signals_are_drained_per_output_chunk() {
    let mut parser = emulator(false);

    parser.process(b"\x1b]9;4;3;0\x07");
    let working = parser.callbacks_mut().callbacks.take_signals();
    parser.process(b"\x1b]9;4;0;0\x07");
    let complete = parser.callbacks_mut().callbacks.take_signals();

    assert_eq!(working.events, vec![PaneSignalEvent::Progress(ProgressState::Indeterminate)]);
    assert_eq!(complete.events, vec![PaneSignalEvent::Progress(ProgressState::Clear)]);
    assert!(parser.callbacks_mut().callbacks.take_signals().events.is_empty());
}

#[test]
fn does_not_forward_unrelated_osc_commands() {
    let mut parser = emulator(false);

    parser.process(b"\x1b]8;;https://example.com\x07");

    assert!(parser.callbacks_mut().next_host().is_none());
}

#[test]
fn reports_the_nested_cst_theme_to_copilot() {
    let mut dark = emulator(false);
    dark.process(b"\x1b[?996n");
    assert_eq!(dark.callbacks_mut().next_reply().unwrap(), b"\x1b[?997;1n");

    let mut light = emulator(true);
    light.process(b"\x1b[?996n");
    assert_eq!(light.callbacks_mut().next_reply().unwrap(), b"\x1b[?997;2n");
}

#[test]
fn unspecified_classic_theme_leaves_detection_to_the_host_environment() {
    let mut parser = vt100::Parser::new_with_callbacks(24, 80, 0, Emulator::new(None));

    parser.process(b"\x1b[?996n");

    assert!(parser.callbacks_mut().next_reply().is_none());
}

#[test]
fn subscribed_children_receive_only_real_appearance_changes() {
    let mut parser = emulator(false);
    parser.process(b"\x1b[?2031h");

    parser.callbacks_mut().set_light(Some(true));
    assert_eq!(parser.callbacks_mut().next_reply().unwrap(), b"\x1b[?997;2n");
    parser.callbacks_mut().set_light(Some(true));
    assert!(parser.callbacks_mut().next_reply().is_none());

    parser.process(b"\x1b[?2031l");
    parser.callbacks_mut().set_light(Some(false));
    assert!(parser.callbacks_mut().next_reply().is_none());
}

#[test]
fn pane_viewport_translates_outer_mouse_coordinates() {
    let viewport = Viewport { x: 2, y: 1, rows: 10, cols: 20 };

    assert_eq!(viewport.coordinates(2, 1), Some((1, 1)));
    assert_eq!(viewport.coordinates(21, 10), Some((20, 10)));
    assert_eq!(viewport.coordinates(1, 1), None);
    assert_eq!(viewport.clamped_coordinates(99, 99), (20, 10));
    assert_eq!(viewport.cell_coordinates(2, 1), Some((0, 0)));
    assert_eq!(viewport.cell_coordinates(21, 10), Some((9, 19)));
}

#[test]
fn github_reference_is_detected_on_hash_or_digits() {
    let mut parser = vt100::Parser::new(4, 40, 0);
    parser.process(b"Findings posted to #2029 and #77.");
    let screen = cells(&parser);

    for column in 19..=23 {
        assert_eq!(github_reference_at(&screen, 0, column), Some(2029));
    }
    assert_eq!(github_reference_at(&screen, 0, 18), None);
    assert_eq!(github_reference_at(&screen, 0, 24), None);
    assert_eq!(github_reference_at(&screen, 0, 30), Some(77));
}

#[test]
fn ordinary_numbers_are_not_github_references() {
    let mut parser = vt100::Parser::new(2, 30, 0);
    parser.process(b"room 376 still 126");
    let screen = cells(&parser);

    assert_eq!(github_reference_at(&screen, 0, 6), None);
    assert_eq!(github_reference_at(&screen, 0, 16), None);
}

#[test]
fn screen_scan_finds_every_reference_once() {
    let mut parser = vt100::Parser::new(4, 40, 0);
    parser.process(b"Opened #2029, see #77 and #2029 again.\r\nColour #ff00aa is not one.");

    let mut found = github_references(&cells(&parser));
    found.sort_unstable();

    // `#ff00aa` yields no digits before the letters, so it never becomes a reference; the duplicate
    // is asked about only once.
    assert_eq!(found, vec![77, 2029]);
}

#[test]
fn screen_scan_ignores_hashes_glued_to_a_word() {
    let mut parser = vt100::Parser::new(2, 40, 0);
    parser.process(b"abc#12 x#9");

    assert!(github_references(&cells(&parser)).is_empty());
}

#[test]
fn a_child_that_enables_bracketed_paste_is_detected() {
    // Copilot CLI turns the mode on at startup; the paste path relies on seeing it so pasted
    // newlines travel as text instead of Enter keystrokes.
    let mut child = Child::spawn(1);

    assert!(!child.modes().bracketed_paste);
    child.feed(b"\x1b[?2004h");
    assert!(child.modes().bracketed_paste);
    let bytes = child.pane.send_prompt_snippet("line one\nline two", child.modes()).unwrap();
    assert_eq!(bytes, b"\x1b[200~line one\nline two\x1b[201~");
    child.feed(b"\x1b[?2004l");
    assert!(!child.modes().bracketed_paste);
}

#[test]
fn startup_readiness_is_cached_without_rebuilding_screen_contents() {
    let mut child = Child::spawn(1);

    assert!(child.pane.is_blank());
    child.feed(b"\x1b[?2004h\x1b[6n");
    assert!(child.pane.is_blank(), "control sequences are not visible output");
    child.feed(b"Copilot ready");
    assert!(!child.pane.is_blank());
    assert!(!child.pane.is_blank(), "subsequent checks are atomic reads");
    child.feed(b"\x1b[2J");
    assert!(!child.pane.is_blank());
}

#[test]
fn background_work_completion_sets_attention_until_acknowledged() {
    let mut child = Child::spawn(31);

    child.feed(b"\x1b]9;4;3;0\x1b\\");
    child.refresh(false);
    assert!(!child.pane.needs_attention(), "starting work clears old attention");

    child.feed(b"\x1b]9;4;0;0\x1b\\");
    let (_, notifications) = child.refresh(false);
    assert_eq!(notifications, vec![PaneNotification::Ready]);
    assert!(child.pane.needs_attention());
    assert!(child.pane.display_title().starts_with("? "));

    child.pane.acknowledge_attention();
    assert!(!child.pane.needs_attention());
    assert_eq!(child.pane.display_title(), child.pane.title);
}

#[test]
fn attended_completion_does_not_create_an_attention_marker() {
    let mut child = Child::spawn(32);

    child.feed(b"\x1b]9;4;3;0\x1b\\");
    child.refresh(true);
    child.feed(b"\x1b]9;4;0;0\x1b\\");
    let (_, notifications) = child.refresh(true);

    assert!(!child.pane.needs_attention());
    assert_eq!(
        notifications,
        vec![PaneNotification::Ready],
        "phone history is independent of focus"
    );
}

#[test]
fn question_state_overrides_progress_until_matching_completion() {
    let mut pane = Child::spawn(37).pane;
    pane.apply_signals(progress(ProgressState::Indeterminate), true);

    assert_eq!(
        pane.apply_lifecycle(requested("question-1", InputKind::Question)),
        Some(PaneNotification::Question)
    );
    assert!(pane.requires_user_action());
    assert_eq!(pane.effective_progress_state(), ProgressState::Clear);
    pane.acknowledge_attention();
    assert!(pane.needs_attention(), "focus cannot dismiss a live question");
    assert!(pane.display_title().starts_with("? "));

    let (_, notifications) = pane.apply_signals(progress(ProgressState::Indeterminate), true);
    assert!(notifications.is_empty());
    assert_eq!(pane.effective_progress_state(), ProgressState::Clear);

    pane.apply_lifecycle(resolved("another-question", InputKind::Question));
    assert!(pane.requires_user_action());
    pane.apply_lifecycle(resolved("question-1", InputKind::Question));
    assert!(!pane.requires_user_action());
    assert_eq!(pane.effective_progress_state(), ProgressState::Indeterminate);
    assert_eq!(pane.display_title(), pane.title);
}

#[test]
fn all_pending_inputs_must_resolve_and_reset_clears_stale_waits() {
    let mut pane = Child::spawn(38).pane;

    assert_eq!(
        pane.apply_lifecycle(requested("question", InputKind::Question)),
        Some(PaneNotification::Question)
    );
    assert_eq!(
        pane.apply_lifecycle(requested("plan", InputKind::PlanApproval)),
        Some(PaneNotification::PlanApproval)
    );
    pane.apply_lifecycle(resolved("question", InputKind::Question));
    assert!(pane.requires_user_action());

    pane.apply_lifecycle(LifecycleEvent::Reset);
    assert!(!pane.requires_user_action());
    assert!(!pane.needs_attention());
}

#[test]
fn working_and_clear_in_one_output_chunk_still_requests_attention() {
    let mut child = Child::spawn(33);

    child.feed(b"\x1b]9;4;3;0\x1b\\answer\x1b]9;4;0;0\x1b\\");
    assert_eq!(child.refresh(false).1, vec![PaneNotification::Ready]);

    assert!(child.pane.needs_attention());
}

#[test]
fn background_bell_requests_attention() {
    let mut child = Child::spawn(34);

    child.feed(b"\x07");
    let (outcome, notifications) = child.refresh(false);
    assert!(outcome.bell);
    assert_eq!(notifications, vec![PaneNotification::Ready]);
    assert!(child.pane.needs_attention());

    child.pane.acknowledge_attention();
    child.feed(b"\x07");
    let (_, notifications) = child.refresh(true);
    assert!(notifications.is_empty(), "bell is deduplicated until new work starts");
    assert!(!child.pane.needs_attention());
}

#[test]
fn error_notifies_once_and_suppresses_ready_until_the_next_cycle() {
    let mut child = Child::spawn(35);

    child.feed(b"\x1b]9;4;2;0\x1b\\");
    let (_, error) = child.refresh(true);
    assert_eq!(error, vec![PaneNotification::Error]);
    child.feed(b"\x1b]9;4;2;0\x1b\\\x1b]9;4;0;0\x1b\\");
    let (_, duplicate_and_clear) = child.refresh(true);
    assert!(duplicate_and_clear.is_empty());

    child.feed(b"\x1b]9;4;3;0\x1b\\\x1b]9;4;0;0\x1b\\");
    let (_, next_cycle) = child.refresh(true);
    assert_eq!(next_cycle, vec![PaneNotification::Ready]);
}

#[test]
fn ordered_chunk_preserves_multiple_cycles_and_bell_before_error() {
    let mut child = Child::spawn(36);

    child.feed(
        b"\x1b]9;4;3;0\x1b\\\x07\x1b]9;4;2;0\x1b\\\x1b]9;4;0;0\x1b\\\
          \x1b]9;4;3;0\x1b\\\x1b]9;4;0;0\x1b\\",
    );
    let (_, notifications) = child.refresh(false);

    assert_eq!(
        notifications,
        vec![PaneNotification::Ready, PaneNotification::Error, PaneNotification::Ready]
    );
}

#[test]
fn keys_sent_to_an_exited_pane_are_ignored() {
    let mut child = Child::spawn(2);
    child.pane.mark_exited(Some(0));

    // Must not error even though the child is gone.
    let key = KeyEvent::new(KeyCode::Char('x'), KeyModifiers::none());
    assert_eq!(child.pane.send_key(&key, child.modes()), None);
    assert_eq!(child.pane.send_paste("text", child.modes()), None);
    assert!(child.pane.send_prompt_snippet("text", child.modes()).is_err());
}

#[test]
fn multiline_snippet_is_rejected_until_bracketed_paste_is_enabled() {
    let child = Child::spawn(3);
    let modes = child.modes();

    assert!(child.pane.send_prompt_snippet("", modes).unwrap_err().message().contains("empty"));
    assert!(child
        .pane
        .send_prompt_snippet("safe\x1b[201~unsafe", modes)
        .unwrap_err()
        .message()
        .contains("control characters"));
    child.pane.send_prompt_snippet("single line", modes).unwrap();
    let error = child.pane.send_prompt_snippet("line one\nline two", modes).unwrap_err().message();
    assert!(error.contains("not ready for multiline paste"));
}

#[test]
fn resize_updates_the_parser_dimensions() {
    let mut child = Child::spawn(3);

    child.pane.resize(40, 120, Ok(())).unwrap();
    let size = pty_size(40, 120);
    child.parser.screen_mut().set_size(size.rows, size.cols);
    assert_eq!(child.parser.screen().size(), (40, 120));
    assert_eq!(child.pane.viewport, Viewport { x: 0, y: 0, rows: 40, cols: 120 });

    child.pane.resize_at(1, 2, 3, 4, Err("gone".to_string())).unwrap_err();
    assert_eq!(child.pane.viewport, Viewport { x: 0, y: 0, rows: 40, cols: 120 });
}

#[test]
fn an_exit_counts_once_it_was_seen() {
    let mut child = Child::spawn(30);
    assert!(child.pane.is_running());

    child.pane.poll_exit(None);
    assert!(child.pane.is_running());
    child.pane.poll_exit(Some(137));

    assert!(!child.pane.is_running());
    assert!(matches!(child.pane.status, PaneStatus::Exited(_)));
}

#[test]
fn typed_keys_are_encoded_for_the_child() {
    let child = Child::spawn(4);
    let mut typed: Vec<u8> = Vec::new();
    for ch in "echo round-trip".chars() {
        let key = KeyEvent::new(KeyCode::Char(ch), KeyModifiers::none());
        typed.extend(child.pane.send_key(&key, child.modes()).unwrap());
    }
    let enter = KeyEvent::new(KeyCode::Enter, KeyModifiers::none());
    typed.extend(child.pane.send_key(&enter, child.modes()).unwrap());
    assert_eq!(typed, b"echo round-trip\r");
}

#[test]
fn resize_is_recorded_and_ignores_no_op_changes() {
    let size = pty_size(24, 80);
    let wanted = pty_size(40, 120);
    assert!(needs_resize(size, wanted));
    assert_eq!((wanted.rows, wanted.cols), (40, 120));
    assert!(!needs_resize(wanted, pty_size(40, 120)));
}

#[test]
fn zero_dimensions_are_clamped() {
    let size = pty_size(0, 0);
    assert_eq!((size.rows, size.cols), (1, 1));
}

#[test]
fn scrolling_moves_three_rows_and_stops_at_the_present() {
    assert_eq!(scroll_position(0, true), 3);
    assert_eq!(scroll_position(2, false), 0);
    assert_eq!(scroll_position(10, false), 7);
    assert_eq!(scroll_position(usize::MAX, true), usize::MAX);
}

#[test]
fn a_hidden_cursor_is_shown_nowhere() {
    let child = Child::spawn(5);
    assert_eq!(child.pane.cursor(false, (3, 4)), Some((3, 4)));
    assert_eq!(child.pane.cursor(true, (3, 4)), None);
}

fn prefix() -> KeyChord {
    KeyChord::parse("C-b").unwrap()
}

fn context(child: &Child) -> InputContext {
    InputContext {
        modes: child.modes(),
        shell_modes: child.modes(),
        screen: cells(&child.parser),
        rows: Vec::new(),
        supported_key: true,
        windows: false,
    }
}

fn press(code: KeyCode, modifiers: KeyModifiers) -> Event {
    Event::Key(KeyEvent::new(code, modifiers))
}

#[test]
fn ordinary_chat_input_waits_for_the_child_before_repainting() {
    let mut app = App::new(Some(MuxState::new(prefix())));
    app.mux.as_mut().unwrap().push(Pane::spawn(spec(1, "Latency test"), 24, 80));
    app.view = MainView::Attached(1);
    app.terminal_focused = true;

    let character = press(KeyCode::Char('a'), KeyModifiers::none());
    assert!(!terminal_event_needs_repaint(&app, &character));
    assert!(!terminal_event_needs_repaint(&app, &Event::Paste("large prompt".to_string())));

    let prefix = press(KeyCode::Char('b'), KeyModifiers::with_control());
    assert!(terminal_event_needs_repaint(&app, &prefix));

    app.update_notice = Some("Update ready".to_string());
    assert!(terminal_event_needs_repaint(&app, &character));
}

#[test]
fn outer_title_carries_attention_in_attached_and_list_views() {
    let mut child = Child::spawn(1);
    child.pane.title = "Plan review".to_string();
    child.feed(b"\x1b]9;4;3;0\x1b\\\x1b]9;4;0;0\x1b\\");
    child.refresh(false);
    let context = context(&child);
    let mut app = App::new(Some(MuxState::new(prefix())));
    let Child { pane, mut parser } = child;
    app.mux.as_mut().unwrap().push(pane);
    app.view = MainView::Attached(1);

    assert_eq!(desired_terminal_title(&app), "? Plan review");
    app.terminal_focused = false;
    assert!(matches!(apply_terminal_event(&mut app, Event::FocusGained, &context), Routed::Done));
    assert_eq!(desired_terminal_title(&app), "Plan review");

    app.terminal_focused = false;
    parser.process(b"\x1b]9;4;3;0\x1b\\\x1b]9;4;0;0\x1b\\");
    let signals = parser.callbacks_mut().callbacks.take_signals();
    app.mux.as_mut().unwrap().pane_mut(1).unwrap().apply_signals(signals, false);
    app.view = MainView::List;
    assert_eq!(desired_terminal_title(&app), "? Copilot Session Manager");
    apply_terminal_event(&mut app, Event::FocusGained, &context);
    assert_eq!(
        desired_terminal_title(&app),
        "? Copilot Session Manager",
        "focusing the list must not acknowledge a pane that was not viewed"
    );
}

fn step(state: TerminationState, call: TerminationCall, look: ChildLook, at: u64) -> String {
    format!("{:?}", terminate_and_wait(state, call, look, at, 3_000, Some(42)))
}

#[test]
fn a_child_that_ended_by_itself_was_not_terminated() {
    let ended = format!(
        "{:?}",
        TerminationState::Done(TerminationOutcome { code: Some(3), terminated: false })
    );
    let refused = TerminationCall::Refused(Failure::of("denied".to_string()));
    assert_eq!(
        step(TerminationState::Start, TerminationCall::NotMade, ChildLook::Ended(3), 0),
        ended
    );
    assert_eq!(step(TerminationState::Start, refused, ChildLook::Ended(3), 0), ended);
    let late = TerminationCall::Made { terminated: false };
    assert_eq!(step(TerminationState::Start, late, ChildLook::Ended(3), 0), ended);
}

#[test]
fn a_child_is_told_to_end_and_waited_for() {
    let told = || TerminationCall::Made { terminated: true };
    let waiting = || TerminationState::Waiting { terminated: true };
    assert_eq!(
        step(TerminationState::Start, told(), ChildLook::Running, 0),
        format!("{:?}", waiting())
    );
    let ended = format!(
        "{:?}",
        TerminationState::Done(TerminationOutcome { code: Some(137), terminated: true })
    );
    assert_eq!(step(TerminationState::Start, told(), ChildLook::Ended(137), 0), ended);
    assert_eq!(step(waiting(), TerminationCall::NotMade, ChildLook::Ended(137), 9_000), ended);

    let message = |state: TerminationState| match state {
        TerminationState::Failed(failure) => failure.messages,
        other => panic!("{other:?}"),
    };
    let none = TerminationCall::NotMade;
    let late = terminate_and_wait(waiting(), none, ChildLook::Running, 3_000, 3_000, Some(42));
    assert_eq!(message(late), ["Session process 42 did not exit within 3000 ms"]);
    let unseen = ChildLook::Unknown(Failure::of("gone".to_string()));
    let failed = terminate_and_wait(waiting(), TerminationCall::NotMade, unseen, 0, 3_000, None);
    assert_eq!(
        message(failed),
        ["Failed to check the session process after termination", "gone"]
    );
    let refused = TerminationCall::Refused(Failure::of("denied".to_string()));
    let refused =
        terminate_and_wait(TerminationState::Start, refused, ChildLook::Running, 0, 3_000, None);
    assert_eq!(message(refused), ["denied"]);
}

#[test]
fn a_cycle_is_announced_once_however_its_output_is_cut() {
    let mut pane = Child::spawn(41).pane;
    let bell = || PaneSignals { events: vec![PaneSignalEvent::Bell], ..Default::default() };
    let mut notices = Vec::new();
    for signals in [
        progress(ProgressState::Indeterminate),
        bell(),
        bell(),
        progress(ProgressState::Clear),
        bell(),
    ] {
        notices.extend(pane.apply_signals(signals, false).1);
    }
    assert_eq!(notices, vec![PaneNotification::Ready]);

    let mut notices = Vec::new();
    for signals in [
        progress(ProgressState::Error),
        progress(ProgressState::Error),
        bell(),
        progress(ProgressState::Clear),
    ] {
        notices.extend(pane.apply_signals(signals, false).1);
    }
    assert_eq!(notices, vec![PaneNotification::Error]);
}

#[test]
fn a_waiting_pane_stays_marked_and_is_not_ready() {
    let mut pane = Child::spawn(42).pane;
    pane.apply_signals(progress(ProgressState::Indeterminate), false);
    pane.apply_lifecycle(requested("question-1", InputKind::Question));
    for state in [ProgressState::Clear, ProgressState::Indeterminate, ProgressState::Clear] {
        let (_, notices) = pane.apply_signals(progress(state), false);
        assert!(!notices.contains(&PaneNotification::Ready));
        assert!(pane.needs_attention());
    }
}
