//! Input and pane events in the attached workspace and the session list.

use copilot_session_tui::app::{App, MainView, WorkspaceFocus, WorkspaceHelp};
use copilot_session_tui::host_terminal::{
    clear_progress, progress_sequence_for_state, ProgressState,
};
use copilot_session_tui::input::{
    Event, KeyCode, KeyEvent, KeyModifiers, MouseProtocolEncoding, MouseProtocolMode, Rect,
};
use copilot_session_tui::inspector::{
    handle_github_inspector_event, FilesPane, GithubInspector, GithubInspectorScreen, GithubTab,
    InspectorAction, RowKind, TreeRow,
};
use copilot_session_tui::lifecycle::{InputKind, LifecycleEvent};
use copilot_session_tui::mux::callbacks::{PaneSignalEvent, PaneSignals};
use copilot_session_tui::mux::pane::{Pane, PaneSpec, ScreenCells, ScreenModes};
use copilot_session_tui::mux::{KeyChord, MuxEvent, MuxState, PrefixState};
use copilot_session_tui::mux_input::{
    finish_paste, handle_attached_event, handle_attached_key, handle_list_prefix,
    handle_mux_event, handle_snippet_event, handle_terminal_event, kill_focused, signals_start_cycle, sync_view, Follow, InputContext,
    MuxReaction, Step,
};
use copilot_session_tui::notifications::NotificationKind;
use copilot_session_tui::panels::{
    focus_chat, focused_workspace_context, panel_work, scratchpad_toggle_work,
    sync_workspace_panels, terminal_toggle_needs_shell, toggle_attached_scratchpad,
    toggle_attached_terminal, PanelOutcomes,
};
use copilot_session_tui::snippets::{
    PromptSnippet, SnippetEditorField, SnippetModal, SnippetScope, SnippetScreen,
};
use copilot_session_tui::editor::TextEditor;

/// The program, with the snippets that are stored outside of it.
struct Program {
    app: App,
    snippets: Vec<PromptSnippet>,
    updates_requested: usize,
    pane_list: bool,
    written: Vec<u8>,
}

const MODES: ScreenModes = ScreenModes {
    application_cursor: false,
    bracketed_paste: false,
    mouse_mode: MouseProtocolMode::Off,
    mouse_encoding: MouseProtocolEncoding::Default,
};

fn context() -> InputContext {
    InputContext {
        modes: MODES,
        shell_modes: MODES,
        screen: ScreenCells { rows: Vec::new() },
        rows: Vec::new(),
        supported_key: true,
        windows: false,
    }
}

fn all_went_well() -> PanelOutcomes {
    PanelOutcomes { saved: Ok(()), opened: Ok(()), shell: Ok(()) }
}

fn key(code: KeyCode, modifiers: KeyModifiers) -> KeyEvent {
    KeyEvent::new(code, modifiers)
}

fn plain(code: KeyCode) -> KeyEvent {
    key(code, KeyModifiers::none())
}

fn control(c: char) -> KeyEvent {
    key(KeyCode::Char(c), KeyModifiers::with_control())
}

fn copies(list: &[PromptSnippet]) -> Vec<PromptSnippet> {
    list.iter().map(|snippet| stored(&snippet.name, &snippet.prompt)).collect()
}

fn stored(name: &str, prompt: &str) -> PromptSnippet {
    PromptSnippet { name: name.to_string(), prompt: prompt.to_string() }
}

impl Program {
    fn new() -> Self {
        let prefix = KeyChord::parse("C-b").unwrap();
        Program {
            app: App::new(Some(MuxState::new(prefix))),
            snippets: Vec::new(),
            updates_requested: 0,
            pane_list: false,
            written: Vec::new(),
        }
    }

    fn attached(session_id: &str) -> Self {
        let mut program = Program::new();
        program.push_pane(1, session_id);
        program.app.view = MainView::Attached(1);
        program
    }

    fn push_pane(&mut self, id: u64, session_id: &str) {
        let pane = Pane::spawn(
            PaneSpec {
                id,
                title: format!("Test session {id}"),
                cwd: "/tmp".to_string(),
                session_id: session_id.to_string(),
                program: "/bin/sh".to_string(),
                args: vec!["-c".to_string(), "sleep 30".to_string()],
                events_path: None,
            },
            24,
            80,
        );
        self.mux().push(pane);
    }

    fn mux(&mut self) -> &mut MuxState {
        self.app.mux.as_mut().unwrap()
    }

    fn pane(&self, id: u64) -> &Pane {
        self.app.mux.as_ref().unwrap().pane(id).unwrap()
    }

    fn open_snippets(&mut self) {
        self.app.snippet_modal =
            Some(SnippetModal::new(copies(&self.snippets), Vec::new(), None));
    }

    fn modal(&mut self) -> &mut SnippetModal {
        self.app.snippet_modal.as_mut().unwrap()
    }

    /// Does what an event asks for outside of the state.
    fn perform(&mut self, step: Step) {
        match step {
            Step::SyncPanels(follow) => {
                sync_workspace_panels(&mut self.app, all_went_well());
                match follow {
                    Follow::Nothing => {}
                    Follow::FocusChat => focus_chat(&mut self.app),
                    Follow::ToggleScratchpad => self.perform(Step::ToggleScratchpad),
                    Follow::ToggleTerminal => self.perform(Step::ToggleTerminal),
                    Follow::OpenSnippets => self.open_snippets(),
                }
            }
            Step::ToggleScratchpad => toggle_attached_scratchpad(&mut self.app, all_went_well()),
            Step::ToggleTerminal => toggle_attached_terminal(&mut self.app, Ok(())),
            Step::RequestQuit => self.app.request_quit_from_pane(),
            Step::RequestUpdate => self.updates_requested += 1,
            Step::OpenPaneList => self.pane_list = true,
            Step::OpenSnippets => self.open_snippets(),
            Step::OpenGithubInspector => {
                self.app.github_inspector = Some(GithubInspector::number_prompt());
            }
            Step::SaveSnippet { update, selected } => {
                self.snippets = copies(&update.global);
                self.modal().finish_save(update, selected, Ok(()));
            }
            Step::DeleteSnippet { update } => {
                self.snippets = copies(&update.global);
                self.modal().finish_delete(update, Ok(()));
            }
            Step::Write { bytes, .. } => self.written.extend(bytes),
            Step::PasteSnippet { bytes, .. } => {
                self.written.extend(bytes);
                finish_paste(&mut self.app, &Ok(()));
            }
            _ => {}
        }
    }

    fn attached_key(&mut self, key: KeyEvent) {
        let step = handle_attached_key(&mut self.app, key, MODES);
        self.perform(step);
    }

    fn attached_event(&mut self, event: Event) {
        let step = handle_attached_event(&mut self.app, event, &context());
        self.perform(step);
    }

    fn list_prefix(&mut self, key: KeyEvent) -> bool {
        let (consumed, step) = handle_list_prefix(&mut self.app, key);
        self.perform(step);
        consumed
    }

    fn prefix_command(&mut self, command: char) {
        self.attached_key(control('b'));
        self.attached_key(plain(KeyCode::Char(command)));
    }

    fn snippet_event(&mut self, event: Event) {
        let step = handle_snippet_event(&mut self.app, &event, MODES);
        self.perform(step);
    }

    fn snippet_key(&mut self, code: KeyCode) {
        self.snippet_event(Event::Key(plain(code)));
    }

    fn event(&mut self, event: MuxEvent) -> MuxReaction {
        handle_mux_event(&mut self.app, event)
    }

    fn sync_panels(&mut self) {
        sync_workspace_panels(&mut self.app, all_went_well());
    }
}

fn progress(states: &[ProgressState]) -> PaneSignals {
    PaneSignals {
        events: states.iter().map(|state| PaneSignalEvent::Progress(*state)).collect(),
        ..Default::default()
    }
}

fn requested(id: &str, kind: InputKind) -> LifecycleEvent {
    LifecycleEvent::InputRequested { tool_call_id: id.to_string(), kind }
}

fn resolved(id: &str, kind: InputKind) -> LifecycleEvent {
    LifecycleEvent::InputResolved { tool_call_id: id.to_string(), kind }
}

#[test]
fn a_clear_then_working_batch_starts_a_fresh_notification_cycle() {
    let clear = PaneSignalEvent::Progress(ProgressState::Clear);
    let indeterminate = PaneSignalEvent::Progress(ProgressState::Indeterminate);

    assert!(!signals_start_cycle(true, &vec![clear]));
    assert!(signals_start_cycle(true, &vec![clear, indeterminate]));
    assert!(signals_start_cycle(false, &vec![indeterminate, clear]));
}

#[test]
fn prefix_key_is_swallowed_and_arms_the_state_machine() {
    let mut program = Program::new();

    program.attached_key(control('b'));

    assert_eq!(program.mux().prefix_state, PrefixState::Root);
    assert!(program.written.is_empty());
}

#[test]
fn prefix_then_d_detaches_to_the_list() {
    let mut program = Program::new();
    program.app.view = MainView::Attached(1);
    program.attached_key(control('b'));

    program.attached_key(plain(KeyCode::Char('d')));

    assert_eq!(program.app.view, MainView::List);
    assert_eq!(program.mux().prefix_state, PrefixState::Idle);
}

#[test]
fn prefix_q_confirms_before_ending_a_lone_active_session() {
    let mut program = Program::attached("quit-lone-session");

    program.prefix_command('q');

    assert!(!program.app.should_quit);
    assert!(program.app.confirm_quit);
}

#[test]
fn prefix_q_dismisses_an_exited_session_without_confirming() {
    let mut program = Program::attached("quit-exited-session");
    program.mux().focused_pane_mut().unwrap().mark_exited(Some(0));

    program.prefix_command('q');

    assert!(program.app.should_quit);
    assert!(!program.app.confirm_quit);
}

#[test]
fn prefix_q_confirms_when_other_sessions_would_die_unseen() {
    let mut program = Program::attached("quit-visible-session");
    // Pushing focuses the new pane, so the first one becomes the background session the user cannot
    // see.
    program.push_pane(2, "quit-background-session");
    program.app.view = MainView::Attached(2);

    program.prefix_command('q');

    assert!(program.app.confirm_quit);
    assert!(!program.app.should_quit);
}

#[test]
fn confirming_the_quit_prompt_from_a_pane_quits() {
    let mut program = Program::new();
    program.app.view = MainView::Attached(1);
    program.app.confirm_quit = true;

    program.attached_event(Event::Key(plain(KeyCode::Char('y'))));

    assert!(program.app.should_quit);
    assert!(!program.app.confirm_quit);
}

#[test]
fn declining_the_quit_prompt_returns_to_the_pane_without_a_stale_notice() {
    let mut program = Program::new();
    program.app.view = MainView::Attached(1);
    program.app.confirm_quit = true;

    program.attached_event(Event::Key(plain(KeyCode::Char('n'))));

    assert!(!program.app.should_quit);
    assert!(!program.app.confirm_quit);
    assert_eq!(program.app.view, MainView::Attached(1));
    assert_eq!(program.app.status_message, None);
}

#[test]
fn the_quit_prompt_swallows_keys_instead_of_forwarding_them_to_the_child() {
    let mut program = Program::new();
    program.app.view = MainView::Attached(1);
    program.app.confirm_quit = true;

    program.attached_event(Event::Key(control('b')));

    assert_eq!(program.mux().prefix_state, PrefixState::Idle);
    assert!(!program.app.confirm_quit);
    assert!(!program.app.should_quit);
}

#[test]
fn github_namespace_opens_the_number_prompt_while_attached() {
    let mut program = Program::attached("github-inspector-test");

    for key in [control('b'), control('g'), plain(KeyCode::Char('i'))] {
        program.attached_key(key);
    }

    assert!(matches!(
        program.app.github_inspector.as_ref().map(|inspector| &inspector.screen),
        Some(GithubInspectorScreen::NumberPrompt)
    ));
}

#[test]
fn github_inspection_from_the_list_explains_that_attachment_is_required() {
    let mut program = Program::new();
    program.app.view = MainView::List;

    for key in [control('b'), control('g'), plain(KeyCode::Char('i'))] {
        assert!(program.list_prefix(key));
    }

    assert!(program.app.github_inspector.is_none());
    assert_eq!(
        program.app.status_message.as_deref(),
        Some("Attach to a session before inspecting a GitHub item")
    );
}

#[test]
fn github_number_prompt_accepts_only_digits_and_backspace() {
    let mut program = Program::attached("github-number-test");
    program.perform(Step::OpenGithubInspector);

    for code in
        [KeyCode::Char('1'), KeyCode::Char('x'), KeyCode::Char('2'), KeyCode::Backspace]
    {
        program.attached_event(Event::Key(plain(code)));
    }

    assert_eq!(
        program.app.github_inspector.as_ref().map(|inspector| inspector.input.as_str()),
        Some("1")
    );
    program.attached_event(Event::Key(plain(KeyCode::Esc)));
    assert!(program.app.github_inspector.is_none());
}

/// A pull request whose tree is `src/{ui/pane.rs, lib.rs}`, so there is a nested directory to fold and
/// two files to move between.
struct PullRequest {
    inspector: Option<GithubInspector>,
}

fn directory(label: &str, path: &str, expanded: bool, parent: Option<usize>) -> TreeRow {
    let kind = RowKind::Directory { path: path.to_string(), expanded };
    TreeRow { label: label.to_string(), kind, parent }
}

fn file(label: &str, index: usize, parent: Option<usize>) -> TreeRow {
    TreeRow { label: label.to_string(), kind: RowKind::File { index }, parent }
}

fn tree_rows(collapsed: &[String]) -> Vec<TreeRow> {
    let expanded = |path: &str| !collapsed.iter().any(|folded| folded == path);
    let mut rows = vec![directory("src", "src", expanded("src"), None)];
    if expanded("src") {
        rows.push(directory("ui", "src/ui", expanded("src/ui"), Some(0)));
        if expanded("src/ui") {
            rows.push(file("pane.rs", 0, Some(1)));
        }
        rows.push(file("lib.rs", 1, Some(0)));
    }
    rows
}

impl PullRequest {
    fn open() -> Self {
        let mut inspector = GithubInspector::number_prompt();
        inspector.screen = GithubInspectorScreen::Ready { pull_request: true };
        inspector.tab = GithubTab::Files;
        inspector.select_first_tree_file(&tree_rows(&[]));
        PullRequest { inspector: Some(inspector) }
    }

    fn get(&mut self) -> &mut GithubInspector {
        self.inspector.as_mut().unwrap()
    }

    fn rows(&self) -> Vec<TreeRow> {
        tree_rows(&self.inspector.as_ref().unwrap().collapsed_dirs)
    }

    fn labels(&self) -> Vec<String> {
        self.rows().into_iter().map(|row| row.label).collect()
    }

    fn press(&mut self, code: KeyCode) {
        let rows = self.rows();
        let action = handle_github_inspector_event(self.get(), &rows, &Event::Key(plain(code)));
        if action == InspectorAction::Close {
            self.inspector = None;
        }
    }
}

#[test]
fn the_files_tree_opens_on_the_first_file_not_a_directory() {
    let mut request = PullRequest::open();

    // rows: [src, ui, pane.rs, lib.rs], and the cursor skips to `pane.rs`.
    assert_eq!(request.labels(), vec!["src", "ui", "pane.rs", "lib.rs"]);
    assert_eq!(request.get().tree_selected, 2);
    assert_eq!(request.get().selected_file, 0);
}

#[test]
fn moving_through_the_tree_updates_the_diff_without_pressing_enter() {
    let mut request = PullRequest::open();

    request.press(KeyCode::Down);

    assert_eq!(request.get().tree_selected, 3);
    assert_eq!(request.get().selected_file, 1, "the diff follows the cursor");
    assert_eq!(request.get().files_pane, FilesPane::Tree);
}

#[test]
fn left_folds_a_directory_and_right_unfolds_it() {
    let mut request = PullRequest::open();

    // From `pane.rs`, Left steps out to `ui`, then Left folds it.
    request.press(KeyCode::Left);
    assert_eq!(request.get().tree_selected, 1);
    request.press(KeyCode::Left);
    assert_eq!(request.labels(), vec!["src", "ui", "lib.rs"]);

    request.press(KeyCode::Right);
    assert_eq!(request.labels(), vec!["src", "ui", "pane.rs", "lib.rs"]);
}

#[test]
fn enter_moves_focus_to_the_diff_and_esc_brings_it_back() {
    let mut request = PullRequest::open();

    request.press(KeyCode::Enter);
    assert_eq!(request.get().files_pane, FilesPane::Diff);

    // Arrows now scroll the patch instead of moving the tree cursor.
    request.press(KeyCode::Down);
    assert_eq!(request.get().tree_selected, 2, "the tree cursor stays put");

    request.press(KeyCode::Esc);
    assert_eq!(
        request.get().files_pane,
        FilesPane::Tree,
        "Esc returns to the tree before closing the inspector"
    );

    request.press(KeyCode::Esc);
    assert!(request.inspector.is_none());
}

#[test]
fn q_leaves_the_inspector_from_anywhere_in_it() {
    let mut request = PullRequest::open();

    request.press(KeyCode::Char('q'));
    assert!(request.inspector.is_none(), "q closes from a tab");

    // From inside a diff, where Esc only steps back to the tree.
    let mut request = PullRequest::open();
    request.press(KeyCode::Enter);
    assert_eq!(request.get().files_pane, FilesPane::Diff);

    request.press(KeyCode::Char('q'));
    assert!(request.inspector.is_none(), "q closes outright rather than returning to the tree");
}

#[test]
fn q_closes_the_loading_and_error_screens() {
    let mut request = PullRequest::open();
    request.get().screen = GithubInspectorScreen::Loading;
    request.press(KeyCode::Char('q'));
    assert!(request.inspector.is_none());

    let mut request = PullRequest::open();
    request.get().screen = GithubInspectorScreen::Error("nope".to_string());
    request.press(KeyCode::Char('q'));
    assert!(request.inspector.is_none());
}

#[test]
fn enter_on_a_directory_folds_it_instead_of_focusing_the_diff() {
    let mut request = PullRequest::open();
    request.get().tree_selected = 0;

    request.press(KeyCode::Enter);

    assert_eq!(request.labels(), vec!["src"]);
    assert_eq!(request.get().files_pane, FilesPane::Tree);
}

#[test]
fn the_wheel_scrolls_whichever_pane_it_is_over() {
    let mut request = PullRequest::open();
    let rows = request.rows();
    let inspector = request.get();
    inspector.tree_area = Rect { x: 0, y: 4, width: 30, height: 10 };
    inspector.diff_area = Rect { x: 31, y: 4, width: 60, height: 10 };
    inspector.visible_tree_rows = 2;
    // Normally set while drawing; the wheel clamps against it.
    inspector.max_diff_scroll = 10;

    // Over the diff: the patch scrolls and the tree cursor is untouched.
    inspector.scroll_github_at(&rows, 40, 6, 3);
    assert_eq!(inspector.diff_scroll, 3);
    assert_eq!(inspector.tree_selected, 2);

    // Over the tree: the view scrolls without dragging the selection.
    inspector.scroll_github_at(&rows, 5, 6, 3);
    assert_eq!(inspector.tree_offset, 2, "clamped to the last full page");
    assert_eq!(inspector.tree_selected, 2);
}

#[test]
fn clicking_a_tree_row_selects_it_and_focuses_the_tree() {
    let mut request = PullRequest::open();
    let rows = request.rows();
    let inspector = request.get();
    inspector.tree_area = Rect { x: 0, y: 4, width: 30, height: 10 };
    inspector.diff_area = Rect { x: 31, y: 4, width: 60, height: 10 };
    inspector.files_pane = FilesPane::Diff;

    inspector.click_github_inspector(&rows, 5, 7);

    assert_eq!(inspector.files_pane, FilesPane::Tree);
    assert_eq!(inspector.tree_selected, 3, "row 3 of the tree");
    assert_eq!(inspector.selected_file, 1);
}

#[test]
fn the_prefix_is_recognised_from_the_session_list() {
    let mut program = Program::new();
    program.app.view = MainView::List;

    let consumed = program.list_prefix(control('b'));

    assert!(consumed, "the prefix must not fall through to list bindings");
    assert_eq!(program.mux().prefix_state, PrefixState::Root);
}

#[test]
fn ordinary_list_keys_are_left_alone_when_no_prefix_is_pending() {
    let mut program = Program::new();
    program.app.view = MainView::List;

    let consumed = program.list_prefix(plain(KeyCode::Char('n')));

    assert!(!consumed, "'n' must still create a new session from the list");
}

#[test]
fn a_prefix_command_from_the_list_reports_when_nothing_is_running() {
    let mut program = Program::new();
    program.app.view = MainView::List;
    program.list_prefix(control('b'));

    let consumed = program.list_prefix(plain(KeyCode::Char('w')));

    assert!(consumed);
    assert_eq!(program.mux().prefix_state, PrefixState::Idle);
    assert!(!program.pane_list, "no panes, no switcher");
    assert!(program.app.status_message.is_some());
}

#[test]
fn per_session_state_is_keyed_on_the_session_not_the_pane_number() {
    // Pane numbering restarts at 1 every run, so a scratchpad or terminal keyed on it would be shared
    // by two unrelated new sessions.
    let first_run = Program::attached("session-alpha");
    let (first_pane, alpha, _, _) = focused_workspace_context(&first_run.app).unwrap();

    let second_run = Program::attached("session-beta");
    let (second_pane, beta, _, _) = focused_workspace_context(&second_run.app).unwrap();

    assert_eq!(first_pane, second_pane, "the same pane number, as in life");
    assert_eq!(alpha, "session-alpha");
    assert_eq!(beta, "session-beta");
    assert_ne!(alpha, beta, "but state must not be shared between them");
}

#[test]
fn prefix_s_opens_snippets_and_new_snippets_default_to_global() {
    let mut program = Program::attached("snippet-session");

    program.prefix_command('s');
    assert!(program.app.snippet_modal.is_some());

    program.snippet_key(KeyCode::Char('a'));
    assert_eq!(program.modal().editor_scope, SnippetScope::Global);
    program.modal().editor_name = TextEditor::new("Review").single_line();
    program.modal().editor_prompt = TextEditor::new("Review this carefully.");

    program.snippet_event(Event::Key(control('s')));

    assert_eq!(program.snippets.len(), 1);
    assert_eq!(program.snippets[0].name, "Review");
    assert_eq!(program.modal().screen, SnippetScreen::List);
}

#[test]
fn prefix_u_installs_without_detaching_or_ending_the_pane() {
    let mut program = Program::attached("update-session");
    program.app.update_notice = Some("Installing 0.19.0".to_string());

    program.prefix_command('u');

    assert_eq!(program.updates_requested, 1);
    assert!(matches!(program.app.view, MainView::Attached(1)));
    assert!(program.pane(1).is_running());
    assert!(!program.app.should_quit);

    program.attached_event(Event::Key(plain(KeyCode::Char('a'))));
    assert!(program.app.update_notice.is_none());
}

#[test]
fn snippet_editor_navigation_follows_name_scope_prompt() {
    let mut program = Program::attached("snippet-navigation-session");
    program.open_snippets();
    program.snippet_key(KeyCode::Char('a'));
    assert_eq!(program.modal().editor_field, SnippetEditorField::Name);

    program.snippet_key(KeyCode::Tab);
    assert_eq!(program.modal().editor_field, SnippetEditorField::Scope);
    program.snippet_key(KeyCode::Tab);
    assert_eq!(program.modal().editor_field, SnippetEditorField::Prompt);
    program.snippet_key(KeyCode::BackTab);
    assert_eq!(program.modal().editor_field, SnippetEditorField::Scope);

    program.modal().editor_field = SnippetEditorField::Name;
    program.snippet_key(KeyCode::Enter);
    assert_eq!(program.modal().editor_field, SnippetEditorField::Scope);
}

#[test]
fn using_a_snippet_closes_the_modal_and_focuses_chat_without_submitting() {
    let mut program = Program::attached("snippet-use-session");
    program.snippets = vec![stored("Plan", "Make a plan first; do not execute it yet.")];
    program.app.workspace_focus = WorkspaceFocus::Scratchpad;
    program.open_snippets();

    program.snippet_key(KeyCode::Enter);
    assert!(program.app.snippet_modal.is_none());
    assert_eq!(program.app.workspace_focus, WorkspaceFocus::Chat);
    assert_eq!(program.written, b"Make a plan first; do not execute it yet.");
}

#[test]
fn a_snippet_that_could_not_be_written_keeps_the_dialog() {
    let mut program = Program::attached("snippet-lost-session");
    program.snippets = vec![stored("Plan", "Make a plan.")];
    program.open_snippets();
    let step = handle_snippet_event(&mut program.app, &Event::Key(plain(KeyCode::Enter)), MODES);
    assert!(matches!(step, Step::PasteSnippet { .. }));
    finish_paste(&mut program.app, &Err("The session is gone".to_string()));
    let modal = program.app.snippet_modal.as_ref().expect("the dialog stays");
    assert_eq!(modal.error.as_deref(), Some("Cannot paste snippet: The session is gone"));
}

#[test]
fn nothing_is_written_to_a_shell_that_ended() {
    let mut program = Program::attached("shell-session");
    program.perform(Step::ToggleTerminal);
    let key = || Event::Key(plain(KeyCode::Char('x')));
    let step = handle_terminal_event(&mut program.app, key(), MODES, false);
    assert!(matches!(step, Step::WriteShell(bytes) if bytes == b"x"));
    program.app.terminal.active_mut().unwrap().record_exit(0);
    let step = handle_terminal_event(&mut program.app, key(), MODES, false);
    assert!(matches!(step, Step::Nothing));
    assert_eq!(
        program.app.status_message.as_deref(),
        Some("Terminal input failed: Shell is not running")
    );
}

#[test]
fn multiline_snippet_waits_for_bracketed_paste_instead_of_pressing_enter() {
    let mut program = Program::attached("snippet-safe-paste-session");
    program.snippets = vec![stored("Multiline", "line one\nline two")];
    program.open_snippets();

    program.snippet_key(KeyCode::Enter);

    let modal = program.app.snippet_modal.as_ref().expect("unsafe paste keeps the modal open");
    assert!(modal.error.as_deref().unwrap().contains("not ready for multiline paste"));
}

#[test]
fn deleting_a_snippet_requires_confirmation() {
    let mut program = Program::attached("snippet-delete-session");
    program.snippets = vec![stored("Disposable", "Delete me")];
    program.open_snippets();

    program.snippet_key(KeyCode::Char('d'));
    assert_eq!(program.modal().screen, SnippetScreen::ConfirmDelete);
    program.snippet_key(KeyCode::Esc);
    assert_eq!(program.snippets.len(), 1, "cancel keeps the snippet");

    program.snippet_key(KeyCode::Char('d'));
    program.snippet_key(KeyCode::Char('y'));
    assert!(program.snippets.is_empty());
    assert_eq!(program.modal().screen, SnippetScreen::List);
}

#[test]
fn editor_supports_multiline_prompt_input_and_project_scope_guard() {
    let mut program = Program::attached("snippet-editor-session");
    program.open_snippets();
    program.snippet_key(KeyCode::Char('a'));
    program.modal().editor_field = SnippetEditorField::Prompt;

    program.snippet_key(KeyCode::Char('o'));
    program.snippet_key(KeyCode::Char('n'));
    program.snippet_key(KeyCode::Char('e'));
    program.snippet_key(KeyCode::Enter);
    program.snippet_event(Event::Paste("two\nthree".to_string()));
    assert_eq!(program.modal().editor_prompt.text(), "one\ntwo\nthree");

    program.snippet_event(Event::Key(control('g')));
    assert_eq!(program.modal().editor_scope, SnippetScope::Global);
    assert!(program.modal().error.as_deref().unwrap().contains("No Git project"));
}

#[test]
fn editor_rejects_terminal_controls_before_persisting() {
    let mut program = Program::attached("snippet-control-session");
    program.open_snippets();
    program.snippet_key(KeyCode::Char('a'));
    program.modal().editor_name = TextEditor::new("Unsafe").single_line();
    program.modal().editor_prompt = TextEditor::new("text\u{1b}[201~");

    program.snippet_event(Event::Key(control('s')));

    assert!(program.snippets.is_empty());
    assert!(program.modal().error.as_deref().unwrap().contains("control characters"));
}

#[test]
fn editing_can_move_a_global_snippet_into_project_scope() {
    let mut program = Program::attached("snippet-move-session");
    program.snippets = vec![stored("Move me", "Project-specific prompt")];
    program.open_snippets();
    program.modal().project_root = Some("/tmp/snippet-project".to_string());

    program.snippet_key(KeyCode::Char('e'));
    program.snippet_event(Event::Key(control('g')));
    program.snippet_event(Event::Key(control('s')));

    assert!(program.snippets.is_empty());
    assert_eq!(program.modal().project.len(), 1);
    assert_eq!(program.modal().project[0].name, "Move me");
    assert_eq!(program.modal().screen, SnippetScreen::List);
}

#[test]
fn editing_in_place_does_not_reorder_the_list() {
    let mut program = Program::attached("snippet-order-session");
    program.snippets = vec![stored("First", "one"), stored("Second", "two")];
    program.open_snippets();
    program.snippet_key(KeyCode::Char('e'));
    program.modal().editor_prompt = TextEditor::new("updated");
    program.snippet_event(Event::Key(control('s')));

    assert_eq!(program.snippets[0].name, "First");
    assert_eq!(program.snippets[0].prompt, "updated");
    assert_eq!(program.snippets[1].name, "Second");
}

#[test]
fn scratchpad_help_is_available_from_the_list_without_running_sessions() {
    let mut program = Program::new();
    program.app.view = MainView::List;

    for key in [control('b'), control('h'), plain(KeyCode::Char('e'))] {
        assert!(program.list_prefix(key));
    }

    assert_eq!(program.app.workspace_help, Some(WorkspaceHelp::Scratchpad));
}

#[test]
fn an_unknown_prefix_command_clears_the_pending_state() {
    let mut program = Program::new();
    program.attached_key(control('b'));

    program.attached_key(plain(KeyCode::Char('z')));

    assert!(
        program.mux().prefix_state == PrefixState::Idle,
        "a stray prefix must not swallow every later keystroke"
    );
}

#[test]
fn prefix_e_opens_the_attached_scratchpad() {
    let mut program = Program::attached("prefix-scratchpad-test");
    assert_eq!(
        scratchpad_toggle_work(&program.app).open.as_deref(),
        Some("prefix-scratchpad-test")
    );

    program.prefix_command('e');

    assert!(program.app.scratchpad.is_some());
    assert_eq!(program.app.scratchpad_owner, Some(1));
    assert_eq!(program.app.workspace_focus, WorkspaceFocus::Scratchpad);
}

#[test]
fn prefix_ctrl_h_e_opens_scratchpad_help() {
    let mut program = Program::attached("prefix-scratchpad-help-test");

    program.attached_key(control('b'));
    program.attached_key(control('h'));
    assert_eq!(program.mux().prefix_state, PrefixState::Help);

    program.attached_key(plain(KeyCode::Char('e')));

    assert_eq!(program.app.workspace_help, Some(WorkspaceHelp::Scratchpad));
    assert_eq!(program.mux().prefix_state, PrefixState::Idle);

    program.attached_event(Event::Key(plain(KeyCode::Esc)));
    assert_eq!(program.app.workspace_help, None);
}

#[test]
fn prefix_t_opens_and_hides_the_attached_terminal() {
    let mut program = Program::attached("prefix-terminal-test");
    assert!(terminal_toggle_needs_shell(&program.app));

    program.prefix_command('t');
    assert!(program.app.terminal.is_visible());
    assert_eq!(program.app.terminal_owner, Some(1));
    assert_eq!(program.app.workspace_focus, WorkspaceFocus::Terminal);

    program.prefix_command('t');
    assert!(!program.app.terminal.is_visible());
    assert_eq!(program.app.workspace_focus, WorkspaceFocus::Chat);
}

#[test]
fn attached_panels_are_hidden_behind_the_pane_list_and_restored_on_reattach() {
    let mut program = Program::attached("panel-reattach-test");
    program.prefix_command('e');
    program.prefix_command('t');

    // The pane list lies over the session list.
    program.app.detach();

    assert!(!program.app.attached_scratchpad_visible());
    assert!(!program.app.attached_terminal_visible());
    assert!(program.app.scratchpad_open.contains(&1));
    assert!(program.app.terminal_open.contains(&1));

    program.app.view = MainView::Attached(1);
    program.sync_panels();

    assert!(program.app.attached_scratchpad_visible());
    assert!(program.app.attached_terminal_visible());
}

#[test]
fn attached_panels_are_not_inherited_by_another_session() {
    let mut program = Program::attached("panel-owner-a");
    program.push_pane(2, "panel-owner-b");
    program.mux().select_index(0);
    program.prefix_command('e');
    program.prefix_command('t');

    program.mux().select_index(1);
    program.app.view = MainView::Attached(2);
    assert!(panel_work(&program.app).save);
    program.sync_panels();

    assert!(!program.app.attached_scratchpad_visible());
    assert!(!program.app.attached_terminal_visible());

    program.mux().select_index(0);
    program.app.view = MainView::Attached(1);
    program.sync_panels();

    assert!(program.app.attached_scratchpad_visible());
    assert!(program.app.attached_terminal_visible());
}

#[test]
fn prefix_c_returns_focus_to_chat_without_hiding_panels() {
    let mut program = Program::attached("prefix-chat-test");
    program.prefix_command('e');
    assert!(program.app.scratchpad.is_some());

    program.prefix_command('c');

    assert_eq!(program.app.workspace_focus, WorkspaceFocus::Chat);
    assert!(program.app.scratchpad.is_some());
}

#[test]
fn attached_view_falls_back_to_the_list_when_no_panes_remain() {
    let mut program = Program::new();
    program.app.view = MainView::Attached(7);

    sync_view(&mut program.app);

    assert_eq!(program.app.view, MainView::List);
}

#[test]
fn output_for_an_unfocused_pane_does_not_force_a_repaint() {
    let mut program = Program::new();
    program.app.view = MainView::Attached(1);

    assert!(program.event(MuxEvent::Output(1, Default::default())).repaint);
    assert!(!program.event(MuxEvent::Output(2, Default::default())).repaint);
}

#[test]
fn host_progress_sequences_still_request_the_outer_terminal_flush() {
    let mut program = Program::attached("foreground");
    let sequence = b"\x1b]9;4;3;0\x1b\\".to_vec();

    assert!(program.event(MuxEvent::HostSequence(1, sequence.clone())).repaint);
    assert_eq!(program.app.host_sequences, vec![sequence]);
}

#[test]
fn background_pane_progress_cannot_override_the_focused_tab_spinner() {
    let mut program = Program::attached("foreground");
    program.push_pane(2, "background");
    program.mux().focused = Some(1);
    let sequence = b"\x1b]9;4;0;0\x1b\\".to_vec();

    assert!(!program.event(MuxEvent::HostSequence(2, sequence)).repaint);
    assert!(program.app.host_sequences.is_empty());
}

#[test]
fn progress_sequence_updates_background_state_before_a_focus_switch() {
    let mut program = Program::attached("foreground");
    program.push_pane(2, "background");
    program.mux().focused = Some(1);

    let working = b"\x1b]9;4;3;0\x1b\\".to_vec();
    assert!(!program.event(MuxEvent::HostSequence(2, working)).repaint);
    program.event(MuxEvent::Output(2, progress(&[ProgressState::Indeterminate])));
    let cleared = b"\x1b]9;4;0;0\x1b\\".to_vec();
    assert!(!program.event(MuxEvent::HostSequence(2, cleared)).repaint);

    program.mux().focused = Some(2);
    program.app.view = MainView::Attached(2);
    program.sync_panels();
    assert_eq!(
        program.app.host_sequences.last(),
        Some(&clear_progress()),
        "the clear sequence must be recorded before its later Output event"
    );
}

#[test]
fn focused_question_clears_and_suppresses_progress_until_resolved() {
    let mut program = Program::attached("foreground-question");
    program.app.terminal_focused = true;

    let working = progress(&[ProgressState::Indeterminate]);
    program.event(MuxEvent::Output(1, working.clone()));
    program.app.host_sequences.clear();

    let asked = program.event(MuxEvent::SessionLifecycle(
        1,
        requested("question-1", InputKind::Question),
    ));
    assert!(asked.repaint);
    assert_eq!(program.app.host_sequences, vec![clear_progress()]);
    assert_eq!(asked.alerts.len(), 1);
    assert_eq!(asked.alerts[0].kind, NotificationKind::Question);
    assert!(program.pane(1).needs_attention());
    program.app.acknowledge_focused_pane();
    assert!(
        program.pane(1).needs_attention(),
        "a focused question remains visible until it is answered"
    );

    program.app.host_sequences.clear();
    let sequence = b"\x1b]9;4;3;0\x1b\\".to_vec();
    assert!(!program.event(MuxEvent::HostSequence(1, sequence)).repaint);
    assert!(program.app.host_sequences.is_empty());
    program.event(MuxEvent::Output(1, working));

    program.event(MuxEvent::SessionLifecycle(
        1,
        resolved("not-the-question", InputKind::Question),
    ));
    assert!(program.pane(1).needs_attention());
    assert!(program.app.host_sequences.is_empty());

    program.event(MuxEvent::SessionLifecycle(1, resolved("question-1", InputKind::Question)));
    assert!(!program.pane(1).needs_attention());
    assert_eq!(
        program.app.host_sequences,
        vec![progress_sequence_for_state(ProgressState::Indeterminate)]
    );

    let complete = program.event(MuxEvent::Output(1, progress(&[ProgressState::Clear])));
    assert_eq!(complete.alerts.len(), 1);
    assert_eq!(complete.alerts[0].kind, NotificationKind::Ready);
}

#[test]
fn background_plan_approval_marks_attention_without_changing_outer_progress() {
    let mut program = Program::attached("foreground");
    program.push_pane(2, "background-plan");
    program.mux().focused = Some(1);
    program.app.host_sequences.clear();

    let asked = program.event(MuxEvent::SessionLifecycle(
        2,
        requested("plan-1", InputKind::PlanApproval),
    ));
    assert!(asked.repaint);
    assert!(program.app.host_sequences.is_empty());
    assert!(program.pane(2).needs_attention());
    assert_eq!(asked.alerts[0].kind, NotificationKind::PlanApproval);
}

#[test]
fn title_change_for_an_unfocused_pane_repaints_the_tab_strip() {
    let mut program = Program::attached("foreground");
    program.push_pane(2, "background");
    program.mux().focused = Some(1);
    program.app.view = MainView::Attached(1);
    let signals =
        PaneSignals { title: Some("Renamed background pane".to_string()), events: Vec::new() };

    assert!(program.event(MuxEvent::Output(2, signals)).repaint);
    assert_eq!(program.pane(2).title, "Renamed background pane");
}

#[test]
fn background_completion_requests_attention_and_switching_clears_it() {
    let mut program = Program::attached("foreground");
    program.push_pane(2, "background");
    program.mux().focused = Some(1);
    program.app.view = MainView::Attached(1);
    program.app.terminal_focused = true;

    let working = program.event(MuxEvent::Output(2, progress(&[ProgressState::Indeterminate])));
    assert_eq!(working.cycle_started.as_deref(), Some("background"));
    let complete = program.event(MuxEvent::Output(2, progress(&[ProgressState::Clear])));
    assert!(complete.repaint, "attention transition must repaint the internal tab strip");
    assert!(program.pane(2).needs_attention());
    assert_eq!(complete.alerts.len(), 1);
    assert_eq!(complete.alerts[0].kind, NotificationKind::Ready);
    assert_eq!(complete.alerts[0].title, "Test session 2");
    assert!(program.pane(2).display_title().starts_with("? "));

    program.mux().focused = Some(2);
    program.app.view = MainView::Attached(2);
    program.sync_panels();

    assert!(!program.pane(2).needs_attention());
}

#[test]
fn completion_in_the_focused_terminal_needs_attention_only_when_unfocused() {
    let mut program = Program::attached("focus-test");
    program.app.terminal_focused = false;

    let signals = progress(&[ProgressState::Indeterminate, ProgressState::Clear]);
    let reaction = program.event(MuxEvent::Output(1, signals));
    assert!(program.pane(1).needs_attention());
    assert_eq!(reaction.alerts.len(), 1);
    assert_eq!(reaction.alerts[0].kind, NotificationKind::Ready);

    program.app.terminal_focused = true;
    program.app.acknowledge_focused_pane();
    assert!(program.app.terminal_focused);
    assert!(!program.pane(1).needs_attention());
}

#[test]
fn focused_ready_and_error_events_still_publish_for_history() {
    let mut program = Program::attached("notification-history");
    program.app.terminal_focused = true;

    let ready = progress(&[ProgressState::Indeterminate, ProgressState::Clear]);
    let reaction = program.event(MuxEvent::Output(1, ready));
    assert!(!program.pane(1).needs_attention());
    assert_eq!(reaction.alerts[0].kind, NotificationKind::Ready);
    assert_eq!(reaction.alerts[0].session_id, "notification-history");

    let reaction = program.event(MuxEvent::Output(1, progress(&[ProgressState::Error])));
    assert_eq!(reaction.alerts[0].kind, NotificationKind::Error);
    let reaction = program.event(MuxEvent::Output(1, progress(&[ProgressState::Clear])));
    assert!(
        reaction.alerts.is_empty(),
        "error suppresses duplicate ready in the same work cycle"
    );
}

#[test]
fn exit_events_report_the_status() {
    let mut program = Program::attached("exiting");
    program.event(MuxEvent::HostSequence(1, b"\x1b]9;4;3;0\x1b\\".to_vec()));
    program.app.host_sequences.clear();

    assert!(program.event(MuxEvent::Exited(1, Some(2))).repaint);

    let message = program.app.status_message.clone().unwrap();
    assert!(message.contains("code 2"), "unexpected message: {message}");
    assert_eq!(program.app.host_sequences, vec![clear_progress()]);
    assert_eq!(program.pane(1).effective_progress_state(), ProgressState::Clear);
    assert!(!program.pane(1).is_working());

    program.app.host_sequences.clear();
    let late = program.event(MuxEvent::SessionLifecycle(
        1,
        requested("late-question", InputKind::Question),
    ));
    assert!(late.repaint);
    assert!(!program.pane(1).needs_attention());
    assert!(late.alerts.is_empty());
    assert!(program.app.host_sequences.is_empty());
}

#[test]
fn background_exit_does_not_clear_the_focused_pane_progress() {
    let mut program = Program::attached("foreground");
    program.push_pane(2, "background");
    program.mux().focused = Some(1);

    assert!(program.event(MuxEvent::Exited(2, Some(0))).repaint);
    assert!(program.app.host_sequences.is_empty());
}

#[test]
fn ordinary_keys_reach_the_child() {
    let mut program = Program::attached("typing");
    program.attached_event(Event::Key(plain(KeyCode::Char('h'))));
    program.attached_event(Event::Paste("i there".to_string()));
    program.prefix_command('b');
    assert_eq!(program.written, b"hi there");
    program.attached_key(control('b'));
    program.attached_key(control('b'));
    assert_eq!(program.written, b"hi there\x02", "a doubled prefix is sent once");
}

#[test]
fn killing_the_focused_pane_falls_back_to_the_next() {
    let mut program = Program::attached("one");
    program.push_pane(2, "two");
    program.app.view = MainView::Attached(2);
    assert!(!kill_focused(&mut program.app, 2, false), "its shell did not end");
    assert!(kill_focused(&mut program.app, 2, true));
    assert_eq!(program.app.view, MainView::Attached(1));
    assert!(kill_focused(&mut program.app, 1, true));
    assert_eq!(program.app.view, MainView::List);
}
