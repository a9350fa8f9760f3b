//! Where input and pane events go: the attached workspace, the prefix key, and the snippet dialog.
//!
//! A handler changes the program's state and returns the one thing that has to be done outside.

use crate::app::{
    acknowledged, byte_views, lemma_byte_views_push, pane_exchanged, App, MainView, WorkspaceFocus,
    WorkspaceHelp,
};
use crate::editor::{
    at_line_boundary, backspaced, deleted, inserted, stepped, vertical_move, TextEditor,
};
use crate::host_terminal::{
    clear_progress, progress_state_from_sequence, report, written_state, ProgressState,
};
use crate::input::{
    Event, KeyCode, KeyEvent, KeyEventKind, MouseButton, MouseEvent, MouseEventKind,
};
use crate::inspector::{handle_github_inspector_event, InspectorAction, TreeRow};
use crate::lifecycle::LifecycleEvent;
use crate::mux::callbacks::{PaneSignalEvent, PaneSignals};
use crate::mux::keys::{key_bytes, paste_bytes};
use crate::mux::pane::{
    cycle_after, lifecycle_notice, pending_after, pending_view, snippet_refusal, MouseAction, Pane,
    PaneId, PaneNotification, PaneStatus, ScreenCells, ScreenModes, SnippetRefusal, WorkCycle,
};
use crate::mux::{
    cycled_focus, github_command, help_command, lemma_pane_position, pane_position, prefix_command,
    resolve_github_command, resolve_help_command, resolve_prefix_command, GithubCommand,
    HelpCommand, MuxEvent, MuxState, PrefixCommand, PrefixState,
};
use crate::notifications::NotificationKind;
use crate::panels::{chat_focused, focus_chat};
use crate::scratchpad::{scratchpad_request, ScratchpadRequest};
use crate::snippets::{
    deletion_planned, entry_at, save_planned, scope_toggled, SnippetEditorField, SnippetModal,
    SnippetScope, SnippetScreen, SnippetUpdate,
};
use crate::strings::{decimal, decimal_text, trim};
use crate::terminal_pane::{
    after_shell_event, shell_bytes, shell_scroll, TerminalInput, TerminalManager,
};
use vstd::prelude::*;

verus! {

/// What follows once the panels were brought to the focused pane.
#[derive(Clone, Copy, Debug, PartialEq, Eq, Structural)]
pub enum Follow {
    Nothing,
    FocusChat,
    ToggleScratchpad,
    ToggleTerminal,
    OpenSnippets,
}

/// The one thing that has to be done outside after an event.
pub enum Step {
    Nothing,
    /// Write bytes to the child of a pane.
    Write { pane: PaneId, bytes: Vec<u8> },
    /// Scroll the history of a pane.
    Scroll { pane: PaneId, up: bool },
    Detached,
    OpenPaneList,
    RequestQuit,
    OpenSnippets,
    RequestUpdate,
    OpenGithubInspector,
    InspectGithubItem(u64),
    SubmitGithubNumber,
    RetryGithubRequest,
    CycleGithubTab { forward: bool },
    /// Bring the panels to the focused pane, and go on.
    SyncPanels(Follow),
    /// Forget the panels of a pane, and then the pane.
    ForgetPanels(PaneId),
    ToggleScratchpad,
    ToggleTerminal,
    /// Write the bytes of a snippet to the child of a pane; [`finish_paste`] takes in how that went.
    PasteSnippet { pane: PaneId, bytes: Vec<u8> },
    /// Store a change that saves a snippet; the position is selected once that worked.
    SaveSnippet { update: SnippetUpdate, selected: usize },
    /// Store a change that deletes a snippet.
    DeleteSnippet { update: SnippetUpdate },
    Scratchpad(ScratchpadRequest),
    /// Write bytes to the shell of the shown terminal.
    WriteShell(Vec<u8>),
    /// Scroll the history of the shown terminal.
    ScrollShell { up: bool },
}

/// A text field after a key of the snippet editor, other than one that inserts.
pub open spec fn field_edited(before: TextEditor, code: KeyCode, after: TextEditor) -> bool {
    match code {
        KeyCode::Backspace => backspaced(before, after),
        KeyCode::Delete => deleted(before, after),
        KeyCode::Left => after == stepped(before, false),
        KeyCode::Right => after == stepped(before, true),
        KeyCode::Home => after == at_line_boundary(before, false),
        KeyCode::End => after == at_line_boundary(before, true),
        _ => after == before,
    }
}

/// Whether a dialog is another with its focused text field changed by a relation, given for each
/// field; the scope has no text.
pub open spec fn focused_edited(before: SnippetModal, code: KeyCode, after: SnippetModal) -> bool {
    match before.editor_field {
        SnippetEditorField::Name => {
            &&& field_edited(before.editor_name, code, after.editor_name)
            &&& after == (SnippetModal { editor_name: after.editor_name, ..before })
        },
        SnippetEditorField::Prompt => {
            &&& field_edited(before.editor_prompt, code, after.editor_prompt)
            &&& after == (SnippetModal { editor_prompt: after.editor_prompt, ..before })
        },
        SnippetEditorField::Scope => after == before,
    }
}

/// Whether a dialog is another with a text inserted in its focused field.
pub open spec fn focused_inserted(before: SnippetModal, text: Seq<char>, after: SnippetModal) -> bool {
    match before.editor_field {
        SnippetEditorField::Name => {
            &&& inserted(before.editor_name, text, after.editor_name)
            &&& after == (SnippetModal { editor_name: after.editor_name, ..before })
        },
        SnippetEditorField::Prompt => {
            &&& inserted(before.editor_prompt, text, after.editor_prompt)
            &&& after == (SnippetModal { editor_prompt: after.editor_prompt, ..before })
        },
        SnippetEditorField::Scope => after == before,
    }
}

/// Whether a dialog is another with its prompt cursor one line up or down.
pub open spec fn prompt_moved(before: SnippetModal, down: bool, after: SnippetModal) -> bool {
    if before.editor_field == SnippetEditorField::Prompt {
        after == (SnippetModal {
            editor_prompt: TextEditor {
                cursor: vertical_move(
                    before.editor_prompt.chars@,
                    before.editor_prompt.cursor as int,
                    down,
                ) as usize,
                ..before.editor_prompt
            },
            ..before
        })
    } else {
        after == before
    }
}

/// Whether a key asks the snippet editor to save.
pub open spec fn saves(key: KeyEvent) -> bool {
    key.modifiers.control && key.code == KeyCode::Char('s')
}

/// Whether saving the editor's snippet leads to a dialog and a step: a problem is shown, else the
/// change is handed out.
pub open spec fn save_effect(before: SnippetModal, after: SnippetModal, step: Step) -> bool {
    match before.problem() {
        Some(problem) => {
            &&& step is Nothing
            &&& after.error matches Some(message) && message@ == problem.text()
            &&& after == (SnippetModal { error: after.error, ..before })
        },
        None => {
            &&& after == before
            &&& step matches Step::SaveSnippet { update, selected } && save_planned(
                before,
                update,
                selected,
            )
        },
    }
}

/// What a key over the snippet editor does to the dialog, other than saving.
pub open spec fn editor_key_effect(before: SnippetModal, key: KeyEvent, after: SnippetModal) -> bool {
    if key.modifiers.control && key.code == KeyCode::Char('g') {
        scope_toggled(before, after)
    } else {
        match key.code {
            KeyCode::Esc => after == (SnippetModal {
                screen: SnippetScreen::List,
                error: None,
                ..before
            }),
            KeyCode::Tab => after == (SnippetModal {
                editor_field: before.editor_field.neighbour(true),
                ..before
            }),
            KeyCode::BackTab => after == (SnippetModal {
                editor_field: before.editor_field.neighbour(false),
                ..before
            }),
            KeyCode::Up => prompt_moved(before, false, after),
            KeyCode::Down => prompt_moved(before, true, after),
            KeyCode::Enter => match before.editor_field {
                SnippetEditorField::Name => after == (SnippetModal {
                    editor_field: SnippetEditorField::Scope,
                    ..before
                }),
                SnippetEditorField::Prompt => focused_inserted(before, seq!['\n'], after),
                SnippetEditorField::Scope => scope_toggled(before, after),
            },
            KeyCode::Char(c) => if c == ' ' && before.editor_field == SnippetEditorField::Scope {
                scope_toggled(before, after)
            } else if !key.modifiers.control && !key.modifiers.alt {
                focused_inserted(before, seq![c], after)
            } else {
                after == before
            },
            _ => focused_edited(before, key.code, after),
        }
    }
}

/// Shows why the editor's snippet cannot be saved, or hands out the change that saves it.
pub fn save_snippet_editor(modal: &mut SnippetModal) -> (step: Step)
    requires
        old(modal).wf(),
        old(modal).screen == SnippetScreen::Editor,
    ensures
        final(modal).wf(),
        save_effect(*old(modal), *final(modal), step),
{
    match modal.plan_save() {
        Ok((update, selected)) => Step::SaveSnippet { update, selected },
        Err(problem) => {
            modal.error = Some(problem.message());
            Step::Nothing
        },
    }
}

fn insert_focused(modal: &mut SnippetModal, text: &str)
    requires
        old(modal).wf(),
    ensures
        final(modal).wf(),
        focused_inserted(*old(modal), text@, *final(modal)),
{
    match modal.editor_field {
        SnippetEditorField::Name => modal.editor_name.insert_text(text),
        SnippetEditorField::Prompt => modal.editor_prompt.insert_text(text),
        SnippetEditorField::Scope => {},
    }
}

fn edit_field(editor: &mut TextEditor, code: KeyCode)
    requires
        old(editor).wf(),
    ensures
        final(editor).wf(),
        final(editor).one_line == old(editor).one_line,
        field_edited(*old(editor), code, *final(editor)),
{
    match code {
        KeyCode::Backspace => editor.backspace(),
        KeyCode::Delete => editor.delete(),
        KeyCode::Left => editor.move_cursor(false),
        KeyCode::Right => editor.move_cursor(true),
        KeyCode::Home => editor.move_line_boundary(false),
        KeyCode::End => editor.move_line_boundary(true),
        _ => {},
    }
}

/// A key over the snippet editor.
pub fn handle_snippet_editor_key(modal: &mut SnippetModal, key: KeyEvent) -> (step: Step)
    requires
        old(modal).wf(),
        old(modal).screen == SnippetScreen::Editor,
    ensures
        final(modal).wf(),
        saves(key) ==> save_effect(*old(modal), *final(modal), step),
        !saves(key) ==> step is Nothing && editor_key_effect(*old(modal), key, *final(modal)),
{
    if key.modifiers.control && key.code == KeyCode::Char('s') {
        return save_snippet_editor(modal);
    }
    if key.modifiers.control && key.code == KeyCode::Char('g') {
        modal.toggle_scope();
        return Step::Nothing;
    }
    match key.code {
        KeyCode::Esc => modal.cancel_subscreen(),
        KeyCode::Tab => {
            modal.editor_field = modal.editor_field.next(true);
        },
        KeyCode::BackTab => {
            modal.editor_field = modal.editor_field.next(false);
        },
        KeyCode::Up => {
            if modal.editor_field == SnippetEditorField::Prompt {
                modal.editor_prompt.move_vertical(false);
            }
        },
        KeyCode::Down => {
            if modal.editor_field == SnippetEditorField::Prompt {
                modal.editor_prompt.move_vertical(true);
            }
        },
        KeyCode::Enter => match modal.editor_field {
            SnippetEditorField::Name => {
                modal.editor_field = SnippetEditorField::Scope;
            },
            SnippetEditorField::Prompt => {
                proof {
                    reveal_strlit("\n");
                    assert("\n"@ =~= seq!['\n']);
                }
                insert_focused(modal, "\n");
            },
            SnippetEditorField::Scope => modal.toggle_scope(),
        },
        KeyCode::Char(c) => {
            if c == ' ' && modal.editor_field == SnippetEditorField::Scope {
                modal.toggle_scope();
            } else if !key.modifiers.control && !key.modifiers.alt {
                let mut text = String::new();
                text.push(c);
                assert(text@ =~= seq![c]);
                insert_focused(modal, text.as_str());
            }
        },
        _ => match modal.editor_field {
            SnippetEditorField::Name => edit_field(&mut modal.editor_name, key.code),
            SnippetEditorField::Prompt => edit_field(&mut modal.editor_prompt, key.code),
            SnippetEditorField::Scope => {},
        },
    }
    Step::Nothing
}

/// The dialog as it is shown after a snippet could not be pasted.
pub open spec fn paste_refused(before: App, reason: Seq<char>, after: App) -> bool {
    &&& before.snippet_modal is Some
    &&& after.snippet_modal is Some
    &&& after.snippet_modal->0.error matches Some(message) && message@ == "Cannot paste snippet: "@
        + reason
    &&& after == (App {
        snippet_modal: Some(
            SnippetModal {
                error: after.snippet_modal->0.error,
                ..before.snippet_modal->0
            },
        ),
        ..before
    })
}

/// Whether using the selected snippet leads to a program and a step: it is pasted into the focused
/// pane. Without a pane the dialog closes and the chat gets the focus; a paste that is refused keeps
/// the dialog.
pub open spec fn snippet_used(before: App, modes: ScreenModes, after: App, step: Step) -> bool {
    let modal = before.snippet_modal->0;
    match entry_at(modal.global@.len(), modal.project@.len(), modal.selected as int) {
        None => after == before && step is Nothing,
        Some(_) => {
            let prompt = modal.snippet_at(modal.selected as int).1;
            let closed = chat_focused(App { snippet_modal: None, ..before });
            match before.focused_pane() {
                None => after == closed && step is Nothing,
                Some(pane) => match snippet_refusal(
                    pane.status == PaneStatus::Running,
                    prompt,
                    modes.bracketed_paste,
                ) {
                    Some(refusal) => paste_refused(before, refusal.text(), after) && step is Nothing,
                    None => {
                        &&& after == before
                        &&& step matches Step::PasteSnippet { pane: id, bytes } && id == pane.id
                            && bytes@ == paste_bytes(prompt, modes.bracketed_paste)
                    },
                },
            }
        },
    }
}

/// Pastes the selected snippet into the focused pane.
pub fn use_selected_snippet(app: &mut App, modes: ScreenModes) -> (step: Step)
    requires
        old(app).wf(),
        old(app).snippet_modal is Some,
    ensures
        final(app).wf(),
        snippet_used(*old(app), modes, *final(app), step),
{
    let prompt = match &app.snippet_modal {
        Some(modal) => match modal.selected_entry() {
            Some((_, _, snippet)) => snippet.prompt.clone(),
            None => {
                return Step::Nothing;
            },
        },
        None => {
            return Step::Nothing;
        },
    };
    match prepare_paste(app, prompt.as_str(), modes) {
        None => {
            app.snippet_modal = None;
            focus_chat(app);
            Step::Nothing
        },
        Some((pane, Ok(bytes))) => Step::PasteSnippet { pane, bytes },
        Some((_, Err(refusal))) => {
            refuse_paste(app, refusal.message().as_str());
            Step::Nothing
        },
    }
}

fn prepare_paste(app: &App, prompt: &str, modes: ScreenModes) -> (paste: Option<
    (PaneId, Result<Vec<u8>, SnippetRefusal>),
>)
    ensures
        match app.focused_pane() {
            None => paste is None,
            Some(pane) => paste matches Some((id, r)) && id == pane.id && match snippet_refusal(
                pane.status == PaneStatus::Running,
                prompt@,
                modes.bracketed_paste,
            ) {
                Some(refusal) => r == Err::<Vec<u8>, SnippetRefusal>(refusal),
                None => r matches Ok(bytes) && bytes@ == paste_bytes(prompt@, modes.bracketed_paste),
            },
        },
{
    match &app.mux {
        Some(mux) => match mux.focused_pane() {
            Some(pane) => Some((pane.id, pane.send_prompt_snippet(prompt, modes))),
            None => None,
        },
        None => None,
    }
}

fn refuse_paste(app: &mut App, reason: &str)
    requires
        old(app).snippet_modal is Some,
    ensures
        paste_refused(*old(app), reason@, *final(app)),
{
    let mut message = "Cannot paste snippet: ".to_owned();
    message.append(reason);
    if let Some(modal) = &mut app.snippet_modal {
        modal.error = Some(message);
    }
}

/// Takes in how writing a snippet went: the dialog closes and the chat gets the focus, or the dialog
/// stays and says what failed.
pub fn finish_paste(app: &mut App, written: &Result<(), String>)
    requires
        old(app).wf(),
        old(app).snippet_modal is Some,
    ensures
        final(app).wf(),
        match *written {
            Ok(_) => *final(app) == chat_focused(App { snippet_modal: None, ..*old(app) }),
            Err(error) => paste_refused(*old(app), error@, *final(app)),
        },
{
    match written {
        Ok(_) => {
            app.snippet_modal = None;
            focus_chat(app);
        },
        Err(error) => {
            refuse_paste(app, error.as_str());
        },
    }
}

/// Whether a program is another with only its snippet dialog changed.
pub open spec fn only_dialog(before: App, after: App) -> bool {
    &&& before.snippet_modal is Some
    &&& after.snippet_modal is Some
    &&& after == (App { snippet_modal: after.snippet_modal, ..before })
}

/// What a key over the list of snippets does.
pub open spec fn list_key_effect(
    before: App,
    code: KeyCode,
    modes: ScreenModes,
    after: App,
    step: Step,
) -> bool {
    let modal = before.snippet_modal->0;
    let now = after.snippet_modal->0;
    let count = modal.global@.len() + modal.project@.len();
    if code == KeyCode::Enter {
        snippet_used(before, modes, after, step)
    } else {
        &&& step is Nothing
        &&& match code {
            KeyCode::Up => only_dialog(before, after) && now == (SnippetModal {
                selected: if modal.selected == 0 {
                    0usize
                } else {
                    (modal.selected - 1) as usize
                },
                ..modal
            }),
            KeyCode::Down => only_dialog(before, after) && now == (SnippetModal {
                selected: if count == 0 {
                    0usize
                } else if modal.selected + 1 < count {
                    (modal.selected + 1) as usize
                } else {
                    (count - 1) as usize
                },
                ..modal
            }),
            KeyCode::Esc => after == (App { snippet_modal: None, ..before }),
            KeyCode::Char(c) => if c == 'a' {
                &&& only_dialog(before, after)
                &&& now.editor_name.chars@.len() == 0
                &&& now.editor_prompt.chars@.len() == 0
                &&& now == (SnippetModal {
                    screen: SnippetScreen::Editor,
                    editor_name: now.editor_name,
                    editor_prompt: now.editor_prompt,
                    editor_scope: SnippetScope::Global,
                    editor_field: SnippetEditorField::Name,
                    editing: None,
                    error: None,
                    ..modal
                })
            } else if c == 'e' {
                &&& only_dialog(before, after)
                &&& match entry_at(modal.global@.len(), modal.project@.len(), modal.selected as int) {
                    Some((scope, i)) => {
                        &&& now.editor_name.chars@ == modal.snippet_at(modal.selected as int).0
                        &&& now.editor_prompt.chars@ == modal.snippet_at(modal.selected as int).1
                        &&& now == (SnippetModal {
                            screen: SnippetScreen::Editor,
                            editor_name: now.editor_name,
                            editor_prompt: now.editor_prompt,
                            editor_scope: scope,
                            editor_field: SnippetEditorField::Name,
                            editing: Some((scope, i as usize)),
                            error: None,
                            ..modal
                        })
                    },
                    None => now == modal,
                }
            } else if c == 'd' {
                only_dialog(before, after) && now == (if count == 0 {
                    modal
                } else {
                    SnippetModal { screen: SnippetScreen::ConfirmDelete, error: None, ..modal }
                })
            } else if c == 'q' {
                after == (App { snippet_modal: None, ..before })
            } else {
                after == before
            },
            _ => after == before,
        }
    }
}

/// A key over the list of snippets.
pub fn handle_snippet_list_key(app: &mut App, code: KeyCode, modes: ScreenModes) -> (step: Step)
    requires
        old(app).wf(),
        old(app).snippet_modal is Some,
    ensures
        final(app).wf(),
        list_key_effect(*old(app), code, modes, *final(app), step),
{
    match code {
        KeyCode::Enter => {
            return use_selected_snippet(app, modes);
        },
        KeyCode::Esc | KeyCode::Char('q') => {
            app.snippet_modal = None;
            return Step::Nothing;
        },
        _ => {},
    }
    if let Some(modal) = &mut app.snippet_modal {
        match code {
            KeyCode::Up => modal.select_previous(),
            KeyCode::Down => modal.select_next(),
            KeyCode::Char('a') => modal.begin_add(),
            KeyCode::Char('e') => modal.begin_edit(),
            KeyCode::Char('d') => modal.begin_delete(),
            _ => {},
        }
    }
    Step::Nothing
}

/// What an event over the snippet dialog does.
pub open spec fn snippet_event_effect(
    before: App,
    event: Event,
    modes: ScreenModes,
    after: App,
    step: Step,
) -> bool {
    let modal = before.snippet_modal->0;
    let now = after.snippet_modal->0;
    match (modal.screen, event) {
        (SnippetScreen::List, Event::Key(key)) if key.kind == KeyEventKind::Press =>
            list_key_effect(before, key.code, modes, after, step),
        (SnippetScreen::Editor, Event::Key(key)) if key.kind == KeyEventKind::Press => {
            &&& only_dialog(before, after)
            &&& if saves(key) {
                save_effect(modal, now, step)
            } else {
                step is Nothing && editor_key_effect(modal, key, now)
            }
        },
        (SnippetScreen::Editor, Event::Paste(text)) => {
            &&& step is Nothing
            &&& only_dialog(before, after)
            &&& focused_inserted(modal, text@, now)
        },
        (SnippetScreen::ConfirmDelete, Event::Key(key)) if key.kind == KeyEventKind::Press => {
            if key.code == KeyCode::Char('y') || key.code == KeyCode::Enter {
                &&& after == before
                &&& match entry_at(modal.global@.len(), modal.project@.len(), modal.selected as int) {
                    Some(_) => step matches Step::DeleteSnippet { update } && deletion_planned(
                        modal,
                        update,
                    ),
                    None => step is Nothing,
                }
            } else if key.code == KeyCode::Char('n') || key.code == KeyCode::Esc {
                &&& step is Nothing
                &&& only_dialog(before, after)
                &&& now == (SnippetModal { screen: SnippetScreen::List, error: None, ..modal })
            } else {
                step is Nothing && after == before
            }
        },
        _ => step is Nothing && after == before,
    }
}

/// An event over the snippet dialog.
pub fn handle_snippet_event(app: &mut App, event: &Event, modes: ScreenModes) -> (step: Step)
    requires
        old(app).wf(),
        old(app).snippet_modal is Some,
    ensures
        final(app).wf(),
        snippet_event_effect(*old(app), *event, modes, *final(app), step),
{
    let screen = match &app.snippet_modal {
        Some(modal) => modal.screen,
        None => {
            return Step::Nothing;
        },
    };
    match event {
        Event::Key(key) => {
            if key.kind != KeyEventKind::Press {
                return Step::Nothing;
            }
            match screen {
                SnippetScreen::List => handle_snippet_list_key(app, key.code, modes),
                SnippetScreen::Editor => {
                    if let Some(modal) = &mut app.snippet_modal {
                        handle_snippet_editor_key(modal, *key)
                    } else {
                        Step::Nothing
                    }
                },
                SnippetScreen::ConfirmDelete => match key.code {
                    KeyCode::Char('y') | KeyCode::Enter => delete_selected_snippet(app),
                    KeyCode::Char('n') | KeyCode::Esc => {
                        if let Some(modal) = &mut app.snippet_modal {
                            modal.cancel_subscreen();
                        }
                        Step::Nothing
                    },
                    _ => Step::Nothing,
                },
            }
        },
        Event::Paste(text) => {
            if screen == SnippetScreen::Editor {
                if let Some(modal) = &mut app.snippet_modal {
                    insert_focused(modal, text.as_str());
                }
            }
            Step::Nothing
        },
        _ => Step::Nothing,
    }
}

/// Hands out the change that deletes the selected snippet.
pub fn delete_selected_snippet(app: &App) -> (step: Step)
    requires
        app.snippet_modal is Some,
    ensures
        ({
            let modal = app.snippet_modal->0;
            match entry_at(modal.global@.len(), modal.project@.len(), modal.selected as int) {
                Some(_) => step matches Step::DeleteSnippet { update } && deletion_planned(
                    modal,
                    update,
                ),
                None => step is Nothing,
            }
        }),
{
    match &app.snippet_modal {
        Some(modal) => match modal.plan_delete() {
            Some(update) => Step::DeleteSnippet { update },
            None => Step::Nothing,
        },
        None => Step::Nothing,
    }
}

/// The view that fits the focus: an attached view follows it, and falls back to the list where there
/// is no pane.
pub open spec fn synced_view(view: MainView, focused: Option<PaneId>) -> MainView {
    match (view, focused) {
        (MainView::Attached(_), Some(id)) => MainView::Attached(id),
        _ => MainView::List,
    }
}

/// Keeps the visible view consistent with the focused pane, falling back to the list.
pub fn sync_view(app: &mut App)
    ensures
        *final(app) == (App {
            view: synced_view(old(app).view, old(app).focus()),
            ..*old(app)
        }),
{
    let focused = app.focused_id();
    app.view = match (app.view, focused) {
        (MainView::Attached(_), Some(id)) => MainView::Attached(id),
        (MainView::Attached(_), None) => MainView::List,
        (MainView::List, _) => MainView::List,
    };
}

/// The program with its prefix sequence at a state.
pub open spec fn prefix_at(app: App, state: PrefixState) -> App {
    App {
        mux: match app.mux {
            Some(mux) => Some(MuxState { prefix_state: state, ..mux }),
            None => None,
        },
        ..app
    }
}

/// The program with the focus on another pane.
pub open spec fn focused_on(app: App, focused: Option<PaneId>) -> App {
    App {
        mux: match app.mux {
            Some(mux) => Some(MuxState { focused, ..mux }),
            None => None,
        },
        ..app
    }
}

/// The program with its view brought in line with the focus.
pub open spec fn view_synced(app: App) -> App {
    App { view: synced_view(app.view, app.focus()), ..app }
}

/// The focus after a command that moves it. Panes are labelled from one, and a label of zero stands
/// for the first.
pub open spec fn moved_focus(mux: MuxState, command: PrefixCommand) -> Option<PaneId> {
    match command {
        PrefixCommand::NextPane => cycled_focus(mux.panes@, mux.focused, true),
        PrefixCommand::PreviousPane => cycled_focus(mux.panes@, mux.focused, false),
        PrefixCommand::SelectIndex(index) => {
            let at = if index == 0 {
                0
            } else {
                index - 1
            };
            if at < mux.panes@.len() {
                Some(mux.panes@[at].id)
            } else {
                mux.focused
            }
        },
        _ => mux.focused,
    }
}

/// The step that writes a key to the focused pane, where it takes one.
pub open spec fn writes_key(app: App, key: KeyEvent, modes: ScreenModes, step: Step) -> bool {
    match app.focused_pane() {
        Some(pane) => match key_bytes(key, modes.application_cursor) {
            Some(bytes) if pane.status == PaneStatus::Running =>
                step matches Step::Write { pane: id, bytes: b } && id == pane.id && b@ == bytes,
            _ => step is Nothing,
        },
        None => step is Nothing,
    }
}

/// Whether ending the program is asked for from a pane.
pub open spec fn quit_from_pane(before: App, after: App) -> bool {
    let running = before.mux matches Some(mux) && exists|i: int|
        0 <= i < mux.panes@.len() && (#[trigger] mux.panes@[i]).status == PaneStatus::Running;
    after == (App {
        confirm_quit: before.confirm_quit || running,
        should_quit: before.should_quit || !running,
        ..before
    })
}

/// What a command behind the prefix key does while a pane is attached. `idle` is the program with the
/// prefix sequence ended.
pub open spec fn attached_command_effect(
    idle: App,
    key: KeyEvent,
    command: Option<PrefixCommand>,
    modes: ScreenModes,
    after: App,
    step: Step,
) -> bool {
    let mux = idle.mux->0;
    match command {
        Some(PrefixCommand::Literal) => after == view_synced(idle) && writes_key(
            idle,
            key,
            modes,
            step,
        ),
        Some(PrefixCommand::Detach) => after == (App { view: MainView::List, ..idle })
            && step is Detached,
        Some(PrefixCommand::NextPane) => after == view_synced(
            focused_on(idle, moved_focus(mux, PrefixCommand::NextPane)),
        ) && step == Step::SyncPanels(Follow::Nothing),
        Some(PrefixCommand::PreviousPane) => after == view_synced(
            focused_on(idle, moved_focus(mux, PrefixCommand::PreviousPane)),
        ) && step == Step::SyncPanels(Follow::Nothing),
        Some(PrefixCommand::SelectIndex(index)) => after == view_synced(
            focused_on(idle, moved_focus(mux, PrefixCommand::SelectIndex(index))),
        ) && step == Step::SyncPanels(Follow::Nothing),
        Some(PrefixCommand::KillPane) => after == view_synced(idle) && match mux.focused {
            Some(id) => step == Step::ForgetPanels(id),
            None => step is Nothing,
        },
        Some(PrefixCommand::Quit) => quit_from_pane(idle, after) && step is Nothing,
        Some(PrefixCommand::PaneList) => after == idle && step is OpenPaneList,
        Some(PrefixCommand::Chat) => after == view_synced(chat_focused(idle)) && step is Nothing,
        Some(PrefixCommand::Scratchpad) => after == view_synced(idle) && step is ToggleScratchpad,
        Some(PrefixCommand::Terminal) => after == view_synced(idle) && step is ToggleTerminal,
        Some(PrefixCommand::Snippets) => after == view_synced(idle) && step is OpenSnippets,
        Some(PrefixCommand::Update) => after == view_synced(idle) && step is RequestUpdate,
        Some(PrefixCommand::Help) => after == view_synced(prefix_at(idle, PrefixState::Help))
            && step is Nothing,
        Some(PrefixCommand::Github) => after == view_synced(prefix_at(idle, PrefixState::Github))
            && step is Nothing,
        Some(PrefixCommand::Cancel) => after == view_synced(idle) && step is Nothing,
        None => after == view_synced(idle) && step is Nothing,
    }
}

/// What a key does while a pane is attached: the prefix sequence takes its own keys, and everything
/// else goes to the child. A pane whose child is gone is dismissed with Enter or Esc.
pub open spec fn attached_key_effect(
    before: App,
    key: KeyEvent,
    modes: ScreenModes,
    after: App,
    step: Step,
) -> bool {
    match before.mux {
        None => after == before && step is Nothing,
        Some(mux) => match mux.prefix_state {
            PrefixState::Help => {
                let idle = prefix_at(before, PrefixState::Idle);
                &&& step is Nothing
                &&& after == (if help_command(key) == Some(HelpCommand::Scratchpad) {
                    App { workspace_help: Some(WorkspaceHelp::Scratchpad), ..idle }
                } else {
                    idle
                })
            },
            PrefixState::Github => {
                &&& after == prefix_at(before, PrefixState::Idle)
                &&& if github_command(key) == Some(GithubCommand::Inspect) {
                    step is OpenGithubInspector
                } else {
                    step is Nothing
                }
            },
            PrefixState::Root => attached_command_effect(
                prefix_at(before, PrefixState::Idle),
                key,
                prefix_command(key, mux.prefix),
                modes,
                after,
                step,
            ),
            PrefixState::Idle => if mux.prefix.is_pressed(key) {
                after == prefix_at(before, PrefixState::Root) && step is Nothing
            } else {
                &&& after == before
                &&& match before.focused_pane() {
                    Some(pane) if pane.status != PaneStatus::Running => if key.code
                        == KeyCode::Enter || key.code == KeyCode::Esc {
                        step == Step::ForgetPanels(mux.focused->0)
                    } else {
                        step is Nothing
                    },
                    _ => writes_key(before, key, modes, step),
                }
            },
        },
    }
}

fn set_prefix_state(app: &mut App, state: PrefixState)
    ensures
        *final(app) == prefix_at(*old(app), state),
{
    if let Some(mux) = &mut app.mux {
        mux.prefix_state = state;
    }
}

fn key_step(app: &App, key: &KeyEvent, modes: ScreenModes) -> (step: Step)
    ensures
        writes_key(*app, *key, modes, step),
{
    if let Some(mux) = &app.mux {
        if let Some(pane) = mux.focused_pane() {
            if let Some(bytes) = pane.send_key(key, modes) {
                return Step::Write { pane: pane.id, bytes };
            }
        }
    }
    Step::Nothing
}

fn move_focus(app: &mut App, command: PrefixCommand)
    requires
        old(app).mux is Some,
    ensures
        *final(app) == focused_on(*old(app), moved_focus(old(app).mux->0, command)),
{
    if let Some(mux) = &mut app.mux {
        match command {
            PrefixCommand::NextPane => mux.cycle(true),
            PrefixCommand::PreviousPane => mux.cycle(false),
            PrefixCommand::SelectIndex(index) => mux.select_index(index.saturating_sub(1)),
            _ => {},
        }
    }
}

/// A key while a pane is attached.
pub fn handle_attached_key(app: &mut App, key: KeyEvent, modes: ScreenModes) -> (step: Step)
    requires
        old(app).wf(),
    ensures
        final(app).wf(),
        attached_key_effect(*old(app), key, modes, *final(app), step),
{
    let (prefix_state, prefix, focused) = match &app.mux {
        Some(mux) => (mux.prefix_state, mux.prefix, mux.focused),
        None => {
            return Step::Nothing;
        },
    };
    if prefix_state == PrefixState::Help {
        set_prefix_state(app, PrefixState::Idle);
        if resolve_help_command(&key) == Some(HelpCommand::Scratchpad) {
            app.workspace_help = Some(WorkspaceHelp::Scratchpad);
        }
        return Step::Nothing;
    }
    if prefix_state == PrefixState::Github {
        set_prefix_state(app, PrefixState::Idle);
        if resolve_github_command(&key) == Some(GithubCommand::Inspect) {
            return Step::OpenGithubInspector;
        }
        return Step::Nothing;
    }
    if prefix_state == PrefixState::Root {
        let command = resolve_prefix_command(&key, &prefix);
        set_prefix_state(app, PrefixState::Idle);
        let step = match command {
            // Double prefix: the child gets a real prefix keystroke.
            Some(PrefixCommand::Literal) => key_step(app, &key, modes),
            Some(PrefixCommand::Detach) => {
                app.detach();
                return Step::Detached;
            },
            Some(PrefixCommand::NextPane) => {
                move_focus(app, PrefixCommand::NextPane);
                Step::SyncPanels(Follow::Nothing)
            },
            Some(PrefixCommand::PreviousPane) => {
                move_focus(app, PrefixCommand::PreviousPane);
                Step::SyncPanels(Follow::Nothing)
            },
            Some(PrefixCommand::SelectIndex(index)) => {
                move_focus(app, PrefixCommand::SelectIndex(index));
                Step::SyncPanels(Follow::Nothing)
            },
            Some(PrefixCommand::KillPane) => match focused {
                Some(id) => Step::ForgetPanels(id),
                None => Step::Nothing,
            },
            Some(PrefixCommand::Quit) => {
                app.request_quit_from_pane();
                return Step::Nothing;
            },
            Some(PrefixCommand::PaneList) => {
                return Step::OpenPaneList;
            },
            Some(PrefixCommand::Chat) => {
                focus_chat(app);
                Step::Nothing
            },
            Some(PrefixCommand::Scratchpad) => Step::ToggleScratchpad,
            Some(PrefixCommand::Terminal) => Step::ToggleTerminal,
            Some(PrefixCommand::Snippets) => Step::OpenSnippets,
            Some(PrefixCommand::Update) => Step::RequestUpdate,
            Some(PrefixCommand::Help) => {
                set_prefix_state(app, PrefixState::Help);
                Step::Nothing
            },
            Some(PrefixCommand::Github) => {
                set_prefix_state(app, PrefixState::Github);
                Step::Nothing
            },
            Some(PrefixCommand::Cancel) => Step::Nothing,
            None => Step::Nothing,
        };
        sync_view(app);
        return step;
    }
    if prefix.matches(&key) {
        set_prefix_state(app, PrefixState::Root);
        return Step::Nothing;
    }
    if let Some(mux) = &app.mux {
        if let Some(pane) = mux.focused_pane() {
            if pane.is_running() {
                return key_step(app, &key, modes);
            }
            // A dead pane keeps its final screen until dismissed.
            if key.code == KeyCode::Enter || key.code == KeyCode::Esc {
                if let Some(id) = focused {
                    return Step::ForgetPanels(id);
                }
            }
        }
    }
    Step::Nothing
}

/// What a command behind the prefix key does from the session list while panes are there. `idle` is
/// the program with the prefix sequence ended.
pub open spec fn list_command_effect(
    idle: App,
    command: Option<PrefixCommand>,
    after: App,
    step: Step,
) -> bool {
    let mux = idle.mux->0;
    match command {
        Some(PrefixCommand::Detach) => after == idle && step is OpenPaneList,
        Some(PrefixCommand::Literal) => after == idle && step is OpenPaneList,
        Some(PrefixCommand::PaneList) => after == idle && step is OpenPaneList,
        Some(PrefixCommand::Chat) => attaches(idle, Follow::FocusChat, after, step),
        Some(PrefixCommand::Scratchpad) => attaches(idle, Follow::ToggleScratchpad, after, step),
        Some(PrefixCommand::Terminal) => attaches(idle, Follow::ToggleTerminal, after, step),
        Some(PrefixCommand::Snippets) => attaches(idle, Follow::OpenSnippets, after, step),
        Some(PrefixCommand::NextPane) => attaches(
            focused_on(idle, moved_focus(mux, PrefixCommand::NextPane)),
            Follow::Nothing,
            after,
            step,
        ),
        Some(PrefixCommand::PreviousPane) => attaches(
            focused_on(idle, moved_focus(mux, PrefixCommand::PreviousPane)),
            Follow::Nothing,
            after,
            step,
        ),
        Some(PrefixCommand::SelectIndex(index)) => attaches(
            focused_on(idle, moved_focus(mux, PrefixCommand::SelectIndex(index))),
            Follow::Nothing,
            after,
            step,
        ),
        Some(PrefixCommand::KillPane) => after == idle && match mux.focused {
            Some(id) => step == Step::ForgetPanels(id),
            None => step is Nothing,
        },
        _ => after == idle && step is Nothing,
    }
}

/// Whether the focused pane is brought on screen and its panels follow; without a focus only what
/// follows is done.
pub open spec fn attaches(before: App, follow: Follow, after: App, step: Step) -> bool {
    match before.focus() {
        Some(id) => after == (App { view: MainView::Attached(id), ..before }) && step
            == Step::SyncPanels(follow),
        None => match follow {
            Follow::Nothing => after == before && step is Nothing,
            Follow::FocusChat => after == chat_focused(before) && step is Nothing,
            Follow::ToggleScratchpad => after == before && step is ToggleScratchpad,
            Follow::ToggleTerminal => after == before && step is ToggleTerminal,
            Follow::OpenSnippets => after == before && step is OpenSnippets,
        },
    }
}

/// What a key does in the session list, and whether the prefix sequence took it.
pub open spec fn list_key_taken(before: App, key: KeyEvent) -> bool {
    before.mux matches Some(mux) && (mux.prefix_state != PrefixState::Idle || mux.prefix.is_pressed(
        key,
    ))
}

/// What a key of the prefix sequence does in the session list.
pub open spec fn list_prefix_effect(before: App, key: KeyEvent, after: App, step: Step) -> bool {
    let mux = before.mux->0;
    let idle = prefix_at(before, PrefixState::Idle);
    match mux.prefix_state {
        PrefixState::Help => {
            &&& step is Nothing
            &&& after == (if help_command(key) == Some(HelpCommand::Scratchpad) {
                App { workspace_help: Some(WorkspaceHelp::Scratchpad), ..idle }
            } else {
                idle
            })
        },
        PrefixState::Github => {
            &&& step is Nothing
            &&& if github_command(key) == Some(GithubCommand::Inspect) {
                &&& after.status_message matches Some(message) && message@
                    == "Attach to a session before inspecting a GitHub item"@
                &&& after == (App { status_message: after.status_message, ..idle })
            } else {
                after == idle
            }
        },
        PrefixState::Idle => after == prefix_at(before, PrefixState::Root) && step is Nothing,
        PrefixState::Root => match prefix_command(key, mux.prefix) {
            Some(PrefixCommand::Help) => after == prefix_at(before, PrefixState::Help)
                && step is Nothing,
            Some(PrefixCommand::Github) => after == prefix_at(before, PrefixState::Github)
                && step is Nothing,
            Some(PrefixCommand::Quit) => after == idle && step is RequestQuit,
            Some(PrefixCommand::Update) => after == idle && step is RequestUpdate,
            command => if mux.panes@.len() == 0 {
                &&& step is Nothing
                &&& after.status_message matches Some(message) && message@
                    == "No sessions are running"@
                &&& after == (App { status_message: after.status_message, ..idle })
            } else {
                list_command_effect(idle, command, after, step)
            },
        },
    }
}

/// Brings the focused pane back on screen after the list changed it.
fn attach_focused(app: &mut App, follow: Follow) -> (step: Step)
    ensures
        attaches(*old(app), follow, *final(app), step),
{
    match app.focused_id() {
        Some(id) => {
            app.view = MainView::Attached(id);
            Step::SyncPanels(follow)
        },
        None => match follow {
            Follow::Nothing => Step::Nothing,
            Follow::FocusChat => {
                focus_chat(app);
                Step::Nothing
            },
            Follow::ToggleScratchpad => Step::ToggleScratchpad,
            Follow::ToggleTerminal => Step::ToggleTerminal,
            Follow::OpenSnippets => Step::OpenSnippets,
        },
    }
}

/// Routes a key from the session list through the prefix state machine.
///
/// Says whether the key was consumed, so panes remain reachable from the list instead of only from
/// inside an attached pane.
pub fn handle_list_prefix(app: &mut App, key: KeyEvent) -> (r: (bool, Step))
    requires
        old(app).wf(),
    ensures
        final(app).wf(),
        r.0 == list_key_taken(*old(app), key),
        r.0 ==> list_prefix_effect(*old(app), key, *final(app), r.1),
        !r.0 ==> *final(app) == *old(app) && r.1 is Nothing,
{
    let (state, prefix, focused, empty) = match &app.mux {
        Some(mux) => (mux.prefix_state, mux.prefix, mux.focused, mux.panes.len() == 0),
        None => {
            return (false, Step::Nothing);
        },
    };
    if state == PrefixState::Help {
        set_prefix_state(app, PrefixState::Idle);
        if resolve_help_command(&key) == Some(HelpCommand::Scratchpad) {
            app.workspace_help = Some(WorkspaceHelp::Scratchpad);
        }
        return (true, Step::Nothing);
    }
    if state == PrefixState::Github {
        set_prefix_state(app, PrefixState::Idle);
        if resolve_github_command(&key) == Some(GithubCommand::Inspect) {
            app.status_message = Some(
                "Attach to a session before inspecting a GitHub item".to_owned(),
            );
        }
        return (true, Step::Nothing);
    }
    if state == PrefixState::Idle {
        if prefix.matches(&key) {
            set_prefix_state(app, PrefixState::Root);
            return (true, Step::Nothing);
        }
        return (false, Step::Nothing);
    }
    set_prefix_state(app, PrefixState::Idle);
    let command = resolve_prefix_command(&key, &prefix);
    // Quitting, updating and help are meaningful with or without panes, so they are resolved before
    // the "nothing is running" guard below.
    match command {
        Some(PrefixCommand::Help) => {
            set_prefix_state(app, PrefixState::Help);
            return (true, Step::Nothing);
        },
        Some(PrefixCommand::Github) => {
            set_prefix_state(app, PrefixState::Github);
            return (true, Step::Nothing);
        },
        Some(PrefixCommand::Quit) => {
            return (true, Step::RequestQuit);
        },
        Some(PrefixCommand::Update) => {
            return (true, Step::RequestUpdate);
        },
        _ => {},
    }
    if empty {
        app.status_message = Some("No sessions are running".to_owned());
        return (true, Step::Nothing);
    }
    let step = match command {
        // There is no child to re-attach to and nothing to detach from, so the only sensible reading
        // of these from the list is "show me what's running".
        Some(PrefixCommand::Detach) => Step::OpenPaneList,
        Some(PrefixCommand::Literal) => Step::OpenPaneList,
        Some(PrefixCommand::PaneList) => Step::OpenPaneList,
        Some(PrefixCommand::Chat) => attach_focused(app, Follow::FocusChat),
        Some(PrefixCommand::Scratchpad) => attach_focused(app, Follow::ToggleScratchpad),
        Some(PrefixCommand::Terminal) => attach_focused(app, Follow::ToggleTerminal),
        Some(PrefixCommand::Snippets) => attach_focused(app, Follow::OpenSnippets),
        Some(PrefixCommand::NextPane) => {
            move_focus(app, PrefixCommand::NextPane);
            attach_focused(app, Follow::Nothing)
        },
        Some(PrefixCommand::PreviousPane) => {
            move_focus(app, PrefixCommand::PreviousPane);
            attach_focused(app, Follow::Nothing)
        },
        Some(PrefixCommand::SelectIndex(index)) => {
            move_focus(app, PrefixCommand::SelectIndex(index));
            attach_focused(app, Follow::Nothing)
        },
        Some(PrefixCommand::KillPane) => match focused {
            Some(id) => Step::ForgetPanels(id),
            None => Step::Nothing,
        },
        _ => Step::Nothing,
    };
    (true, step)
}

/// Removes a pane whose panels were forgotten, and says whether there was one: its child has to be
/// ended then, the panels follow the new focus, and the view falls back where no pane is left. A pane
/// whose panels could not be forgotten stays.
pub fn kill_focused(app: &mut App, id: PaneId, forgotten: bool) -> (removed: bool)
    requires
        old(app).wf(),
    ensures
        final(app).wf(),
        match old(app).mux {
            Some(mux) if forgotten => match pane_position(mux.panes@, id) {
                Some(i) => {
                    let now = final(app).mux->0;
                    &&& removed
                    &&& final(app).mux is Some
                    &&& now.panes@ == mux.panes@.remove(i)
                    &&& now == (MuxState {
                        panes: now.panes,
                        focused: if mux.focused == Some(id) {
                            crate::mux::focus_after_removal(mux.panes@.remove(i), i)
                        } else {
                            mux.focused
                        },
                        ..mux
                    })
                    &&& *final(app) == (App {
                        mux: Some(now),
                        view: synced_view(old(app).view, now.focused),
                        ..*old(app)
                    })
                },
                None => !removed && *final(app) == view_synced(*old(app)),
            },
            _ => !removed && *final(app) == (if forgotten {
                view_synced(*old(app))
            } else {
                *old(app)
            }),
        },
{
    if !forgotten {
        return false;
    }
    let removed = match &mut app.mux {
        Some(mux) => mux.remove(id),
        None => false,
    };
    sync_view(app);
    removed
}

/// What the input handlers read beside the program's state: the modes of the focused pane and of the
/// shown terminal, the screen of the focused pane, the rows of the changed-file tree, whether the
/// notes editor knows the key, and whether shells want Windows line ends.
pub struct InputContext {
    pub modes: ScreenModes,
    pub shell_modes: ScreenModes,
    pub screen: ScreenCells,
    pub rows: Vec<TreeRow>,
    pub supported_key: bool,
    pub windows: bool,
}

/// Whether an event shows that the user is at the program.
pub open spec fn shows_attention(event: Event) -> bool {
    match event {
        Event::Key(key) => key.kind == KeyEventKind::Press,
        Event::Paste(_) => true,
        Event::Mouse(mouse) => mouse.kind is Down,
        _ => false,
    }
}

fn is_attended(event: &Event) -> (r: bool)
    ensures
        r == shows_attention(*event),
{
    match event {
        Event::Key(key) => key.kind == KeyEventKind::Press,
        Event::Paste(_) => true,
        Event::Mouse(mouse) => match mouse.kind {
            MouseEventKind::Down(_) => true,
            _ => false,
        },
        _ => false,
    }
}

/// Whether a program is another in which the user was noticed: the outer terminal has the focus, and
/// the focused pane was looked at.
pub open spec fn attention_noted(before: App, event: Event, after: App) -> bool {
    if shows_attention(event) {
        &&& acknowledged(before.mux, after.mux)
        &&& after == (App { terminal_focused: true, mux: after.mux, ..before })
    } else {
        after == before
    }
}

/// The program after a key over the question whether to quit: `y` quits, and every other key takes
/// the question back and leaves no message.
pub open spec fn quit_answered(app: App, code: KeyCode) -> App {
    if code == KeyCode::Char('y') {
        App { should_quit: true, confirm_quit: false, ..app }
    } else if app.should_quit {
        App { confirm_quit: false, ..app }
    } else {
        App { confirm_quit: false, status_message: None, ..app }
    }
}

/// A key over the question whether to quit, while a pane is attached.
pub fn answer_quit_prompt(app: &mut App, code: KeyCode)
    ensures
        *final(app) == quit_answered(*old(app), code),
{
    app.confirm_quit = false;
    if code == KeyCode::Char('y') {
        app.should_quit = true;
    } else if !app.should_quit {
        app.status_message = None;
    }
}

/// The program after a click: the clicked part of the workspace has the focus.
pub open spec fn clicked(app: App, column: u16, row: u16) -> App {
    let areas = app.workspace_areas;
    if areas.scratchpad matches Some(area) && area.holds(column, row) {
        App {
            workspace_focus: WorkspaceFocus::Scratchpad,
            terminal: TerminalManager { focused: false, ..app.terminal },
            ..app
        }
    } else if areas.terminal matches Some(area) && area.holds(column, row) {
        App {
            workspace_focus: WorkspaceFocus::Terminal,
            terminal: TerminalManager {
                focused: app.terminal.focused || app.terminal.shown(),
                ..app.terminal
            },
            ..app
        }
    } else if areas.chat.holds(column, row) {
        chat_focused(app)
    } else {
        app
    }
}

/// Focuses the clicked part of the workspace.
pub fn focus_clicked_workspace(app: &mut App, column: u16, row: u16)
    ensures
        *final(app) == clicked(*old(app), column, row),
{
    let areas = app.workspace_areas;
    let on_scratchpad = match areas.scratchpad {
        Some(area) => area.contains(column, row),
        None => false,
    };
    let on_terminal = match areas.terminal {
        Some(area) => area.contains(column, row),
        None => false,
    };
    if on_scratchpad {
        app.workspace_focus = WorkspaceFocus::Scratchpad;
        app.terminal.unfocus();
    } else if on_terminal {
        app.workspace_focus = WorkspaceFocus::Terminal;
        app.terminal.focus();
    } else if areas.chat.contains(column, row) {
        focus_chat(app);
    }
}

/// Whether routing a mouse event leads from a pane to another and to a step.
pub open spec fn pane_mouse_effect(
    before: Pane,
    mouse: MouseEvent,
    modes: ScreenModes,
    after: Pane,
    step: Step,
) -> bool {
    let quiet = before.status != PaneStatus::Running || modes.mouse_mode
        == crate::input::MouseProtocolMode::Off;
    &&& after == (if quiet {
        before
    } else {
        Pane {
            mouse_captured: crate::mux::pane::captured_after(
                before.viewport,
                before.mouse_captured,
                mouse,
            ),
            ..before
        }
    })
    &&& if before.status != PaneStatus::Running {
        step is Nothing
    } else if quiet {
        if before.viewport.inside(mouse.column, mouse.row) && (mouse.kind is ScrollUp
            || mouse.kind is ScrollDown) {
            step == (Step::Scroll { pane: before.id, up: mouse.kind is ScrollUp })
        } else {
            step is Nothing
        }
    } else {
        match crate::mux::pane::mouse_report(
            before.viewport,
            before.mouse_captured,
            mouse,
            modes.mouse_mode,
            modes.mouse_encoding,
        ) {
            Some(bytes) => step matches Step::Write { pane: id, bytes: b } && id == before.id && b@
                == bytes,
            None => step is Nothing,
        }
    }
}

/// What an event does while the chat has the focus.
pub open spec fn chat_event_effect(
    before: App,
    event: Event,
    modes: ScreenModes,
    after: App,
    step: Step,
) -> bool {
    match event {
        Event::Key(key) => if key.kind == KeyEventKind::Press {
            attached_key_effect(before, key, modes, after, step)
        } else {
            after == before && step is Nothing
        },
        Event::Paste(text) => {
            &&& after == before
            &&& match before.focused_pane() {
                Some(pane) if pane.status == PaneStatus::Running =>
                    step matches Step::Write { pane: id, bytes } && id == pane.id && bytes@
                        == paste_bytes(text@, modes.bracketed_paste),
                _ => step is Nothing,
            }
        },
        Event::Mouse(mouse) => match before.mux {
            Some(mux) => match mux.focused_position() {
                Some(i) => {
                    let now = after.mux->0;
                    &&& after.mux is Some
                    &&& pane_mouse_effect(mux.panes@[i], mouse, modes, now.panes@[i], step)
                    &&& pane_exchanged(mux, i, now.panes@[i], now)
                    &&& after == (App { mux: Some(now), ..before })
                },
                None => after == before && step is Nothing,
            },
            None => after == before && step is Nothing,
        },
        _ => after == before && step is Nothing,
    }
}

/// An event while the chat has the focus.
pub fn handle_chat_event(app: &mut App, event: &Event, modes: ScreenModes) -> (step: Step)
    requires
        old(app).wf(),
    ensures
        final(app).wf(),
        chat_event_effect(*old(app), *event, modes, *final(app), step),
{
    match event {
        Event::Key(key) => {
            if key.kind == KeyEventKind::Press {
                handle_attached_key(app, *key, modes)
            } else {
                Step::Nothing
            }
        },
        Event::Paste(text) => {
            if let Some(mux) = &app.mux {
                if let Some(pane) = mux.focused_pane() {
                    if let Some(bytes) = pane.send_paste(text.as_str(), modes) {
                        return Step::Write { pane: pane.id, bytes };
                    }
                }
            }
            Step::Nothing
        },
        Event::Mouse(mouse) => {
            if let Some(mux) = &mut app.mux {
                let ghost before = *mux;
                if let Some(pane) = mux.focused_pane_mut() {
                    let id = pane.id;
                    let action = pane.handle_mouse(*mouse, modes);
                    let step = match action {
                        MouseAction::Nothing => Step::Nothing,
                        MouseAction::Scroll { up } => Step::Scroll { pane: id, up },
                        MouseAction::Write(bytes) => Step::Write { pane: id, bytes },
                    };
                    proof {
                        if let Some(focus) = before.focused {
                            lemma_pane_position(before.panes@, focus, 0);
                        }
                    }
                    return step;
                }
            }
            Step::Nothing
        },
        _ => Step::Nothing,
    }
}

/// What an event does while the notes have the focus: without notes the chat gets it.
pub open spec fn notes_event_effect(
    before: App,
    event: Event,
    supported: bool,
    after: App,
    step: Step,
) -> bool {
    match before.scratchpad {
        None => after == (App { workspace_focus: WorkspaceFocus::Chat, ..before })
            && step is Nothing,
        Some(notes) => {
            let request = scratchpad_request(event, supported);
            &&& after == (if request == ScratchpadRequest::Edit {
                App {
                    scratchpad: Some(
                        crate::scratchpad::Scratchpad { status_message: None, ..notes },
                    ),
                    ..before
                }
            } else {
                before
            })
            &&& step == Step::Scratchpad(request)
        },
    }
}

/// An event while the notes have the focus.
pub fn handle_scratchpad_event(app: &mut App, event: &Event, supported: bool) -> (step: Step)
    requires
        old(app).wf(),
    ensures
        final(app).wf(),
        notes_event_effect(*old(app), *event, supported, *final(app), step),
{
    if let Some(scratchpad) = &mut app.scratchpad {
        let request = scratchpad.handle_event(event, supported);
        return Step::Scratchpad(request);
    }
    app.workspace_focus = WorkspaceFocus::Chat;
    Step::Nothing
}

/// What an event does while the terminal has the focus: without a terminal the chat gets it.
pub open spec fn shell_event_effect(
    before: App,
    event: Event,
    modes: ScreenModes,
    windows: bool,
    after: App,
    step: Step,
) -> bool {
    match before.terminal.active_position() {
        None => after == (App { workspace_focus: WorkspaceFocus::Chat, ..before })
            && step is Nothing,
        Some(i) => {
            let pane = before.terminal.entries@[i].pane;
            let now = after.terminal.entries@[i].pane;
            &&& after.terminal.entries@ == before.terminal.entries@.update(
                i,
                crate::terminal_pane::TerminalEntry {
                    session_id: before.terminal.entries@[i].session_id,
                    pane: now,
                },
            )
            &&& now == after_shell_event(pane, event, modes)
            &&& after == (App {
                terminal: TerminalManager { entries: after.terminal.entries, ..before.terminal },
                status_message: after.status_message,
                ..before
            })
            &&& match shell_bytes(pane, event, modes, windows) {
                Some(bytes) => if pane.status is Running {
                    &&& step matches Step::WriteShell(b) && b@ == bytes
                    &&& after.status_message == before.status_message
                } else {
                    &&& step is Nothing
                    &&& crate::panels::says(
                        after.status_message,
                        "Terminal input failed: "@,
                        "Shell is not running"@,
                    )
                },
                None => {
                    &&& after.status_message == before.status_message
                    &&& match shell_scroll(pane, event, modes) {
                        Some(up) => step == (Step::ScrollShell { up }),
                        None => step is Nothing,
                    }
                },
            }
        },
    }
}

/// What is said where writing to a shell failed.
pub fn shell_write_failure(error: &str) -> (message: String)
    ensures
        message@ == "Terminal input failed: "@ + error@,
{
    let mut message = "Terminal input failed: ".to_owned();
    message.append(error);
    message
}

/// An event while the terminal has the focus.
pub fn handle_terminal_event(app: &mut App, event: Event, modes: ScreenModes, windows: bool) -> (step:
    Step)
    requires
        old(app).wf(),
    ensures
        final(app).wf(),
        shell_event_effect(*old(app), event, modes, windows, *final(app), step),
{
    proof {
        app.terminal.lemma_active_position();
    }
    if let Some(pane) = app.terminal.active_mut() {
        let input = pane.handle_event(event, modes, windows);
        return match input {
            TerminalInput::Nothing => Step::Nothing,
            TerminalInput::Write(bytes) => Step::WriteShell(bytes),
            TerminalInput::Scroll { up } => Step::ScrollShell { up },
            TerminalInput::Refused => {
                app.status_message = Some(shell_write_failure("Shell is not running"));
                Step::Nothing
            },
        };
    }
    app.workspace_focus = WorkspaceFocus::Chat;
    Step::Nothing
}

/// The step that an action of the inspector asks for, other than closing it.
pub open spec fn inspector_step(action: InspectorAction) -> Step {
    match action {
        InspectorAction::SubmitNumber => Step::SubmitGithubNumber,
        InspectorAction::Retry => Step::RetryGithubRequest,
        InspectorAction::CycleTab { forward } => Step::CycleGithubTab { forward },
        _ => Step::Nothing,
    }
}

/// The reference that a left click hits in the focused pane.
pub open spec fn clicked_reference(app: App, event: Event, screen: ScreenCells) -> Option<u64> {
    match (event, app.focused_pane()) {
        (Event::Mouse(mouse), Some(pane)) => if mouse.kind == MouseEventKind::Down(MouseButton::Left)
            && pane.viewport.inside(mouse.column, mouse.row) && mouse.row - pane.viewport.y
            < screen.rows@.len() {
            crate::mux::pane::reference_under(
                crate::mux::pane::row_text(screen.rows@[mouse.row - pane.viewport.y]@),
                mouse.column - pane.viewport.x,
            )
        } else {
            None
        },
        _ => None,
    }
}

/// What an event does to the part of the workspace that has the focus.
pub open spec fn focus_event_effect(
    before: App,
    event: Event,
    context: InputContext,
    after: App,
    step: Step,
) -> bool {
    match before.workspace_focus {
        WorkspaceFocus::Chat => chat_event_effect(before, event, context.modes, after, step),
        WorkspaceFocus::Scratchpad => notes_event_effect(
            before,
            event,
            context.supported_key,
            after,
            step,
        ),
        WorkspaceFocus::Terminal => shell_event_effect(
            before,
            event,
            context.shell_modes,
            context.windows,
            after,
            step,
        ),
    }
}

/// What an event does while a pane is attached and nothing lies over the workspace.
pub open spec fn workspace_event_effect(
    before: App,
    event: Event,
    context: InputContext,
    after: App,
    step: Step,
) -> bool {
    match event {
        Event::Key(key) => if key.kind != KeyEventKind::Press {
            after == before && step is Nothing
        } else if list_key_taken(before, key) {
            attached_key_effect(before, key, context.modes, after, step)
        } else {
            focus_event_effect(App { update_notice: None, ..before }, event, context, after, step)
        },
        Event::Mouse(mouse) => match clicked_reference(before, event, context.screen) {
            Some(number) => after == before && step == Step::InspectGithubItem(number),
            None => focus_event_effect(
                if mouse.kind is Down {
                    clicked(before, mouse.column, mouse.row)
                } else {
                    before
                },
                event,
                context,
                after,
                step,
            ),
        },
        _ => focus_event_effect(before, event, context, after, step),
    }
}

/// What an event does while a pane is attached. The question whether to quit comes first, then the
/// inspector, the snippet dialog and the help page; each of them keeps events from what lies below.
pub open spec fn attached_event_effect(
    before: App,
    event: Event,
    context: InputContext,
    after: App,
    step: Step,
) -> bool {
    if before.confirm_quit {
        &&& step is Nothing
        &&& after == (match event {
            Event::Key(key) => if key.kind == KeyEventKind::Press {
                quit_answered(before, key.code)
            } else {
                before
            },
            _ => before,
        })
    } else if before.github_inspector is Some {
        let inspector = before.github_inspector->0;
        let action = crate::inspector::event_action(inspector, event);
        if action == InspectorAction::Close {
            after == (App { github_inspector: None, ..before }) && step is Nothing
        } else {
            &&& after.github_inspector is Some
            &&& crate::inspector::event_effect(
                inspector,
                context.rows@,
                event,
                after.github_inspector->0,
            )
            &&& after == (App { github_inspector: after.github_inspector, ..before })
            &&& step == inspector_step(action)
        }
    } else if before.snippet_modal is Some {
        snippet_event_effect(before, event, context.modes, after, step)
    } else if before.workspace_help is Some {
        &&& step is Nothing
        &&& after == (match event {
            Event::Key(key) => if key.kind == KeyEventKind::Press && key.code == KeyCode::Esc {
                App { workspace_help: None, ..before }
            } else {
                before
            },
            _ => before,
        })
    } else {
        workspace_event_effect(before, event, context, after, step)
    }
}

/// Routes a terminal event while a pane is focused.
///
/// Everything except the prefix key is forwarded to the child, because it wants nearly every
/// keystroke for itself.
pub fn handle_attached_event(app: &mut App, event: Event, context: &InputContext) -> (step: Step)
    requires
        old(app).wf(),
    ensures
        final(app).wf(),
        exists|noted: App|
            attention_noted(*old(app), event, noted) && #[trigger] attached_event_effect(
                noted,
                event,
                *context,
                *final(app),
                step,
            ),
{
    if is_attended(&event) {
        app.terminal_focused = true;
        app.acknowledge_focused_pane();
    }
    let ghost noted = *app;
    assert(attention_noted(*old(app), event, noted));
    let step = route_attached_event(app, event, context);
    assert(attached_event_effect(noted, event, *context, *app, step));
    step
}

fn route_attached_event(app: &mut App, event: Event, context: &InputContext) -> (step: Step)
    requires
        old(app).wf(),
    ensures
        final(app).wf(),
        attached_event_effect(*old(app), event, *context, *final(app), step),
{
    if app.confirm_quit {
        if let Event::Key(key) = &event {
            if key.kind == KeyEventKind::Press {
                answer_quit_prompt(app, key.code);
            }
        }
        return Step::Nothing;
    }
    if let Some(inspector) = &mut app.github_inspector {
        let action = handle_github_inspector_event(inspector, &context.rows, &event);
        return match action {
            InspectorAction::Nothing => Step::Nothing,
            InspectorAction::Close => {
                app.github_inspector = None;
                Step::Nothing
            },
            InspectorAction::SubmitNumber => Step::SubmitGithubNumber,
            InspectorAction::Retry => Step::RetryGithubRequest,
            InspectorAction::CycleTab { forward } => Step::CycleGithubTab { forward },
        };
    }
    if app.snippet_modal.is_some() {
        return handle_snippet_event(app, &event, context.modes);
    }
    if app.workspace_help.is_some() {
        if let Event::Key(key) = &event {
            if key.kind == KeyEventKind::Press && key.code == KeyCode::Esc {
                app.workspace_help = None;
            }
        }
        return Step::Nothing;
    }
    if let Event::Key(key) = &event {
        if key.kind != KeyEventKind::Press {
            return Step::Nothing;
        }
        let is_prefix = match &app.mux {
            Some(mux) => mux.prefix_state != PrefixState::Idle || mux.prefix.matches(key),
            None => false,
        };
        if is_prefix {
            return handle_attached_key(app, *key, context.modes);
        }
        app.update_notice = None;
    }
    if let Event::Mouse(mouse) = &event {
        let (down, left): (bool, bool) = match mouse.kind {
            MouseEventKind::Down(button) => (true, button == MouseButton::Left),
            _ => (false, false),
        };
        if left {
            let mut reference: Option<u64> = None;
            if let Some(mux) = &app.mux {
                if let Some(pane) = mux.focused_pane() {
                    reference = pane.github_reference_at(&context.screen, mouse.column, mouse.row);
                }
            }
            if let Some(number) = reference {
                return Step::InspectGithubItem(number);
            }
        }
        if down {
            focus_clicked_workspace(app, mouse.column, mouse.row);
        }
    }
    match app.workspace_focus {
        WorkspaceFocus::Chat => handle_chat_event(app, &event, context.modes),
        WorkspaceFocus::Scratchpad => handle_scratchpad_event(app, &event, context.supported_key),
        WorkspaceFocus::Terminal => {
            handle_terminal_event(app, event, context.shell_modes, context.windows)
        },
    }
}

/// Whether a run of signals begins a work cycle, in a pane that was working or not.
pub open spec fn starts_cycle(working: bool, events: Seq<PaneSignalEvent>) -> bool
    decreases events.len(),
{
    events.len() > 0 && (starts_cycle(working, events.drop_last()) || (!works_after(
        working,
        events.drop_last(),
    ) && (events.last() matches PaneSignalEvent::Progress(p) && p != ProgressState::Clear)))
}

/// Whether a pane works after a run of signals.
pub open spec fn works_after(working: bool, events: Seq<PaneSignalEvent>) -> bool
    decreases events.len(),
{
    if events.len() == 0 {
        working
    } else {
        match events.last() {
            PaneSignalEvent::Progress(p) => p != ProgressState::Clear,
            PaneSignalEvent::Bell => works_after(working, events.drop_last()),
        }
    }
}

/// Whether a run of signals begins a work cycle.
pub fn signals_start_cycle(initially_working: bool, events: &Vec<PaneSignalEvent>) -> (started: bool)
    ensures
        started == starts_cycle(initially_working, events@),
{
    let mut working = initially_working;
    let mut started = false;
    let mut i: usize = 0;
    while i < events.len()
        invariant
            i <= events@.len(),
            working == works_after(initially_working, events@.take(i as int)),
            started == starts_cycle(initially_working, events@.take(i as int)),
        decreases events@.len() - i,
    {
        proof {
            assert(events@.take(i + 1).drop_last() == events@.take(i as int));
            assert(events@.take(i + 1).last() == events@[i as int]);
        }
        if let PaneSignalEvent::Progress(progress) = events[i] {
            if progress.is_working() {
                started = started || !working;
                working = true;
            } else {
                working = false;
            }
        }
        i = i + 1;
    }
    assert(events@.take(i as int) == events@);
    started
}

/// A notification to be sent for a pane.
pub struct PaneAlert {
    pub kind: NotificationKind,
    pub title: String,
    pub session_id: String,
}

/// What a pane event asks of the program beside the state: whether to repaint, the session whose work
/// cycle began, the notifications to send, and whether to read the configuration again.
pub struct MuxReaction {
    pub repaint: bool,
    pub cycle_started: Option<String>,
    pub alerts: Vec<PaneAlert>,
    pub reload_config: bool,
}

/// The kind of notification for a notice.
pub open spec fn alert_kind(notice: PaneNotification) -> NotificationKind {
    match notice {
        PaneNotification::Ready => NotificationKind::Ready,
        PaneNotification::Question => NotificationKind::Question,
        PaneNotification::PlanApproval => NotificationKind::PlanApproval,
        PaneNotification::Error => NotificationKind::Error,
    }
}

fn notification_kind(notice: PaneNotification) -> (kind: NotificationKind)
    ensures
        kind == alert_kind(notice),
{
    match notice {
        PaneNotification::Ready => NotificationKind::Ready,
        PaneNotification::Question => NotificationKind::Question,
        PaneNotification::PlanApproval => NotificationKind::PlanApproval,
        PaneNotification::Error => NotificationKind::Error,
    }
}

/// Whether notifications are those for the notices of a pane, under its title.
pub open spec fn alerts_for(
    alerts: Seq<PaneAlert>,
    notices: Seq<PaneNotification>,
    pane: Pane,
) -> bool {
    &&& alerts.len() == notices.len()
    &&& forall|i: int|
        0 <= i < notices.len() ==> (#[trigger] alerts[i]).kind == alert_kind(notices[i])
            && alerts[i].title == pane.title && alerts[i].session_id == pane.session_id
}

/// The position of a pane.
pub open spec fn position_in(app: App, id: PaneId) -> Option<int> {
    match app.mux {
        Some(mux) => pane_position(mux.panes@, id),
        None => None,
    }
}

/// The pane at a position after the signals of a chunk of output, beside its new title.
pub open spec fn signalled(before: Pane, signals: PaneSignals, attended: bool, after: Pane) -> bool {
    &&& match signals.title {
        Some(title) if trim(title@).len() > 0 => after.title@ == trim(title@),
        _ => after.title == before.title,
    }
    &&& after == (Pane {
        title: after.title,
        cycle: before.cycle.after_all(signals.events@, attended, before.waiting()),
        ..before
    })
}

/// What a chunk of output does. `attended` says whether the user looks at the pane.
pub open spec fn output_effect(
    before: App,
    id: PaneId,
    signals: PaneSignals,
    after: App,
    r: MuxReaction,
) -> bool {
    let shown = before.view == MainView::Attached(id);
    let attended = before.terminal_focused && shown;
    &&& !r.reload_config
    &&& match position_in(before, id) {
        None => after == before && r.repaint == shown && r.cycle_started is None && r.alerts@.len()
            == 0,
        Some(i) => {
            let pane = before.mux->0.panes@[i];
            let now = after.mux->0.panes@[i];
            let bell = signals.events@.contains(PaneSignalEvent::Bell);
            &&& after.mux is Some
            &&& pane_exchanged(before.mux->0, i, now, after.mux->0)
            &&& signalled(pane, signals, attended, now)
            &&& alerts_for(
                r.alerts@,
                pane.cycle.notices(signals.events@, attended, pane.waiting()),
                now,
            )
            &&& match r.cycle_started {
                Some(session) => starts_cycle(pane.cycle.working, signals.events@) && session
                    == pane.session_id,
                None => !starts_cycle(pane.cycle.working, signals.events@),
            }
            &&& after == (App { mux: after.mux, status_message: after.status_message, ..before })
            &&& if bell {
                after.status_message matches Some(message) && message@ == "🔔 "@ + now.title@
            } else {
                after.status_message == before.status_message
            }
            &&& r.repaint == (shown || bell || pane.marked() != now.marked() || pane.title@
                != now.title@ || r.alerts@.len() > 0)
        },
    }
}

/// The message that a session has ended.
pub open spec fn exit_message(title: Seq<char>, code: Option<u32>) -> Seq<char> {
    match code {
        Some(c) if c != 0 => "Session '"@ + title + "' exited with code "@ + decimal(c as nat),
        _ => "Session '"@ + title + "' finished"@,
    }
}

/// What the end of a child does.
pub open spec fn exit_effect(before: App, id: PaneId, code: Option<u32>, after: App, r: MuxReaction) -> bool {
    let title = match position_in(before, id) {
        Some(i) => before.mux->0.panes@[i].title@,
        None => Seq::empty(),
    };
    &&& r.repaint && r.cycle_started is None && r.alerts@.len() == 0 && !r.reload_config
    &&& match position_in(before, id) {
        Some(i) => {
            let pane = before.mux->0.panes@[i];
            let now = after.mux->0.panes@[i];
            &&& after.mux is Some
            &&& pane_exchanged(before.mux->0, i, now, after.mux->0)
            &&& now.pending_inputs@.len() == 0
            &&& now == (Pane {
                status: PaneStatus::Exited(code),
                cycle: WorkCycle { working: false, progress: ProgressState::Clear, ..pane.cycle },
                pending_inputs: now.pending_inputs,
                ..pane
            })
        },
        None => after.mux == before.mux,
    }
    &&& after.status_message matches Some(message) && message@ == exit_message(title, code)
    &&& byte_views(after.host_sequences@) == (if before.focus() == Some(id) {
        byte_views(before.host_sequences@).push(report(ProgressState::Clear))
    } else {
        byte_views(before.host_sequences@)
    })
    &&& after == (App {
        mux: after.mux,
        status_message: after.status_message,
        host_sequences: after.host_sequences,
        ..before
    })
}

/// What a change of what a session waits for does. A pane whose child is gone takes none.
pub open spec fn lifecycle_effect(
    before: App,
    id: PaneId,
    event: LifecycleEvent,
    after: App,
    r: MuxReaction,
) -> bool {
    let focused = before.focus() == Some(id);
    &&& r.cycle_started is None && !r.reload_config
    &&& match position_in(before, id) {
        Some(i) if before.mux->0.panes@[i].status == PaneStatus::Running => {
            let pane = before.mux->0.panes@[i];
            let now = after.mux->0.panes@[i];
            let pending = pending_view(pane.pending_inputs@);
            let notice = lifecycle_notice(pending, event);
            let turned = pane.waiting() != now.waiting();
            &&& after.mux is Some
            &&& pane_exchanged(before.mux->0, i, now, after.mux->0)
            &&& pending_view(now.pending_inputs@) == pending_after(pending, event)
            &&& now == (Pane {
                cycle: cycle_after(pane.cycle, pending, event),
                pending_inputs: now.pending_inputs,
                ..pane
            })
            &&& alerts_for(
                r.alerts@,
                match notice {
                    Some(n) => seq![n],
                    None => Seq::empty(),
                },
                pane,
            )
            &&& byte_views(after.host_sequences@) == (if focused && turned {
                byte_views(before.host_sequences@).push(report(after.outer_progress()))
            } else {
                byte_views(before.host_sequences@)
            })
            &&& after == (App {
                mux: after.mux,
                host_sequences: after.host_sequences,
                ..before
            })
            &&& r.repaint == (focused || pane.marked() != now.marked() || turned || notice is Some)
        },
        _ => after == before && r.alerts@.len() == 0 && r.repaint == focused,
    }
}

/// What a sequence for the outer terminal does: progress is recorded, and only the focused pane's is
/// passed on, none of it while the pane waits for the user; everything else is passed on.
pub open spec fn host_effect(
    before: App,
    id: PaneId,
    sequence: Seq<u8>,
    after: App,
    r: MuxReaction,
) -> bool {
    let progress = written_state(sequence);
    let waiting = match position_in(before, id) {
        Some(i) => before.mux->0.panes@[i].waiting(),
        None => false,
    };
    let passed = match progress {
        None => true,
        Some(state) => before.focus() == Some(id) && !(state != ProgressState::Clear && waiting),
    };
    &&& r.repaint == passed && r.cycle_started is None && r.alerts@.len() == 0 && !r.reload_config
    &&& byte_views(after.host_sequences@) == (if passed {
        byte_views(before.host_sequences@).push(sequence)
    } else {
        byte_views(before.host_sequences@)
    })
    &&& match (progress, position_in(before, id)) {
        (Some(state), Some(i)) if before.mux->0.panes@[i].status == PaneStatus::Running => {
            let pane = before.mux->0.panes@[i];
            &&& after.mux is Some
            &&& pane_exchanged(
                before.mux->0,
                i,
                Pane { cycle: WorkCycle { progress: state, ..pane.cycle }, ..pane },
                after.mux->0,
            )
        },
        _ => after.mux == before.mux,
    }
    &&& after == (App { mux: after.mux, host_sequences: after.host_sequences, ..before })
}

/// What a pane event does.
pub open spec fn mux_event_effect(before: App, event: MuxEvent, after: App, r: MuxReaction) -> bool {
    match event {
        MuxEvent::Output(id, signals) => output_effect(before, id, signals, after, r),
        MuxEvent::Exited(id, code) => exit_effect(before, id, code, after, r),
        MuxEvent::SessionLifecycle(id, event) => lifecycle_effect(before, id, event, after, r),
        MuxEvent::HostSequence(id, sequence) => host_effect(before, id, sequence@, after, r),
        MuxEvent::ConfigChanged => after == before && r.reload_config && !r.repaint
            && r.cycle_started is None && r.alerts@.len() == 0,
        MuxEvent::Term(_) => after == before && !r.reload_config && r.repaint
            && r.cycle_started is None && r.alerts@.len() == 0,
    }
}

fn quiet_reaction(repaint: bool) -> (r: MuxReaction)
    ensures
        r.repaint == repaint,
        r.cycle_started is None,
        r.alerts@.len() == 0,
        !r.reload_config,
{
    MuxReaction { repaint, cycle_started: None, alerts: Vec::new(), reload_config: false }
}

fn apply_output(app: &mut App, id: PaneId, signals: PaneSignals) -> (r: MuxReaction)
    requires
        old(app).wf(),
    ensures
        final(app).wf(),
        output_effect(*old(app), id, signals, *final(app), r),
{
    let shown = app.view == MainView::Attached(id);
    let attended = app.terminal_focused && shown;
    proof {
        if app.mux is Some {
            lemma_pane_position(app.mux->0.panes@, id, 0);
        }
    }
    if let Some(mux) = &mut app.mux {
        if let Some(pane) = mux.pane_mut(id) {
            let marked = pane.needs_attention();
            let title_before = pane.title.clone();
            let cycle_started = if signals_start_cycle(pane.is_working(), &signals.events) {
                Some(pane.session_id.clone())
            } else {
                None
            };
            let (outcome, notices) = pane.apply_signals(signals, attended);
            let attention_changed = marked != pane.needs_attention();
            let title_changed = title_before != pane.title;
            let title = pane.title.clone();
            let session_id = pane.session_id.clone();
            let mut alerts: Vec<PaneAlert> = Vec::new();
            let ghost now = *pane;
            let mut i: usize = 0;
            while i < notices.len()
                invariant
                    i <= notices@.len(),
                    title == now.title,
                    session_id == now.session_id,
                    alerts_for(alerts@, notices@.take(i as int), now),
                decreases notices@.len() - i,
            {
                alerts.push(
                    PaneAlert {
                        kind: notification_kind(notices[i]),
                        title: title.clone(),
                        session_id: session_id.clone(),
                    },
                );
                i = i + 1;
            }
            assert(notices@.take(i as int) == notices@);
            let repaint = shown || outcome.bell || attention_changed || title_changed
                || alerts.len() > 0;
            if outcome.bell {
                let mut message = "🔔 ".to_owned();
                message.append(title.as_str());
                app.status_message = Some(message);
            }
            return MuxReaction { repaint, cycle_started, alerts, reload_config: false };
        }
    }
    quiet_reaction(shown)
}

fn apply_exit(app: &mut App, id: PaneId, code: Option<u32>) -> (r: MuxReaction)
    requires
        old(app).wf(),
    ensures
        final(app).wf(),
        exit_effect(*old(app), id, code, *final(app), r),
{
    let was_focused = app.focused_id() == Some(id);
    let mut title = String::new();
    proof {
        if app.mux is Some {
            lemma_pane_position(app.mux->0.panes@, id, 0);
        }
    }
    if let Some(mux) = &mut app.mux {
        if let Some(pane) = mux.pane_mut(id) {
            pane.mark_exited(code);
            title = pane.title.clone();
        }
    }
    let mut message = "Session '".to_owned();
    message.append(title.as_str());
    match code {
        Some(c) => {
            if c != 0 {
                message.append("' exited with code ");
                message.append(decimal_text(c as u64).as_str());
            } else {
                message.append("' finished");
            }
        },
        None => message.append("' finished"),
    }
    app.status_message = Some(message);
    if was_focused {
        let sequence = clear_progress();
        proof {
            lemma_byte_views_push(app.host_sequences@, sequence);
        }
        app.host_sequences.push(sequence);
    }
    quiet_reaction(true)
}

/// Whether a pane's child runs, and whether the pane waits for the user.
fn pane_state(app: &App, id: PaneId) -> (state: (bool, bool))
    ensures
        match position_in(*app, id) {
            Some(i) => state.0 == (app.mux->0.panes@[i].status == PaneStatus::Running) && state.1
                == app.mux->0.panes@[i].waiting(),
            None => state == (false, false),
        },
{
    if let Some(mux) = &app.mux {
        if let Some(pane) = mux.pane(id) {
            return (pane.is_running(), pane.requires_user_action());
        }
    }
    (false, false)
}

fn apply_lifecycle_event(app: &mut App, id: PaneId, event: LifecycleEvent) -> (r: MuxReaction)
    requires
        old(app).wf(),
    ensures
        final(app).wf(),
        lifecycle_effect(*old(app), id, event, *final(app), r),
{
    let focused = app.focused_id() == Some(id);
    let mut turned = false;
    let mut repaint = focused;
    let mut alerts: Vec<PaneAlert> = Vec::new();
    proof {
        if app.mux is Some {
            lemma_pane_position(app.mux->0.panes@, id, 0);
        }
    }
    let (running, _waiting) = pane_state(app, id);
    if running {
        if let Some(mux) = &mut app.mux {
            if let Some(pane) = mux.pane_mut(id) {
                let marked = pane.needs_attention();
                let waiting = pane.requires_user_action();
                let notice = pane.apply_lifecycle(event);
                turned = waiting != pane.requires_user_action();
                repaint = focused || marked != pane.needs_attention() || turned
                    || notice.is_some();
                if let Some(n) = notice {
                    alerts.push(
                        PaneAlert {
                            kind: notification_kind(n),
                            title: pane.title.clone(),
                            session_id: pane.session_id.clone(),
                        },
                    );
                }
            }
        }
    }
    if focused && turned {
        app.sync_outer_progress();
    }
    MuxReaction { repaint, cycle_started: None, alerts, reload_config: false }
}

fn apply_host_sequence(app: &mut App, id: PaneId, sequence: Vec<u8>) -> (r: MuxReaction)
    requires
        old(app).wf(),
    ensures
        final(app).wf(),
        host_effect(*old(app), id, sequence@, *final(app), r),
{
    let progress = progress_state_from_sequence(&sequence);
    let focused = app.focused_id();
    let (running, waiting) = pane_state(app, id);
    if let Some(state) = progress {
        if running {
            if let Some(mux) = &mut app.mux {
                if let Some(pane) = mux.pane_mut(id) {
                    pane.record_progress_state(state);
                }
            }
        }
    }
    let passed = match progress {
        None => true,
        Some(state) => focused == Some(id) && !(state.is_working() && waiting),
    };
    if passed {
        proof {
            lemma_byte_views_push(app.host_sequences@, sequence);
        }
        app.host_sequences.push(sequence);
    }
    quiet_reaction(passed)
}

/// Applies a pane event.
pub fn handle_mux_event(app: &mut App, event: MuxEvent) -> (r: MuxReaction)
    requires
        old(app).wf(),
    ensures
        final(app).wf(),
        mux_event_effect(*old(app), event, *final(app), r),
{
    match event {
        MuxEvent::Output(id, signals) => apply_output(app, id, signals),
        MuxEvent::Exited(id, code) => apply_exit(app, id, code),
        MuxEvent::SessionLifecycle(id, event) => apply_lifecycle_event(app, id, event),
        MuxEvent::HostSequence(id, sequence) => apply_host_sequence(app, id, sequence),
        MuxEvent::ConfigChanged => MuxReaction {
            repaint: false,
            cycle_started: None,
            alerts: Vec::new(),
            reload_config: true,
        },
        MuxEvent::Term(_) => quiet_reaction(true),
    }
}

/// A run of signals begins a work cycle, as seen when it arrives, exactly where the pane's own record
/// of its cycles has one begin. Who looks at the pane, and whether it waits, plays no part.
pub proof fn law_cycle_starts_agree_with_the_pane(
    cycle: WorkCycle,
    events: Seq<PaneSignalEvent>,
    attended: bool,
    waiting: bool,
)
    ensures
        starts_cycle(cycle.working, events) == cycle.begins_within(events, attended, waiting),
        works_after(cycle.working, events) == cycle.after_all(events, attended, waiting).working,
    decreases events.len(),
{
    if events.len() > 0 {
        law_cycle_starts_agree_with_the_pane(cycle, events.drop_last(), attended, waiting);
    }
}

/// Progress that a pane in the background reports never reaches the outer terminal.
pub proof fn law_background_progress_stays_inside(
    before: App,
    id: PaneId,
    sequence: Vec<u8>,
    after: App,
    reaction: MuxReaction,
)
    requires
        mux_event_effect(before, MuxEvent::HostSequence(id, sequence), after, reaction),
        written_state(sequence@) is Some,
        before.focus() != Some(id),
    ensures
        byte_views(after.host_sequences@) == byte_views(before.host_sequences@),
        !reaction.repaint,
{
}

/// While the question whether to quit stands, no key reaches a pane: only the answer changes.
pub proof fn law_quit_question_holds_keys_back(
    before: App,
    event: Event,
    context: InputContext,
    after: App,
    step: Step,
)
    requires
        before.confirm_quit,
        attached_event_effect(before, event, context, after, step),
    ensures
        step is Nothing,
        after.mux == before.mux,
        after.scratchpad == before.scratchpad,
        after.terminal == before.terminal,
{
}

/// What the keys behind the prefix do to the panes: `n` and `p` go one on and one back, round the ends,
/// a digit goes to the pane of that number, `x` asks to end the focused one, and no key changes which
/// panes there are.
pub proof fn law_prefix_keys_move_between_panes(
    before: App,
    key: KeyEvent,
    modes: ScreenModes,
    after: App,
    step: Step,
    at: int,
)
    requires
        attached_key_effect(before, key, modes, after, step),
        before.mux matches Some(mux) && mux.prefix_state == PrefixState::Root
            && !mux.prefix.is_pressed(key) && crate::mux::distinct_ids(mux.panes@) && 0 <= at
            < mux.panes@.len() && mux.focused == Some(mux.panes@[at].id),
    ensures
        ({
            let panes = before.mux->0.panes@;
            let last = panes.len() - 1;
            &&& after.mux is Some && after.mux->0.panes == before.mux->0.panes
            &&& key.code == KeyCode::Char('n') ==> after.focus() == Some(
                panes[if at < last {
                    at + 1
                } else {
                    0
                }].id,
            )
            &&& key.code == KeyCode::Char('p') ==> after.focus() == Some(
                panes[if at > 0 {
                    at - 1
                } else {
                    last
                }].id,
            )
            &&& key.code == KeyCode::Char('1') || key.code == KeyCode::Char('0') ==> after.focus()
                == Some(panes[0].id)
            &&& key.code == KeyCode::Char('2') ==> after.focus() == Some(
                panes[if last >= 1 {
                    1
                } else {
                    at
                }].id,
            )
            &&& key.code == KeyCode::Char('9') ==> after.focus() == Some(
                panes[if last >= 8 {
                    8
                } else {
                    at
                }].id,
            )
            &&& key.code == KeyCode::Char('x') ==> step == Step::ForgetPanels(panes[at].id)
            &&& after.focus() != before.focus() ==> key.code == KeyCode::Char('n') || key.code
                == KeyCode::Char('p') || (key.code matches KeyCode::Char(c) && '0' <= c && c <= '9')
            &&& (key.code == KeyCode::Char('n') || key.code == KeyCode::Char('p')) && before.view is Attached
                ==> after.view == MainView::Attached(after.focus()->0)
        }),
{
    crate::mux::law_forward_is_the_next_position(before.mux->0.panes@, at);
}

/// What the keys behind the prefix ask for: each letter opens its own thing, the question before
/// quitting comes up exactly while something runs, and whatever was pressed, the prefix is done with,
/// except where a second key is asked for.
pub proof fn law_prefix_keys_open_what_they_name(
    before: App,
    key: KeyEvent,
    modes: ScreenModes,
    after: App,
    step: Step,
)
    requires
        attached_key_effect(before, key, modes, after, step),
        before.mux matches Some(mux) && mux.prefix_state == PrefixState::Root
            && !mux.prefix.is_pressed(key),
    ensures
        key.code == KeyCode::Char('d') ==> after.view == MainView::List && step is Detached,
        key.code == KeyCode::Char('w') ==> step is OpenPaneList,
        key.code == KeyCode::Char('c') ==> after.workspace_focus == WorkspaceFocus::Chat,
        key.code == KeyCode::Char('e') ==> step is ToggleScratchpad,
        key.code == KeyCode::Char('t') ==> step is ToggleTerminal,
        key.code == KeyCode::Char('s') ==> step is OpenSnippets,
        key.code == KeyCode::Char('u') ==> step is RequestUpdate,
        key.code == KeyCode::Char('q') ==> {
            let running = exists|i: int|
                0 <= i < before.mux->0.panes@.len() && (#[trigger] before.mux->0.panes@[i]).status
                    == PaneStatus::Running;
            &&& running ==> after.confirm_quit && after.should_quit == before.should_quit
            &&& !running ==> after.should_quit && after.confirm_quit == before.confirm_quit
        },
        key.code == KeyCode::Backspace ==> after.mux->0.prefix_state == PrefixState::Help,
        key.code == KeyCode::Char('g') && key.modifiers.control ==> after.mux->0.prefix_state
            == PrefixState::Github,
        key.code == KeyCode::Esc ==> step is Nothing && after.mux->0.prefix_state == PrefixState::Idle,
        !(step is Write),
        key.code != KeyCode::Backspace && !key.modifiers.control ==> after.mux->0.prefix_state
            == PrefixState::Idle,
{
}

/// Without the prefix, a key goes to the focused pane, as the bytes that a terminal sends for it; the
/// prefix pressed twice goes there too. A pane that has ended takes no keys: enter and escape ask for
/// it to be put away.
pub proof fn law_other_keys_reach_the_pane(
    before: App,
    key: KeyEvent,
    modes: ScreenModes,
    after: App,
    step: Step,
)
    requires
        attached_key_effect(before, key, modes, after, step),
        before.mux is Some,
        before.focused_pane() is Some,
    ensures
        ({
            let mux = before.mux->0;
            let pane = before.focused_pane()->0;
            let pressed = mux.prefix.is_pressed(key);
            let sent = key_bytes(key, modes.application_cursor);
            let idle = mux.prefix_state == PrefixState::Idle;
            &&& pane.status == PaneStatus::Running && sent is Some && ((idle && !pressed) || (
            mux.prefix_state == PrefixState::Root && pressed)) <==> step is Write
            &&& step matches Step::Write { pane: id, bytes } ==> id == pane.id && Some(bytes@) == sent
            &&& idle && pressed ==> after.mux->0.prefix_state == PrefixState::Root && step is Nothing
            &&& idle && !pressed && pane.status != PaneStatus::Running ==> (step is ForgetPanels <==> (
            key.code == KeyCode::Enter || key.code == KeyCode::Esc))
        }),
{
}

/// From the list, the keys behind the prefix that belong to a pane go to it first: whatever is opened,
/// the focused pane is shown with it.
pub proof fn law_prefix_keys_in_the_list_show_the_pane(
    before: App,
    key: KeyEvent,
    after: App,
    step: Step,
    at: int,
)
    requires
        list_prefix_effect(before, key, after, step),
        before.mux matches Some(mux) && mux.prefix_state == PrefixState::Root
            && !mux.prefix.is_pressed(key) && crate::mux::distinct_ids(mux.panes@) && 0 <= at
            < mux.panes@.len() && mux.focused == Some(mux.panes@[at].id),
    ensures
        ({
            let panes = before.mux->0.panes@;
            let last = panes.len() - 1;
            let here = MainView::Attached(panes[at].id);
            &&& key.code == KeyCode::Char('n') ==> after.view == MainView::Attached(
                panes[if at < last {
                    at + 1
                } else {
                    0
                }].id,
            ) && step == Step::SyncPanels(Follow::Nothing)
            &&& key.code == KeyCode::Char('p') ==> after.view == MainView::Attached(
                panes[if at > 0 {
                    at - 1
                } else {
                    last
                }].id,
            ) && step == Step::SyncPanels(Follow::Nothing)
            &&& key.code == KeyCode::Char('1') ==> after.view == MainView::Attached(panes[0].id)
            &&& key.code == KeyCode::Char('c') ==> after.view == here && step == Step::SyncPanels(
                Follow::FocusChat,
            )
            &&& key.code == KeyCode::Char('e') ==> after.view == here && step == Step::SyncPanels(
                Follow::ToggleScratchpad,
            )
            &&& key.code == KeyCode::Char('t') ==> after.view == here && step == Step::SyncPanels(
                Follow::ToggleTerminal,
            )
            &&& key.code == KeyCode::Char('s') ==> after.view == here && step == Step::SyncPanels(
                Follow::OpenSnippets,
            )
            &&& key.code == KeyCode::Char('x') ==> step == Step::ForgetPanels(panes[at].id)
            &&& key.code == KeyCode::Char('w') || key.code == KeyCode::Char('d') ==> step is OpenPaneList
            &&& key.code == KeyCode::Char('q') ==> step is RequestQuit
            &&& key.code == KeyCode::Char('u') ==> step is RequestUpdate
        }),
{
    crate::mux::law_forward_is_the_next_position(before.mux->0.panes@, at);
}

/// In the list of snippets the arrows move the selection by one and stop at the ends, enter pastes the
/// selected prompt whole into the focused pane, and the letters add, change, delete and close.
pub proof fn law_keys_in_the_list_of_snippets(
    before: App,
    code: KeyCode,
    modes: ScreenModes,
    after: App,
    step: Step,
)
    requires
        list_key_effect(before, code, modes, after, step),
        before.snippet_modal matches Some(modal) && modal.wf() && modal.selected < modal.global@.len()
            + modal.project@.len(),
    ensures
        ({
            let modal = before.snippet_modal->0;
            let now = after.snippet_modal->0;
            let count = modal.global@.len() + modal.project@.len();
            &&& code == KeyCode::Down && modal.selected + 1 < count ==> now.selected == modal.selected + 1
            &&& code == KeyCode::Down && modal.selected + 1 == count ==> now.selected == modal.selected
            &&& code == KeyCode::Up && modal.selected > 0 ==> now.selected == modal.selected - 1
            &&& code == KeyCode::Up && modal.selected == 0 ==> now.selected == 0
            &&& code == KeyCode::Esc || code == KeyCode::Char('q') ==> after.snippet_modal is None
            &&& code == KeyCode::Char('a') ==> now.screen == SnippetScreen::Editor && now.editing is None
            &&& code == KeyCode::Char('e') ==> now.screen == SnippetScreen::Editor && now.editing is Some
                && now.editor_name.chars@ == modal.snippet_at(modal.selected as int).0
                && now.editor_prompt.chars@ == modal.snippet_at(modal.selected as int).1
            &&& code == KeyCode::Char('d') ==> now.screen == SnippetScreen::ConfirmDelete && now.selected
                == modal.selected
            &&& step matches Step::PasteSnippet { pane: id, bytes } ==> code == KeyCode::Enter
                && before.focused_pane() is Some && id == before.focused_pane()->0.id && bytes@
                == paste_bytes(modal.snippet_at(modal.selected as int).1, modes.bracketed_paste)
            &&& !(step is PasteSnippet) ==> step is Nothing
        }),
{
}

/// A snippet is deleted only after it was confirmed, and kept where the answer is no.
pub proof fn law_deletion_is_confirmed(
    before: App,
    event: Event,
    modes: ScreenModes,
    after: App,
    step: Step,
)
    requires
        snippet_event_effect(before, event, modes, after, step),
        before.snippet_modal is Some,
    ensures
        step is DeleteSnippet ==> before.snippet_modal->0.screen == SnippetScreen::ConfirmDelete && (
        event matches Event::Key(key) && key.kind == KeyEventKind::Press && (key.code
            == KeyCode::Char('y') || key.code == KeyCode::Enter)),
        before.snippet_modal->0.screen == SnippetScreen::ConfirmDelete ==> (
        event matches Event::Key(key) ==> key.kind == KeyEventKind::Press ==> (key.code
            == KeyCode::Char('n') || key.code == KeyCode::Esc) ==> after.snippet_modal is Some
            && after.snippet_modal->0.screen == SnippetScreen::List && after.snippet_modal->0.global
            == before.snippet_modal->0.global && after.snippet_modal->0.project
            == before.snippet_modal->0.project),
        step is SaveSnippet ==> before.snippet_modal->0.screen == SnippetScreen::Editor && (
        event matches Event::Key(key) && key.modifiers.control && key.code == KeyCode::Char('s')),
{
}

/// In the editor of snippets the tab keys go round the fields both ways, a letter goes into the field
/// at hand and nowhere else, and escape goes back to the list with nothing saved.
pub proof fn law_keys_in_the_editor_of_snippets(before: SnippetModal, key: KeyEvent, after: SnippetModal)
    requires
        editor_key_effect(before, key, after),
        !key.modifiers.control,
        !key.modifiers.alt,
    ensures
        after.global == before.global && after.project == before.project && after.selected
            == before.selected,
        key.code == KeyCode::Tab ==> match before.editor_field {
            SnippetEditorField::Name => after.editor_field == SnippetEditorField::Scope,
            SnippetEditorField::Scope => after.editor_field == SnippetEditorField::Prompt,
            SnippetEditorField::Prompt => after.editor_field == SnippetEditorField::Name,
        },
        key.code == KeyCode::BackTab ==> match before.editor_field {
            SnippetEditorField::Name => after.editor_field == SnippetEditorField::Prompt,
            SnippetEditorField::Scope => after.editor_field == SnippetEditorField::Name,
            SnippetEditorField::Prompt => after.editor_field == SnippetEditorField::Scope,
        },
        key.code == KeyCode::Esc ==> after.screen == SnippetScreen::List,
        key.code matches KeyCode::Char(c) ==> match before.editor_field {
            SnippetEditorField::Name => inserted(before.editor_name, seq![c], after.editor_name)
                && after.editor_prompt == before.editor_prompt,
            SnippetEditorField::Prompt => inserted(before.editor_prompt, seq![c], after.editor_prompt)
                && after.editor_name == before.editor_name,
            SnippetEditorField::Scope => after.editor_name == before.editor_name
                && after.editor_prompt == before.editor_prompt,
        },
{
}

/// A click brings the keys to what was clicked, and to nothing where nothing lies.
pub proof fn law_clicks_take_the_keys_along(app: App, column: u16, row: u16)
    ensures
        ({
            let areas = app.workspace_areas;
            let notes = areas.scratchpad matches Some(area) && area.holds(column, row);
            let shell = areas.terminal matches Some(area) && area.holds(column, row);
            let chat = areas.chat.holds(column, row);
            let now = clicked(app, column, row);
            &&& notes ==> now.workspace_focus == WorkspaceFocus::Scratchpad && !now.terminal.focused
            &&& !notes && shell ==> now.workspace_focus == WorkspaceFocus::Terminal
            &&& !notes && !shell && chat ==> now.workspace_focus == WorkspaceFocus::Chat
                && !now.terminal.focused
            &&& !notes && !shell && !chat ==> now == app
            &&& now.mux == app.mux && now.scratchpad == app.scratchpad
        }),
{
}

/// What lies on top takes the events: while something is asked or shown over the panes, they get no
/// keys.
pub proof fn law_what_lies_on_top_takes_the_events(
    before: App,
    event: Event,
    context: InputContext,
    after: App,
    step: Step,
)
    requires
        attached_event_effect(before, event, context, after, step),
        before.confirm_quit || before.github_inspector is Some || before.snippet_modal is Some
            || before.workspace_help is Some,
    ensures
        !(step is Write) && !(step is WriteShell) && !(step is Scratchpad),
        !before.confirm_quit && before.github_inspector is Some ==> after.snippet_modal
            == before.snippet_modal && after.workspace_help == before.workspace_help && after.mux
            == before.mux,
        !before.confirm_quit && before.github_inspector is None && before.snippet_modal is None ==> (
        after.workspace_help is None <==> (event matches Event::Key(key) && key.kind
            == KeyEventKind::Press && key.code == KeyCode::Esc)),
        before.confirm_quit ==> (after.should_quit == (before.should_quit || (
        event matches Event::Key(key) && key.kind == KeyEventKind::Press && key.code
            == KeyCode::Char('y')))),
{
}

/// Keys and pastes go where the focus lies: to the pane, to the notes or to the shell.
pub proof fn law_events_go_where_the_focus_lies(
    before: App,
    event: Event,
    context: InputContext,
    after: App,
    step: Step,
)
    requires
        focus_event_effect(before, event, context, after, step),
    ensures
        step is Scratchpad ==> before.workspace_focus == WorkspaceFocus::Scratchpad,
        step is WriteShell || step is ScrollShell ==> before.workspace_focus == WorkspaceFocus::Terminal,
        step is Write || step is Scroll ==> before.workspace_focus == WorkspaceFocus::Chat,
        step matches Step::Write { pane: id, bytes } ==> before.focus() == Some(id),
        event matches Event::Paste(text) ==> step matches Step::Write { pane: id, bytes } ==> bytes@
            == paste_bytes(text@, context.modes.bracketed_paste),
{
    if let Some(mux) = before.mux {
        if let Some(id) = mux.focused {
            lemma_pane_position(mux.panes@, id, 0);
        }
    }
}

/// An event of one pane changes that pane alone, and every other stays as it was.
pub proof fn law_events_change_their_own_pane(
    before: App,
    event: MuxEvent,
    after: App,
    reaction: MuxReaction,
    id: PaneId,
    other: int,
)
    requires
        mux_event_effect(before, event, after, reaction),
        match event {
            MuxEvent::Output(pane, _) => pane == id,
            MuxEvent::Exited(pane, _) => pane == id,
            MuxEvent::SessionLifecycle(pane, _) => pane == id,
            MuxEvent::HostSequence(pane, _) => pane == id,
            _ => false,
        },
        before.mux matches Some(mux) && 0 <= other < mux.panes@.len() && mux.panes@[other].id != id,
    ensures
        after.mux matches Some(mux) && mux.panes@.len() == before.mux->0.panes@.len()
            && mux.panes@[other] == before.mux->0.panes@[other] && mux.focused
            == before.mux->0.focused,
{
    lemma_pane_position(before.mux->0.panes@, id, 0);
}

/// A pane that ends is shown with its own exit code, does nothing more, and is spoken of by its title:
/// as finished where the code is zero or unknown, and else with the code.
pub proof fn law_an_end_is_told(
    before: App,
    id: PaneId,
    code: Option<u32>,
    after: App,
    reaction: MuxReaction,
    at: int,
)
    requires
        mux_event_effect(before, MuxEvent::Exited(id, code), after, reaction),
        before.mux matches Some(mux) && crate::mux::distinct_ids(mux.panes@) && 0 <= at
            < mux.panes@.len() && mux.panes@[at].id == id,
    ensures
        ({
            let pane = before.mux->0.panes@[at];
            let now = after.mux->0.panes@[at];
            &&& now.status == PaneStatus::Exited(code)
            &&& !now.cycle.working && now.cycle.progress == ProgressState::Clear
            &&& now.title == pane.title && now.session_id == pane.session_id
            &&& reaction.repaint && reaction.alerts@.len() == 0
            &&& after.status_message matches Some(message) && message@ == (match code {
                None => "Session '"@ + pane.title@ + "' finished"@,
                Some(number) => if number == 0 {
                    "Session '"@ + pane.title@ + "' finished"@
                } else {
                    "Session '"@ + pane.title@ + "' exited with code "@ + decimal(number as nat)
                },
            })
        }),
{
    lemma_pane_position(before.mux->0.panes@, id, 0);
    let found = pane_position(before.mux->0.panes@, id);
    if let Some(i) = found {
        if i < at {
            assert(before.mux->0.panes@[i].id != before.mux->0.panes@[at].id);
        } else if at < i {
            assert(before.mux->0.panes@[at].id != before.mux->0.panes@[i].id);
        }
    }
}

/// Every notice is passed on as what it is, with the title and the session of its pane.
pub proof fn law_alerts_are_what_the_pane_noticed(
    alerts: Seq<PaneAlert>,
    notices: Seq<PaneNotification>,
    pane: Pane,
    i: int,
)
    requires
        alerts_for(alerts, notices, pane),
        0 <= i < notices.len(),
    ensures
        alerts[i].kind == NotificationKind::Ready <==> notices[i] == PaneNotification::Ready,
        alerts[i].kind == NotificationKind::Question <==> notices[i] == PaneNotification::Question,
        alerts[i].kind == NotificationKind::PlanApproval <==> notices[i]
            == PaneNotification::PlanApproval,
        alerts[i].kind == NotificationKind::Error <==> notices[i] == PaneNotification::Error,
        alerts[i].title@ == pane.title@ && alerts[i].session_id@ == pane.session_id@,
{
}

/// What the editing keys do in a field: each acts on the character or the line at the cursor, and all
/// but the two deleting ones leave the text as it is.
pub proof fn law_editing_keys_act_at_the_cursor(before: TextEditor, code: KeyCode, after: TextEditor)
    requires
        before.wf(),
        field_edited(before, code, after),
        0 < before.cursor,
        before.cursor < before.chars@.len(),
    ensures
        code == KeyCode::Backspace ==> after.chars@ == before.chars@.remove(before.cursor - 1)
            && after.cursor == before.cursor - 1,
        code == KeyCode::Delete ==> after.chars@ == before.chars@.remove(before.cursor as int)
            && after.cursor == before.cursor,
        code != KeyCode::Backspace && code != KeyCode::Delete ==> after.chars@ == before.chars@,
        code == KeyCode::Left ==> after.cursor == before.cursor - 1,
        code == KeyCode::Right ==> after.cursor == before.cursor + 1,
        code == KeyCode::Home ==> (after.cursor == 0 || before.chars@[after.cursor - 1] == '\n') && (
        forall|i: int| after.cursor <= i < before.cursor ==> #[trigger] before.chars@[i] != '\n'),
        code == KeyCode::End ==> (after.cursor == before.chars@.len() || before.chars@[after.cursor as int]
            == '\n') && (forall|i: int|
            before.cursor <= i < after.cursor ==> #[trigger] before.chars@[i] != '\n'),
{
    assert(before.chars@.len() == before.chars.len());
    crate::editor::law_a_line_reaches_from_break_to_break(before.chars@, before.cursor as int);
}

/// What the mouse does over a pane: without a program that asked for it the wheel scrolls, and with one
/// the pane is told, in the form that the program asked for. A pane that ended takes nothing.
pub proof fn law_the_mouse_over_a_pane(
    before: Pane,
    mouse: MouseEvent,
    modes: ScreenModes,
    after: Pane,
    step: Step,
)
    requires
        pane_mouse_effect(before, mouse, modes, after, step),
    ensures
        before.status != PaneStatus::Running ==> step is Nothing && after == before,
        step matches Step::Scroll { pane: id, up } ==> id == before.id && modes.mouse_mode
            == crate::input::MouseProtocolMode::Off && before.viewport.inside(mouse.column, mouse.row) && (
        up <==> mouse.kind is ScrollUp) && (!up <==> mouse.kind is ScrollDown),
        before.status == PaneStatus::Running && modes.mouse_mode == crate::input::MouseProtocolMode::Off
            && before.viewport.inside(mouse.column, mouse.row) && (mouse.kind is ScrollUp
            || mouse.kind is ScrollDown) ==> step is Scroll,
        step matches Step::Write { pane: id, bytes } ==> id == before.id && modes.mouse_mode
            != crate::input::MouseProtocolMode::Off && Some(bytes@) == crate::mux::pane::mouse_report(
            before.viewport,
            before.mouse_captured,
            mouse,
            modes.mouse_mode,
            modes.mouse_encoding,
        ),
        after.id == before.id && after.title == before.title && after.cycle == before.cycle
            && after.status == before.status,
{
}

/// A pane takes the title that its program sets, without the space around it, and keeps its own where
/// nothing is left of it.
pub proof fn law_programs_set_the_title(before: Pane, signals: PaneSignals, attended: bool, after: Pane)
    requires
        signalled(before, signals, attended, after),
    ensures
        signals.title is None ==> after.title == before.title,
        signals.title matches Some(title) ==> if trim(title@).len() > 0 {
            after.title@ == trim(title@)
        } else {
            after.title == before.title
        },
        after.id == before.id && after.session_id == before.session_id && after.status == before.status
            && after.pending_inputs == before.pending_inputs,
{
}

/// A bell is shown with the title of its pane, and the screen is drawn anew where the pane is shown,
/// rings, or has something to tell.
pub proof fn law_bells_are_shown(
    before: App,
    id: PaneId,
    signals: PaneSignals,
    after: App,
    reaction: MuxReaction,
)
    requires
        mux_event_effect(before, MuxEvent::Output(id, signals), after, reaction),
    ensures
        before.view == MainView::Attached(id) ==> reaction.repaint,
        position_in(before, id) matches Some(i) ==> {
            &&& signals.events@.contains(PaneSignalEvent::Bell) ==> reaction.repaint && (
            after.status_message matches Some(message) && message@ == "🔔 "@
                + after.mux->0.panes@[i].title@)
            &&& !signals.events@.contains(PaneSignalEvent::Bell) ==> after.status_message
                == before.status_message
            &&& reaction.alerts@.len() > 0 ==> reaction.repaint
        },
        position_in(before, id) is None ==> after == before && reaction.alerts@.len() == 0,
        !reaction.reload_config,
{
}

/// What a pane writes for the outer terminal goes there as it is, unless it is the progress of a pane
/// without the focus, or of one that waits.
pub proof fn law_sequences_are_passed_on(
    before: App,
    id: PaneId,
    sequence: Vec<u8>,
    after: App,
    reaction: MuxReaction,
)
    requires
        mux_event_effect(before, MuxEvent::HostSequence(id, sequence), after, reaction),
    ensures
        written_state(sequence@) is None ==> byte_views(after.host_sequences@) == byte_views(
            before.host_sequences@,
        ).push(sequence@),
        before.focus() == Some(id) && written_state(sequence@) == Some(ProgressState::Clear)
            ==> byte_views(after.host_sequences@) == byte_views(before.host_sequences@).push(sequence@),
        position_in(before, id) matches Some(i) ==> before.mux->0.panes@[i].status == PaneStatus::Running
            ==> (written_state(sequence@) matches Some(state) ==> after.mux->0.panes@[i].cycle.progress
            == state),
        reaction.repaint <==> byte_views(after.host_sequences@) != byte_views(before.host_sequences@),
{
    let now = byte_views(after.host_sequences@);
    let was = byte_views(before.host_sequences@);
    assert(was.push(sequence@).len() != was.len());
    if let Some(mux) = before.mux {
        lemma_pane_position(mux.panes@, id, 0);
    }
}

/// A click on the number of an item asks for that item, whatever has the keys.
pub proof fn law_clicks_on_items_ask_for_them(
    before: App,
    event: Event,
    context: InputContext,
    after: App,
    step: Step,
    number: u64,
)
    requires
        workspace_event_effect(before, event, context, after, step),
        clicked_reference(before, event, context.screen) == Some(number),
    ensures
        step == Step::InspectGithubItem(number),
        after == before,
        event matches Event::Mouse(mouse) && mouse.kind == MouseEventKind::Down(MouseButton::Left)
            && before.focused_pane() is Some && before.focused_pane()->0.viewport.inside(
            mouse.column,
            mouse.row,
        ),
{
}

/// The user who presses a key, pastes or clicks has the program in front.
pub proof fn law_input_shows_attention(before: App, event: Event, after: App)
    requires
        attention_noted(before, event, after),
    ensures
        event matches Event::Key(key) ==> key.kind == KeyEventKind::Press ==> after.terminal_focused,
        event is Paste ==> after.terminal_focused,
        event matches Event::Mouse(mouse) ==> mouse.kind is Down ==> after.terminal_focused,
        event matches Event::Mouse(mouse) ==> !(mouse.kind is Down) ==> after == before,
        after.view == before.view && after.workspace_focus == before.workspace_focus,
{
}

/// A snippet that is not complete is not saved, and is told what is missing; one that is goes out with
/// the lists that it belongs in.
pub proof fn law_only_complete_snippets_go_out(before: SnippetModal, after: SnippetModal, step: Step)
    requires
        save_effect(before, after, step),
    ensures
        step is SaveSnippet <==> before.problem() is None,
        before.problem() is Some ==> step is Nothing && after.error is Some,
        step matches Step::SaveSnippet { update, selected } ==> save_planned(before, update, selected)
            && after == before,
{
}

/// The view follows the focus: where a pane is shown it is the focused one, and without one the list is.
pub proof fn law_the_view_follows_the_focus(view: MainView, focused: Option<PaneId>)
    ensures
        view is Attached ==> match focused {
            Some(id) => synced_view(view, focused) == MainView::Attached(id),
            None => synced_view(view, focused) == MainView::List,
        },
        view is List ==> synced_view(view, focused) == MainView::List,
{
}

/// Up and down move the cursor in the prompt, by a row, and do nothing in the other fields; enter breaks
/// the line there, goes on from the name, and changes the scope.
pub proof fn law_rows_are_gone_through_in_the_prompt(before: SnippetModal, key: KeyEvent, after: SnippetModal)
    requires
        before.wf(),
        editor_key_effect(before, key, after),
        !key.modifiers.control,
        !key.modifiers.alt,
    ensures
        before.editor_field != SnippetEditorField::Prompt && (key.code == KeyCode::Up || key.code
            == KeyCode::Down) ==> after == before,
        before.editor_field == SnippetEditorField::Prompt ==> {
            let text = before.editor_prompt.chars@;
            let at = before.editor_prompt.cursor as int;
            &&& key.code == KeyCode::Down || key.code == KeyCode::Up ==> after.editor_prompt.chars@ == text
            &&& key.code == KeyCode::Down && crate::editor::line_end(text, at) < text.len()
                ==> crate::editor::place_of(text, after.editor_prompt.cursor as int).0
                == crate::editor::place_of(text, at).0 + 1
            &&& key.code == KeyCode::Up && crate::editor::line_start(text, at) > 0
                ==> crate::editor::place_of(text, after.editor_prompt.cursor as int).0
                == crate::editor::place_of(text, at).0 - 1
            &&& key.code == KeyCode::Enter ==> after.editor_prompt.chars@ == text.take(at) + seq!['\n']
                + text.skip(at)
        },
        key.code == KeyCode::Enter && before.editor_field == SnippetEditorField::Name
            ==> after.editor_field == SnippetEditorField::Scope && after.editor_name
            == before.editor_name,
        key.code == KeyCode::Enter && before.editor_field == SnippetEditorField::Scope
            && before.project_root is Some ==> after.editor_scope != before.editor_scope,
{
    let text = before.editor_prompt.chars@;
    let at = before.editor_prompt.cursor as int;
    assert(text.len() == before.editor_prompt.chars.len());
    crate::editor::law_vertical_moves_keep_the_column(text, at);
}

} // verus!
