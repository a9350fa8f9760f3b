//! The notes and terminal panels beside an attached session: which pane they belong to, and how they
//! follow the focus.
//!
//! Opening, saving and starting are done outside. A function here that needs such work comes with a
//! function that says which, and takes the outcomes as an argument.

use crate::app::{
    acknowledged, byte_views, has_pane, looked_at, mark_pane, App, WorkspaceFocus,
};
use crate::host_terminal::report;
use crate::mux::pane::{Pane, PaneId};
use crate::scratchpad::{InputOutcome, Scratchpad, ScratchpadRequest};
use crate::mux::{lemma_pane_position, pane_position};
use crate::strings::same_text;
use crate::terminal_pane::{
    activated, comes_up, lemma_activated_is_shown, names, needed_activation, Activation,
    TerminalManager,
};
use vstd::prelude::*;

verus! {

/// The work that bringing the panels to the focused pane needs, in this order: saving the notes that
/// leave, reading those that come, and starting a shell. Saving that fails ends it.
#[derive(Debug)]
pub struct PanelWork {
    pub save: bool,
    pub open: Option<String>,
    pub start_shell: bool,
}

/// How the outside work went. An outcome of work that was not needed does not count.
pub struct PanelOutcomes {
    pub saved: Result<(), String>,
    pub opened: Result<(), String>,
    pub shell: Result<(), String>,
}

/// Whether the notes on hand are not those of a pane.
pub open spec fn other_notes(app: App, pane: PaneId) -> bool {
    app.scratchpad_owner != Some(pane) || app.scratchpad is None
}

/// A message made of a fixed part and a reason.
pub open spec fn says(message: Option<String>, prefix: Seq<char>, reason: Seq<char>) -> bool {
    message matches Some(text) && text@ == prefix + reason
}

fn reason_message(prefix: &str, reason: &String) -> (message: String)
    ensures
        message@ == prefix@ + reason@,
{
    let mut message = prefix.to_owned();
    message.append(reason.as_str());
    message
}

/// The focused pane: its number, session, title and directory.
pub fn focused_workspace_context(app: &App) -> (context: Option<(PaneId, String, String, String)>)
    ensures
        match app.focused_pane() {
            Some(pane) => context == Some((pane.id, pane.session_id, pane.title, pane.cwd)),
            None => context is None,
        },
{
    match &app.mux {
        Some(mux) => match mux.focused_pane() {
            Some(pane) => Some(
                (pane.id, pane.session_id.clone(), pane.title.clone(), pane.cwd.clone()),
            ),
            None => None,
        },
        None => None,
    }
}

/// The focus goes to the chat.
pub fn focus_chat(app: &mut App)
    ensures
        *final(app) == chat_focused(*old(app)),
{
    app.workspace_focus = WorkspaceFocus::Chat;
    app.terminal.unfocus();
}

/// The program with the focus on the chat.
pub open spec fn chat_focused(app: App) -> App {
    App {
        workspace_focus: WorkspaceFocus::Chat,
        terminal: TerminalManager { focused: false, ..app.terminal },
        ..app
    }
}

/// Closes the notes on hand, where saving them worked, and says whether they are closed.
pub fn close_scratchpad(app: &mut App, saved: &Result<(), String>) -> (closed: bool)
    ensures
        closed == (old(app).scratchpad is None || *saved is Ok),
        notes_closed(*old(app), *saved, *final(app)),
{
    if app.scratchpad.is_some() {
        if let Err(error) = saved {
            app.status_message = Some(reason_message("Scratchpad save failed: ", error));
            return false;
        }
    }
    app.scratchpad = None;
    app.scratchpad_owner = None;
    true
}

/// Whether a program is another after closing the notes on hand.
pub open spec fn notes_closed(before: App, saved: Result<(), String>, after: App) -> bool {
    match saved {
        Err(error) if before.scratchpad is Some => {
            &&& says(after.status_message, "Scratchpad save failed: "@, error@)
            &&& after == (App { status_message: after.status_message, ..before })
        },
        _ => after == (App { scratchpad: None, scratchpad_owner: None, ..before }),
    }
}

/// The work that bringing the panels to the focused pane needs.
pub fn panel_work(app: &App) -> (work: PanelWork)
    ensures
        match app.focused_pane() {
            Some(pane) => {
                &&& work.save == (other_notes(*app, pane.id) && app.scratchpad is Some)
                &&& work.open == (if other_notes(*app, pane.id) && app.scratchpad_open@.contains(
                    pane.id,
                ) {
                    Some(pane.session_id)
                } else {
                    None
                })
                &&& work.start_shell == (app.terminal_open@.contains(pane.id) && needed_activation(
                    app.terminal.entries@,
                    pane.session_id@,
                ) != Activation::Focused)
            },
            None => work.save == (app.scratchpad is Some) && work.open is None && !work.start_shell,
        },
{
    match focused_workspace_context(app) {
        Some((pane_id, session_id, _, _)) => {
            let other = app.scratchpad_owner != Some(pane_id) || app.scratchpad.is_none();
            let start_shell = has_pane(&app.terminal_open, pane_id) && app.terminal.activation(
                session_id.as_str(),
            ) != Activation::Focused;
            let open = if other && has_pane(&app.scratchpad_open, pane_id) {
                Some(session_id)
            } else {
                None
            };
            PanelWork { save: other && app.scratchpad.is_some(), open, start_shell }
        },
        None => PanelWork { save: app.scratchpad.is_some(), open: None, start_shell: false },
    }
}

/// Whether a program holds the notes of a pane as they were stored.
pub open spec fn holds_stored_notes(app: App, pane: Pane) -> bool {
    &&& app.scratchpad_owner == Some(pane.id)
    &&& app.scratchpad matches Some(notes) && notes.session_id@ == pane.session_id@ && !notes.dirty
        && notes.last_edit is None && notes.status_message is None
}

/// Whether a list of panes is another without one.
pub open spec fn without_pane(before: Seq<PaneId>, id: PaneId, after: Seq<PaneId>) -> bool {
    forall|n: PaneId| #[trigger] after.contains(n) <==> (n != id && before.contains(n))
}

/// Whether a list of panes is another with one.
pub open spec fn with_pane(before: Seq<PaneId>, id: PaneId, after: Seq<PaneId>) -> bool {
    forall|n: PaneId| #[trigger] after.contains(n) <==> (n == id || before.contains(n))
}

/// Whether the notes on hand are those that belong beside a pane: its own, where they were open, and
/// none else. Notes that cannot be read count as closed.
pub open spec fn notes_follow(before: App, pane: Pane, opened: Result<(), String>, after: App) -> bool {
    if !other_notes(before, pane.id) {
        &&& after.scratchpad == before.scratchpad
        &&& after.scratchpad_owner == before.scratchpad_owner
        &&& after.scratchpad_open == before.scratchpad_open
    } else if before.scratchpad_open@.contains(pane.id) && opened is Ok {
        holds_stored_notes(after, pane) && after.scratchpad_open == before.scratchpad_open
    } else {
        &&& after.scratchpad is None
        &&& after.scratchpad_owner is None
        &&& if before.scratchpad_open@.contains(pane.id) {
            without_pane(before.scratchpad_open@, pane.id, after.scratchpad_open@)
        } else {
            after.scratchpad_open == before.scratchpad_open
        }
    }
}

/// Whether the terminal shown is the one that belongs beside a pane: its own, where it was open, and
/// none else. A terminal that cannot be started counts as closed.
pub open spec fn terminal_follows(before: App, pane: Pane, shell: Result<(), String>, after: App) -> bool {
    if !before.terminal_open@.contains(pane.id) {
        &&& after.terminal == (TerminalManager { visible: false, focused: false, ..before.terminal })
        &&& after.terminal_owner is None
        &&& after.terminal_open == before.terminal_open
    } else if comes_up(before.terminal, pane.session_id@, shell) {
        &&& after.terminal.focused == (before.workspace_focus == WorkspaceFocus::Terminal)
        &&& activated(
            before.terminal,
            pane.session_id@,
            pane.title,
            pane.cwd,
            shell,
            TerminalManager { focused: true, ..after.terminal },
        )
        &&& after.terminal_owner == Some(pane.id)
        &&& after.terminal_open == before.terminal_open
    } else {
        &&& !after.terminal.visible
        &&& !after.terminal.focused
        &&& activated(
            before.terminal,
            pane.session_id@,
            pane.title,
            pane.cwd,
            shell,
            TerminalManager {
                visible: before.terminal.visible,
                focused: before.terminal.focused,
                ..after.terminal
            },
        )
        &&& after.terminal_owner is None
        &&& without_pane(before.terminal_open@, pane.id, after.terminal_open@)
    }
}

/// Whether a message is the one that bringing the panels to a pane leaves: that of the last failure.
pub open spec fn follow_message(
    before: App,
    pane: Pane,
    outcomes: PanelOutcomes,
    message: Option<String>,
) -> bool {
    if before.terminal_open@.contains(pane.id) && !comes_up(
        before.terminal,
        pane.session_id@,
        outcomes.shell,
    ) {
        says(message, "Cannot switch terminal: "@, outcomes.shell->Err_0@)
    } else if other_notes(before, pane.id) && before.scratchpad_open@.contains(pane.id)
        && outcomes.opened is Err {
        says(message, "Cannot switch scratchpad: "@, outcomes.opened->Err_0@)
    } else {
        message == before.status_message
    }
}

/// Where the focus is once the panels are in place: on the chat, if the focused panel is not on
/// screen.
pub open spec fn settled_focus(before: WorkspaceFocus, after: App) -> WorkspaceFocus {
    if (!after.shows_scratchpad() && before == WorkspaceFocus::Scratchpad) || (
    !after.shows_terminal() && before == WorkspaceFocus::Terminal) {
        WorkspaceFocus::Chat
    } else {
        before
    }
}

/// Whether a program is another with its panels brought to the focused pane.
pub open spec fn panels_synced(before: App, outcomes: PanelOutcomes, after: App) -> bool {
    &&& acknowledged(before.mux, after.mux)
    &&& byte_views(after.host_sequences@) == byte_views(before.host_sequences@).push(
        report(before.outer_progress()),
    )
    &&& after == (App {
        mux: after.mux,
        host_sequences: after.host_sequences,
        scratchpad: after.scratchpad,
        scratchpad_owner: after.scratchpad_owner,
        scratchpad_open: after.scratchpad_open,
        terminal: after.terminal,
        terminal_owner: after.terminal_owner,
        terminal_open: after.terminal_open,
        status_message: after.status_message,
        workspace_focus: after.workspace_focus,
        ..before
    })
    &&& match before.focused_pane() {
        None => {
            let kept = before.scratchpad is Some && outcomes.saved is Err;
            &&& after.scratchpad == (if kept {
                before.scratchpad
            } else {
                None
            })
            &&& after.scratchpad_owner == (if kept {
                before.scratchpad_owner
            } else {
                None
            })
            &&& if kept {
                says(after.status_message, "Scratchpad save failed: "@, outcomes.saved->Err_0@)
            } else {
                after.status_message == before.status_message
            }
            &&& after.terminal == (TerminalManager {
                visible: false,
                focused: false,
                ..before.terminal
            })
            &&& after.terminal_owner is None
            &&& after.scratchpad_open@.len() == 0
            &&& after.terminal_open@.len() == 0
            &&& after.workspace_focus == WorkspaceFocus::Chat
        },
        Some(pane) => if other_notes(before, pane.id) && before.scratchpad is Some
            && outcomes.saved is Err {
            &&& says(after.status_message, "Scratchpad save failed: "@, outcomes.saved->Err_0@)
            &&& after.scratchpad == before.scratchpad
            &&& after.scratchpad_owner == before.scratchpad_owner
            &&& after.scratchpad_open == before.scratchpad_open
            &&& after.terminal == before.terminal
            &&& after.terminal_owner == before.terminal_owner
            &&& after.terminal_open == before.terminal_open
            &&& after.workspace_focus == before.workspace_focus
        } else {
            &&& notes_follow(before, pane, outcomes.opened, after)
            &&& terminal_follows(before, pane, outcomes.shell, after)
            &&& follow_message(before, pane, outcomes, after.status_message)
            &&& after.workspace_focus == settled_focus(before.workspace_focus, after)
        },
    }
}

fn leave_panels(app: &mut App, saved: &Result<(), String>)
    requires
        old(app).wf(),
    ensures
        final(app).wf(),
        ({
            let kept = old(app).scratchpad is Some && *saved is Err;
            &&& if kept {
                says(final(app).status_message, "Scratchpad save failed: "@, saved->Err_0@)
            } else {
                final(app).status_message == old(app).status_message
            }
            &&& final(app).scratchpad_open@.len() == 0
            &&& final(app).terminal_open@.len() == 0
            &&& *final(app) == (App {
                scratchpad: if kept {
                    old(app).scratchpad
                } else {
                    None
                },
                scratchpad_owner: if kept {
                    old(app).scratchpad_owner
                } else {
                    None
                },
                scratchpad_open: final(app).scratchpad_open,
                status_message: final(app).status_message,
                terminal: TerminalManager {
                    visible: false,
                    focused: false,
                    ..old(app).terminal
                },
                terminal_owner: None,
                terminal_open: final(app).terminal_open,
                workspace_focus: WorkspaceFocus::Chat,
                ..*old(app)
            })
        }),
{
    close_scratchpad(app, saved);
    app.terminal.conceal();
    app.terminal_owner = None;
    app.scratchpad_open.clear();
    app.terminal_open.clear();
    app.workspace_focus = WorkspaceFocus::Chat;
}

fn follow_notes(
    app: &mut App,
    Ghost(pane): Ghost<Pane>,
    pane_id: PaneId,
    session_id: &str,
    saved: &Result<(), String>,
    opened: &Result<(), String>,
) -> (done: bool)
    requires
        old(app).wf(),
        pane.id == pane_id,
        pane.session_id@ == session_id@,
    ensures
        final(app).wf(),
        *final(app) == (App {
            scratchpad: final(app).scratchpad,
            scratchpad_owner: final(app).scratchpad_owner,
            scratchpad_open: final(app).scratchpad_open,
            status_message: final(app).status_message,
            ..*old(app)
        }),
        if other_notes(*old(app), pane.id) && old(app).scratchpad is Some && *saved is Err {
            &&& !done
            &&& says(final(app).status_message, "Scratchpad save failed: "@, saved->Err_0@)
            &&& final(app).scratchpad == old(app).scratchpad
            &&& final(app).scratchpad_owner == old(app).scratchpad_owner
            &&& final(app).scratchpad_open == old(app).scratchpad_open
        } else {
            &&& done
            &&& notes_follow(*old(app), pane, *opened, *final(app))
            &&& if other_notes(*old(app), pane.id) && old(app).scratchpad_open@.contains(pane.id)
                && *opened is Err {
                says(final(app).status_message, "Cannot switch scratchpad: "@, opened->Err_0@)
            } else {
                final(app).status_message == old(app).status_message
            }
        },
{
    if app.scratchpad_owner == Some(pane_id) && app.scratchpad.is_some() {
        return true;
    }
    if !close_scratchpad(app, saved) {
        return false;
    }
    if has_pane(&app.scratchpad_open, pane_id) {
        match opened {
            Ok(_) => {
                app.scratchpad = Some(Scratchpad::open(session_id));
                app.scratchpad_owner = Some(pane_id);
            },
            Err(error) => {
                mark_pane(&mut app.scratchpad_open, pane_id, false);
                app.status_message = Some(reason_message("Cannot switch scratchpad: ", error));
            },
        }
    }
    true
}

fn follow_terminal(
    app: &mut App,
    Ghost(pane): Ghost<Pane>,
    context: (PaneId, String, String, String),
    shell: Result<(), String>,
)
    requires
        old(app).wf(),
        pane.id == context.0,
        pane.session_id == context.1,
        pane.title == context.2,
        pane.cwd == context.3,
    ensures
        final(app).wf(),
        *final(app) == (App {
            terminal: final(app).terminal,
            terminal_owner: final(app).terminal_owner,
            terminal_open: final(app).terminal_open,
            status_message: final(app).status_message,
            ..*old(app)
        }),
        terminal_follows(*old(app), pane, shell, *final(app)),
        if old(app).terminal_open@.contains(pane.id) && !comes_up(
            old(app).terminal,
            pane.session_id@,
            shell,
        ) {
            says(final(app).status_message, "Cannot switch terminal: "@, shell->Err_0@)
        } else {
            final(app).status_message == old(app).status_message
        },
{
    let (pane_id, session_id, title, cwd) = context;
    if has_pane(&app.terminal_open, pane_id) {
        match app.terminal.activate(session_id, title, cwd, shell) {
            Ok(_) => {
                if app.workspace_focus != WorkspaceFocus::Terminal {
                    app.terminal.unfocus();
                }
                app.terminal_owner = Some(pane_id);
            },
            Err(error) => {
                app.terminal.conceal();
                app.terminal_owner = None;
                mark_pane(&mut app.terminal_open, pane_id, false);
                app.status_message = Some(reason_message("Cannot switch terminal: ", &error));
            },
        }
    } else {
        app.terminal.conceal();
        app.terminal_owner = None;
    }
}

fn settle_focus(app: &mut App)
    ensures
        *final(app) == (App {
            workspace_focus: settled_focus(old(app).workspace_focus, *old(app)),
            ..*old(app)
        }),
{
    if (!app.attached_scratchpad_visible() && app.workspace_focus == WorkspaceFocus::Scratchpad) || (
    !app.attached_terminal_visible() && app.workspace_focus == WorkspaceFocus::Terminal) {
        app.workspace_focus = WorkspaceFocus::Chat;
    }
}

/// Brings the panels to the focused pane. The outcomes are those of the work that [`panel_work`]
/// names.
pub fn sync_workspace_panels(app: &mut App, outcomes: PanelOutcomes)
    requires
        old(app).wf(),
    ensures
        final(app).wf(),
        panels_synced(*old(app), outcomes, *final(app)),
{
    let ghost before = *app;
    app.acknowledge_focused_pane();
    app.sync_outer_progress();
    proof {
        lemma_acknowledged_keeps_focus(before, *app);
    }
    let context = match focused_workspace_context(app) {
        Some(context) => context,
        None => {
            leave_panels(app, &outcomes.saved);
            return;
        },
    };
    let ghost pane = before.focused_pane()->0;
    if !follow_notes(
        app,
        Ghost(pane),
        context.0,
        context.1.as_str(),
        &outcomes.saved,
        &outcomes.opened,
    ) {
        return;
    }
    follow_terminal(app, Ghost(pane), context, outcomes.shell);
    settle_focus(app);
}

/// Looking at the focused pane moves no focus, and changes of that pane only that it wants attention.
proof fn lemma_acknowledged_keeps_focus(before: App, after: App)
    requires
        acknowledged(before.mux, after.mux),
    ensures
        after.focus() == before.focus(),
        match before.focused_pane() {
            Some(pane) => after.focused_pane() == Some(looked_at(pane)),
            None => after.focused_pane() is None,
        },
{
    if let Some(mux) = before.mux {
        if let Some(id) = mux.focused {
            lemma_pane_position(mux.panes@, id, 0);
            if let Some(i) = mux.focused_position() {
                let panes = mux.panes@.update(i, looked_at(mux.panes@[i]));
                lemma_pane_position(panes, id, 0);
                assert(panes[i].id == id);
                if let Some(k) = pane_position(panes, id) {
                    assert(mux.panes@[k].id == panes[k].id);
                }
                assert(after.mux->0.panes@ == panes);
            }
        }
    }
}

/// The work that toggling the notes of the focused pane needs: saving those on hand, and reading the
/// pane's own.
pub fn scratchpad_toggle_work(app: &App) -> (work: PanelWork)
    ensures
        !work.start_shell,
        match app.focused_pane() {
            Some(pane) => if other_notes(*app, pane.id) {
                work.save == (app.scratchpad is Some) && work.open == Some(pane.session_id)
            } else {
                work.save == (app.workspace_focus == WorkspaceFocus::Scratchpad) && work.open is None
            },
            None => !work.save && work.open is None,
        },
{
    match focused_workspace_context(app) {
        Some((pane_id, session_id, _, _)) => {
            if app.scratchpad_owner == Some(pane_id) && app.scratchpad.is_some() {
                PanelWork {
                    save: app.workspace_focus == WorkspaceFocus::Scratchpad,
                    open: None,
                    start_shell: false,
                }
            } else {
                PanelWork {
                    save: app.scratchpad.is_some(),
                    open: Some(session_id),
                    start_shell: false,
                }
            }
        },
        None => PanelWork { save: false, open: None, start_shell: false },
    }
}

/// Whether a program is another after toggling the notes of its focused pane: closed where they had
/// the focus, focused where they were open, and opened else.
pub open spec fn scratchpad_toggled(before: App, outcomes: PanelOutcomes, after: App) -> bool {
    match before.focused_pane() {
        None => after == before,
        Some(pane) => if !other_notes(before, pane.id) {
            if before.workspace_focus != WorkspaceFocus::Scratchpad {
                after == (App {
                    workspace_focus: WorkspaceFocus::Scratchpad,
                    terminal: TerminalManager { focused: false, ..before.terminal },
                    ..before
                })
            } else {
                match outcomes.saved {
                    Ok(_) => {
                        &&& without_pane(before.scratchpad_open@, pane.id, after.scratchpad_open@)
                        &&& after == (App {
                            scratchpad: None,
                            scratchpad_owner: None,
                            scratchpad_open: after.scratchpad_open,
                            workspace_focus: WorkspaceFocus::Chat,
                            ..before
                        })
                    },
                    Err(error) => {
                        &&& after.scratchpad is Some
                        &&& says(
                            after.scratchpad->0.status_message,
                            "Scratchpad save failed: "@,
                            error@,
                        )
                        &&& after == (App {
                            scratchpad: Some(
                                Scratchpad {
                                    status_message: after.scratchpad->0.status_message,
                                    ..before.scratchpad->0
                                },
                            ),
                            ..before
                        })
                    },
                }
            }
        } else if before.scratchpad is Some && outcomes.saved is Err {
            notes_closed(before, outcomes.saved, after)
        } else {
            match outcomes.opened {
                Ok(_) => {
                    &&& holds_stored_notes(after, pane)
                    &&& with_pane(before.scratchpad_open@, pane.id, after.scratchpad_open@)
                    &&& after == (App {
                        scratchpad: after.scratchpad,
                        scratchpad_owner: Some(pane.id),
                        scratchpad_open: after.scratchpad_open,
                        workspace_focus: WorkspaceFocus::Scratchpad,
                        terminal: TerminalManager { focused: false, ..before.terminal },
                        ..before
                    })
                },
                Err(error) => {
                    &&& says(after.status_message, "Cannot open scratchpad: "@, error@)
                    &&& after == (App {
                        scratchpad: None,
                        scratchpad_owner: None,
                        status_message: after.status_message,
                        ..before
                    })
                },
            }
        },
    }
}

fn leave_or_focus_notes(app: &mut App, pane_id: PaneId, saved: &Result<(), String>)
    requires
        old(app).wf(),
        old(app).scratchpad is Some,
    ensures
        final(app).wf(),
        if old(app).workspace_focus != WorkspaceFocus::Scratchpad {
            *final(app) == (App {
                workspace_focus: WorkspaceFocus::Scratchpad,
                terminal: TerminalManager { focused: false, ..old(app).terminal },
                ..*old(app)
            })
        } else {
            match *saved {
                Ok(_) => {
                    &&& without_pane(
                        old(app).scratchpad_open@,
                        pane_id,
                        final(app).scratchpad_open@,
                    )
                    &&& *final(app) == (App {
                        scratchpad: None,
                        scratchpad_owner: None,
                        scratchpad_open: final(app).scratchpad_open,
                        workspace_focus: WorkspaceFocus::Chat,
                        ..*old(app)
                    })
                },
                Err(error) => {
                    &&& final(app).scratchpad is Some
                    &&& says(
                        final(app).scratchpad->0.status_message,
                        "Scratchpad save failed: "@,
                        error@,
                    )
                    &&& *final(app) == (App {
                        scratchpad: Some(
                            Scratchpad {
                                status_message: final(app).scratchpad->0.status_message,
                                ..old(app).scratchpad->0
                            },
                        ),
                        ..*old(app)
                    })
                },
            }
        },
{
    if app.workspace_focus == WorkspaceFocus::Scratchpad {
        if let Err(error) = saved {
            if let Some(scratchpad) = &mut app.scratchpad {
                scratchpad.status_message = Some(reason_message("Scratchpad save failed: ", error));
            }
            return;
        }
        app.scratchpad = None;
        app.scratchpad_owner = None;
        mark_pane(&mut app.scratchpad_open, pane_id, false);
        app.workspace_focus = WorkspaceFocus::Chat;
    } else {
        app.workspace_focus = WorkspaceFocus::Scratchpad;
        app.terminal.unfocus();
    }
}

fn take_up_notes(
    app: &mut App,
    pane_id: PaneId,
    session_id: &str,
    opened: &Result<(), String>,
)
    requires
        old(app).wf(),
        old(app).scratchpad is None,
        old(app).scratchpad_owner is None,
    ensures
        final(app).wf(),
        match *opened {
            Ok(_) => {
                &&& final(app).scratchpad matches Some(notes) && notes.session_id@ == session_id@
                    && !notes.dirty && notes.last_edit is None && notes.status_message is None
                &&& with_pane(old(app).scratchpad_open@, pane_id, final(app).scratchpad_open@)
                &&& *final(app) == (App {
                    scratchpad: final(app).scratchpad,
                    scratchpad_owner: Some(pane_id),
                    scratchpad_open: final(app).scratchpad_open,
                    workspace_focus: WorkspaceFocus::Scratchpad,
                    terminal: TerminalManager { focused: false, ..old(app).terminal },
                    ..*old(app)
                })
            },
            Err(error) => {
                &&& says(final(app).status_message, "Cannot open scratchpad: "@, error@)
                &&& *final(app) == (App { status_message: final(app).status_message, ..*old(app) })
            },
        },
{
    match opened {
        Ok(_) => {
            app.scratchpad = Some(Scratchpad::open(session_id));
            app.scratchpad_owner = Some(pane_id);
            mark_pane(&mut app.scratchpad_open, pane_id, true);
            app.workspace_focus = WorkspaceFocus::Scratchpad;
            app.terminal.unfocus();
        },
        Err(error) => {
            app.status_message = Some(reason_message("Cannot open scratchpad: ", error));
        },
    }
}

/// Toggles the notes of the focused pane. The outcomes are those of the work that
/// [`scratchpad_toggle_work`] names.
pub fn toggle_attached_scratchpad(app: &mut App, outcomes: PanelOutcomes)
    requires
        old(app).wf(),
    ensures
        final(app).wf(),
        scratchpad_toggled(*old(app), outcomes, *final(app)),
{
    let (pane_id, session_id, _, _) = match focused_workspace_context(app) {
        Some(context) => context,
        None => {
            return;
        },
    };
    if app.scratchpad_owner == Some(pane_id) && app.scratchpad.is_some() {
        leave_or_focus_notes(app, pane_id, &outcomes.saved);
        return;
    }
    if !close_scratchpad(app, &outcomes.saved) {
        return;
    }
    take_up_notes(app, pane_id, session_id.as_str(), &outcomes.opened);
}

/// Whether the focused pane's terminal is on screen and has the focus.
pub open spec fn terminal_in_use(app: App, pane: Pane) -> bool {
    app.shows_terminal() && names(app.terminal.active_id, pane.session_id@) && app.workspace_focus
        == WorkspaceFocus::Terminal
}

fn is_terminal_in_use(app: &App, session_id: &str) -> (r: bool)
    ensures
        r == (app.shows_terminal() && names(app.terminal.active_id, session_id@)
            && app.workspace_focus == WorkspaceFocus::Terminal),
{
    let active = match app.terminal.active_session_id() {
        Some(id) => same_text(id, session_id),
        None => false,
    };
    app.attached_terminal_visible() && active && app.workspace_focus == WorkspaceFocus::Terminal
}

/// Whether toggling the terminal of the focused pane needs a shell to be started.
pub fn terminal_toggle_needs_shell(app: &App) -> (r: bool)
    ensures
        r == (app.focused_pane() matches Some(pane) && !terminal_in_use(*app, pane)
            && needed_activation(app.terminal.entries@, pane.session_id@) != Activation::Focused),
{
    match focused_workspace_context(app) {
        Some((_, session_id, _, _)) => !is_terminal_in_use(app, session_id.as_str())
            && app.terminal.activation(session_id.as_str()) != Activation::Focused,
        None => false,
    }
}

/// Whether a program is another after toggling the terminal of its focused pane: hidden where it had
/// the focus, and brought up else.
pub open spec fn terminal_toggled(before: App, shell: Result<(), String>, after: App) -> bool {
    match before.focused_pane() {
        None => after == before,
        Some(pane) => if terminal_in_use(before, pane) {
            &&& without_pane(before.terminal_open@, pane.id, after.terminal_open@)
            &&& after == (App {
                terminal: TerminalManager { visible: false, focused: false, ..before.terminal },
                terminal_owner: None,
                terminal_open: after.terminal_open,
                workspace_focus: WorkspaceFocus::Chat,
                ..before
            })
        } else {
            &&& activated(
                before.terminal,
                pane.session_id@,
                pane.title,
                pane.cwd,
                shell,
                after.terminal,
            )
            &&& if comes_up(before.terminal, pane.session_id@, shell) {
                &&& with_pane(before.terminal_open@, pane.id, after.terminal_open@)
                &&& after == (App {
                    terminal: after.terminal,
                    terminal_owner: Some(pane.id),
                    terminal_open: after.terminal_open,
                    workspace_focus: WorkspaceFocus::Terminal,
                    ..before
                })
            } else {
                &&& says(after.status_message, "Cannot open terminal: "@, shell->Err_0@)
                &&& after == (App {
                    terminal: after.terminal,
                    status_message: after.status_message,
                    ..before
                })
            }
        },
    }
}

/// Toggles the terminal of the focused pane. `shell` is the outcome of starting one, where
/// [`terminal_toggle_needs_shell`] says so.
pub fn toggle_attached_terminal(app: &mut App, shell: Result<(), String>)
    requires
        old(app).wf(),
    ensures
        final(app).wf(),
        terminal_toggled(*old(app), shell, *final(app)),
{
    let (pane_id, session_id, title, cwd) = match focused_workspace_context(app) {
        Some(context) => context,
        None => {
            return;
        },
    };
    if is_terminal_in_use(app, session_id.as_str()) {
        app.terminal.conceal();
        app.terminal_owner = None;
        mark_pane(&mut app.terminal_open, pane_id, false);
        app.workspace_focus = WorkspaceFocus::Chat;
        return;
    }
    match app.terminal.activate(session_id, title, cwd, shell) {
        Ok(_) => {
            app.terminal_owner = Some(pane_id);
            mark_pane(&mut app.terminal_open, pane_id, true);
            app.workspace_focus = WorkspaceFocus::Terminal;
        },
        Err(error) => {
            app.status_message = Some(reason_message("Cannot open terminal: ", &error));
        },
    }
}

/// Whether a program is another after the notes on hand were saved on request: they close where that
/// was asked and worked.
pub open spec fn scratchpad_saved(
    before: App,
    request: ScratchpadRequest,
    stored: Result<(), String>,
    after: App,
) -> bool {
    match before.scratchpad {
        None => after == before,
        Some(notes) => if request == ScratchpadRequest::SaveAndClose && stored is Ok {
            &&& match before.focused_pane() {
                Some(pane) => without_pane(
                    before.scratchpad_open@,
                    pane.id,
                    after.scratchpad_open@,
                ),
                None => after.scratchpad_open == before.scratchpad_open,
            }
            &&& after == (App {
                scratchpad: None,
                scratchpad_owner: None,
                scratchpad_open: after.scratchpad_open,
                workspace_focus: WorkspaceFocus::Chat,
                ..before
            })
        } else {
            &&& after.scratchpad is Some
            &&& after == (App {
                scratchpad: Some(
                    Scratchpad { status_message: after.scratchpad->0.status_message, ..notes },
                ),
                ..before
            })
            &&& match stored {
                Err(error) => says(
                    after.scratchpad->0.status_message,
                    "Scratchpad save failed: "@,
                    error@,
                ),
                Ok(_) => if request == ScratchpadRequest::Save {
                    after.scratchpad->0.status_message matches Some(m) && m@ == "Scratchpad saved"@
                } else {
                    after.scratchpad->0.status_message == notes.status_message
                },
            }
        },
    }
}

/// Takes in how saving the notes on hand went.
pub fn finish_scratchpad_save(
    app: &mut App,
    request: ScratchpadRequest,
    stored: Result<(), String>,
)
    requires
        old(app).wf(),
    ensures
        final(app).wf(),
        scratchpad_saved(*old(app), request, stored, *final(app)),
{
    let outcome = match &mut app.scratchpad {
        Some(scratchpad) => scratchpad.saved(request, &stored),
        None => {
            return;
        },
    };
    if outcome == InputOutcome::Close {
        let context = focused_workspace_context(app);
        app.scratchpad = None;
        app.scratchpad_owner = None;
        if let Some((pane_id, _, _, _)) = context {
            mark_pane(&mut app.scratchpad_open, pane_id, false);
        }
        app.workspace_focus = WorkspaceFocus::Chat;
    }
}

/// The panels shown beside a pane are never those of another one: once they are brought to the
/// focused pane, notes and terminal on screen belong to it.
pub proof fn law_panels_belong_to_the_focused_pane(before: App, outcomes: PanelOutcomes, after: App)
    requires
        panels_synced(before, outcomes, after),
        before.focused_pane() is Some,
    ensures
        after.shows_scratchpad() ==> after.scratchpad_owner == before.focus(),
        after.shows_terminal() ==> after.terminal_owner == before.focus(),
        after.focus() == before.focus(),
{
    lemma_acknowledged_keeps_focus(before, after);
}

/// Whether two programs have the same panels: the notes on hand, the terminals, and the panes beside
/// which they are open.
pub open spec fn same_panels(a: App, b: App) -> bool {
    &&& a.scratchpad == b.scratchpad
    &&& a.scratchpad_owner == b.scratchpad_owner
    &&& a.scratchpad_open == b.scratchpad_open
    &&& a.terminal == b.terminal
    &&& a.terminal_owner == b.terminal_owner
    &&& a.terminal_open == b.terminal_open
}

/// The panels opened beside a pane are gone from the screen while another pane has the focus, and are
/// there again when the focus comes back: its notes and the terminal of its session. `away` is the
/// program once the focus went from the pane to another one and the panels were brought there, `back`
/// the program once they were brought back; between these steps anything but the panels may change.
pub proof fn law_panels_come_back_with_the_focus(
    home: App,
    leaving: App,
    left: PanelOutcomes,
    away: App,
    returning: App,
    returned: PanelOutcomes,
    back: App,
)
    requires
        home.focused_pane() is Some,
        same_panels(home, leaving),
        leaving.focused_pane() matches Some(other) && other.id != home.focused_pane()->0.id,
        left.saved is Ok,
        panels_synced(leaving, left, away),
        same_panels(away, returning),
        returning.view is Attached,
        returning.focused_pane() matches Some(pane) && pane.id == home.focused_pane()->0.id,
        returned.saved is Ok,
        returned.opened is Ok,
        returned.shell is Ok,
        panels_synced(returning, returned, back),
    ensures
        ({
            let pane = returning.focused_pane()->0;
            let other = leaving.focused_pane()->0;
            let notes = home.scratchpad_open@.contains(pane.id);
            let terminal = home.terminal_open@.contains(pane.id);
            &&& away.shows_scratchpad() ==> home.scratchpad_open@.contains(other.id)
                || home.scratchpad_owner == Some(other.id)
            &&& away.shows_terminal() ==> home.terminal_open@.contains(other.id)
            &&& away.scratchpad_owner != Some(pane.id) && away.terminal_owner != Some(pane.id)
            &&& back.shows_scratchpad() == notes
            &&& notes ==> holds_stored_notes(back, pane)
            &&& back.shows_terminal() == terminal
            &&& terminal ==> names(back.terminal.active_id, pane.session_id@)
        }),
{
    let pane = returning.focused_pane()->0;
    lemma_acknowledged_keeps_focus(leaving, away);
    lemma_acknowledged_keeps_focus(returning, back);
    lemma_focus_names_the_pane(leaving);
    lemma_focus_names_the_pane(returning);
    assert(away.scratchpad_open@.contains(pane.id) == home.scratchpad_open@.contains(pane.id));
    assert(away.terminal_open@.contains(pane.id) == home.terminal_open@.contains(pane.id));
    if home.terminal_open@.contains(pane.id) {
        let up = TerminalManager { focused: true, ..back.terminal };
        lemma_activated_is_shown(
            returning.terminal,
            pane.session_id@,
            pane.title,
            pane.cwd,
            returned.shell,
            up,
        );
        assert(up.active_position() == back.terminal.active_position());
    }
}

/// The focused pane is the one that the focus names.
proof fn lemma_focus_names_the_pane(app: App)
    ensures
        app.focused_pane() matches Some(pane) ==> app.focus() == Some(pane.id),
{
    if let Some(mux) = app.mux {
        if let Some(id) = mux.focused {
            lemma_pane_position(mux.panes@, id, 0);
        }
    }
}

/// Toggling the notes on and off again leaves the chat focused and the notes closed.
pub proof fn law_toggling_notes_twice_closes_them(
    before: App,
    first: PanelOutcomes,
    between: App,
    second: PanelOutcomes,
    after: App,
)
    requires
        before.focused_pane() is Some,
        other_notes(before, before.focused_pane()->0.id),
        first.saved is Ok,
        first.opened is Ok,
        second.saved is Ok,
        scratchpad_toggled(before, first, between),
        scratchpad_toggled(between, second, after),
    ensures
        after.scratchpad is None,
        after.workspace_focus == WorkspaceFocus::Chat,
        !after.scratchpad_open@.contains(before.focused_pane()->0.id),
{
}

/// Notes that could not be saved are kept, whether the panels follow the focus or the notes are put
/// away.
pub proof fn law_unsaved_notes_are_kept(before: App, outcomes: PanelOutcomes, after: App)
    requires
        panels_synced(before, outcomes, after) || scratchpad_toggled(before, outcomes, after),
        before.scratchpad is Some,
        outcomes.saved is Err,
    ensures
        after.scratchpad matches Some(notes) && notes.session_id == before.scratchpad->0.session_id
            && notes.dirty == before.scratchpad->0.dirty && notes.last_edit
            == before.scratchpad->0.last_edit,
        after.scratchpad_owner == before.scratchpad_owner,
{
}

/// The key for the terminal brings up that of the focused pane, with the keys in it, and pressed again
/// puts it away, with the keys in the pane.
pub proof fn law_toggling_the_terminal(before: App, shell: Result<(), String>, after: App, pane: Pane)
    requires
        terminal_toggled(before, shell, after),
        before.focused_pane() == Some(pane),
    ensures
        terminal_in_use(before, pane) ==> !after.terminal.visible && !after.terminal.focused
            && after.workspace_focus == WorkspaceFocus::Chat && !after.terminal_open@.contains(pane.id)
            && after.terminal.entries == before.terminal.entries,
        !terminal_in_use(before, pane) && shell is Ok ==> after.terminal.visible
            && after.terminal.focused && after.workspace_focus == WorkspaceFocus::Terminal
            && after.terminal_owner == Some(pane.id) && after.terminal_open@.contains(pane.id)
            && names(after.terminal.active_id, pane.session_id@),
        after.scratchpad == before.scratchpad,
{
}

/// The key for the notes brings up those of the focused pane, with the keys in them.
pub proof fn law_toggling_the_notes_opens_them(before: App, outcomes: PanelOutcomes, after: App, pane: Pane)
    requires
        scratchpad_toggled(before, outcomes, after),
        before.focused_pane() == Some(pane),
        before.workspace_focus != WorkspaceFocus::Scratchpad || other_notes(before, pane.id),
        outcomes.saved is Ok,
        outcomes.opened is Ok,
    ensures
        after.workspace_focus == WorkspaceFocus::Scratchpad,
        after.scratchpad_owner == Some(pane.id),
        after.scratchpad is Some,
        !after.terminal.focused,
        other_notes(before, pane.id) ==> after.scratchpad->0.session_id@ == pane.session_id@,
{
}

/// Saving the notes: they are closed only where that was asked and worked, and what failed is told with
/// the notes still there.
pub proof fn law_notes_close_only_when_saved(
    before: App,
    request: ScratchpadRequest,
    stored: Result<(), String>,
    after: App,
)
    requires
        scratchpad_saved(before, request, stored, after),
        before.scratchpad is Some,
    ensures
        after.scratchpad is None <==> request == ScratchpadRequest::SaveAndClose && stored is Ok,
        after.scratchpad is None ==> after.workspace_focus == WorkspaceFocus::Chat
            && after.scratchpad_owner is None,
        after.scratchpad is Some ==> after.workspace_focus == before.workspace_focus
            && after.scratchpad->0.session_id == before.scratchpad->0.session_id,
        stored matches Err(error) ==> after.scratchpad->0.status_message is Some
            && after.scratchpad->0.status_message->0@ == "Scratchpad save failed: "@ + error@,
        after.mux == before.mux,
{
}

/// Without a focused pane no panel stays open, and the keys go to the chat.
pub proof fn law_no_panels_without_a_pane(before: App, outcomes: PanelOutcomes, after: App)
    requires
        panels_synced(before, outcomes, after),
        before.focused_pane() is None,
    ensures
        after.terminal_open@ == Seq::<PaneId>::empty(),
        after.scratchpad_open@ == Seq::<PaneId>::empty(),
        !after.terminal.visible && !after.terminal.focused && after.terminal_owner is None,
        after.workspace_focus == WorkspaceFocus::Chat,
        outcomes.saved is Ok ==> after.scratchpad is None && after.scratchpad_owner is None,
{
}

} // verus!
