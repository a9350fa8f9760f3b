//! The state that decides where input goes and what is shown.

use crate::host_terminal::{progress_sequence_for_state, report, ProgressState};
use crate::input::Rect;
use crate::inspector::GithubInspector;
use crate::mux::pane::{Pane, PaneId, PaneStatus, WorkCycle};
use crate::mux::MuxState;
use crate::scratchpad::Scratchpad;
use crate::snippets::SnippetModal;
use crate::terminal_pane::TerminalManager;
use vstd::prelude::*;

verus! {

/// Whether the session list or a pane is on screen.
#[derive(Clone, Copy, Debug, PartialEq, Eq, Structural)]
pub enum MainView {
    List,
    Attached(PaneId),
}

/// The part of the attached workspace that takes input.
#[derive(Clone, Copy, Debug, PartialEq, Eq, Structural)]
pub enum WorkspaceFocus {
    Chat,
    Scratchpad,
    Terminal,
}

/// A help page over the workspace.
#[derive(Clone, Copy, Debug, PartialEq, Eq, Structural)]
pub enum WorkspaceHelp {
    Scratchpad,
}

/// Where the parts of the workspace were drawn.
#[derive(Clone, Copy, Debug, PartialEq, Eq, Structural)]
pub struct WorkspaceAreas {
    pub chat: Rect,
    pub scratchpad: Option<Rect>,
    pub terminal: Option<Rect>,
}

/// A session that is to be started once the screen was given back.
#[derive(Debug)]
pub enum NewSessionRequest {
    Normal { cwd: String },
    Worktree { source_project: String, branch: String },
}

/// A session that was open when a restart was asked for.
#[derive(Debug)]
pub struct UpdateRestartPane {
    pub pane_id: Option<PaneId>,
    /// Whether the session itself ran, and not only its shell.
    pub copilot_running: bool,
    pub terminal_generation: Option<u64>,
    pub session_id: String,
    pub cwd: String,
    pub title: String,
}

/// What an updated program is to open again.
#[derive(Debug)]
pub struct UpdateRestartRequest {
    pub panes: Vec<UpdateRestartPane>,
    pub focused_session_id: Option<String>,
}

impl Default for UpdateRestartRequest {
    fn default() -> (request: UpdateRestartRequest)
        ensures
            request.panes@.len() == 0,
            request.focused_session_id is None,
    {
        UpdateRestartRequest { panes: Vec::new(), focused_session_id: None }
    }
}

/// The work that goes on beside the screen.
#[derive(Clone, Copy, Debug, PartialEq, Eq, Structural)]
pub struct BackgroundWork {
    /// The sessions are being read.
    pub sessions: bool,
    /// Something is being fetched from GitHub.
    pub github: bool,
    /// A newer release is looked for.
    pub update_check: bool,
    /// An update is being installed.
    pub update_install: bool,
    /// Notifications are being sent.
    pub notifications: bool,
    /// The configuration is being read again.
    pub config: bool,
}

impl BackgroundWork {
    /// Whether anything goes on.
    pub open spec fn any(self) -> bool {
        self.sessions || self.github || self.update_check || self.update_install
            || self.notifications || self.config
    }
}

/// The state that decides where input goes and what is shown.
pub struct App {
    pub mux: Option<MuxState>,
    pub view: MainView,
    pub workspace_focus: WorkspaceFocus,
    /// Whether the outer terminal has the focus of its window system.
    pub terminal_focused: bool,
    pub confirm_quit: bool,
    pub confirm_update_restart: bool,
    pub should_quit: bool,
    /// The session to resume in the foreground, and its directory.
    pub should_resume: Option<(String, String)>,
    pub should_new_session: Option<NewSessionRequest>,
    /// Where the shell that started the program is to go.
    pub exit_dir: Option<String>,
    /// What an updated program is to open again, where it is to take over.
    pub restart_after_update: Option<UpdateRestartRequest>,
    pub installed_update_version: Option<String>,
    pub background: BackgroundWork,
    /// The session whose details are about to be read.
    pub detail_pending: Option<String>,
    pub workspace_help: Option<WorkspaceHelp>,
    pub github_inspector: Option<GithubInspector>,
    pub snippet_modal: Option<SnippetModal>,
    pub update_notice: Option<String>,
    pub status_message: Option<String>,
    /// Bytes to be written to the outer terminal.
    pub host_sequences: Vec<Vec<u8>>,
    pub scratchpad: Option<Scratchpad>,
    pub scratchpad_owner: Option<PaneId>,
    /// The panes whose notes are open.
    pub scratchpad_open: Vec<PaneId>,
    pub terminal: TerminalManager,
    pub terminal_owner: Option<PaneId>,
    /// The panes whose terminal is open.
    pub terminal_open: Vec<PaneId>,
    pub workspace_areas: WorkspaceAreas,
    /// The rows and columns that the panes were given.
    pub pane_size: (u16, u16),
    /// The cell of the outer terminal at which the panes begin.
    pub pane_origin: (u16, u16),
}

/// The byte strings of a list.
pub open spec fn byte_views(list: Seq<Vec<u8>>) -> Seq<Seq<u8>> {
    list.map_values(|bytes: Vec<u8>| bytes@)
}

/// Adding a byte string to a list adds its view.
pub proof fn lemma_byte_views_push(list: Seq<Vec<u8>>, bytes: Vec<u8>)
    ensures
        byte_views(list.push(bytes)) == byte_views(list).push(bytes@),
{
    assert(byte_views(list.push(bytes)) =~= byte_views(list).push(bytes@));
}

/// A pane that was looked at.
pub open spec fn looked_at(pane: Pane) -> Pane {
    Pane { cycle: WorkCycle { needs_attention: false, ..pane.cycle }, ..pane }
}

/// Whether a multiplexer is another with the pane at a position exchanged.
pub open spec fn pane_exchanged(before: MuxState, at: int, pane: Pane, after: MuxState) -> bool {
    &&& after.panes@ == before.panes@.update(at, pane)
    &&& after == (MuxState { panes: after.panes, ..before })
}

/// Whether a multiplexer is another in which the user looked at the focused pane.
pub open spec fn acknowledged(before: Option<MuxState>, after: Option<MuxState>) -> bool {
    match before {
        Some(mux) => match mux.focused_position() {
            Some(i) => after is Some && pane_exchanged(mux, i, looked_at(mux.panes@[i]), after->0),
            None => after == before,
        },
        None => after is None,
    }
}

/// Whether a list holds a pane number.
pub fn has_pane(list: &Vec<PaneId>, id: PaneId) -> (r: bool)
    ensures
        r == list@.contains(id),
{
    let mut i: usize = 0;
    while i < list.len()
        invariant
            i <= list@.len(),
            forall|j: int| 0 <= j < i ==> list@[j] != id,
        decreases list@.len() - i,
    {
        if list[i] == id {
            return true;
        }
        i = i + 1;
    }
    false
}

/// Adds a pane number to a list, or takes it out.
pub fn mark_pane(list: &mut Vec<PaneId>, id: PaneId, present: bool)
    ensures
        forall|n: PaneId| #[trigger]
            final(list)@.contains(n) <==> (if n == id {
                present
            } else {
                old(list)@.contains(n)
            }),
{
    let ghost before = list@;
    if present {
        if !has_pane(list, id) {
            list.push(id);
            proof {
                let after = list@;
                assert forall|n: PaneId| after.contains(n) <==> (n == id || before.contains(n)) by {
                    if after.contains(n) {
                        let i = choose|i: int| 0 <= i < after.len() && after[i] == n;
                        if i < before.len() {
                            assert(before[i] == n);
                        }
                    }
                    if before.contains(n) {
                        let i = choose|i: int| 0 <= i < before.len() && before[i] == n;
                        assert(after[i] == n);
                    }
                    assert(after[before.len() as int] == id);
                }
            }
        }
    } else {
        let mut kept: Vec<PaneId> = Vec::new();
        let mut i: usize = 0;
        while i < list.len()
            invariant
                i <= list@.len(),
                before == list@,
                forall|n: PaneId| #[trigger]
                    kept@.contains(n) <==> (n != id && before.take(i as int).contains(n)),
            decreases list@.len() - i,
        {
            let ghost earlier = kept@;
            let ghost shorter = before.take(i as int);
            let ghost longer = before.take(i + 1);
            let n: PaneId = list[i];
            if n != id {
                kept.push(n);
            }
            proof {
                assert(longer == shorter.push(n));
                assert forall|m: PaneId| #[trigger]
                    kept@.contains(m) <==> (m != id && longer.contains(m)) by {
                    assert(earlier.contains(m) <==> (m != id && shorter.contains(m)));
                    assert(longer.contains(m) <==> (shorter.contains(m) || m == n)) by {
                        if longer.contains(m) {
                            let j = choose|j: int| 0 <= j < longer.len() && longer[j] == m;
                            if j < i {
                                assert(shorter[j] == m);
                            }
                        }
                        if shorter.contains(m) {
                            let j = choose|j: int| 0 <= j < shorter.len() && shorter[j] == m;
                            assert(longer[j] == m);
                        }
                        assert(longer[i as int] == n);
                    }
                    assert(kept@.contains(m) <==> (earlier.contains(m) || (n != id && m == n))) by {
                        if kept@.contains(m) {
                            let j = choose|j: int| 0 <= j < kept@.len() && kept@[j] == m;
                            if j < earlier.len() {
                                assert(earlier[j] == m);
                            }
                        }
                        if earlier.contains(m) {
                            let j = choose|j: int| 0 <= j < earlier.len() && earlier[j] == m;
                            assert(kept@[j] == m);
                        }
                        if n != id {
                            assert(kept@[earlier.len() as int] == n);
                        }
                    }
                }
            }
            i = i + 1;
        }
        assert(before.take(i as int) == before);
        *list = kept;
    }
}

impl App {
    /// The terminals are consistent, and so is an open snippet dialog.
    pub open spec fn wf(&self) -> bool {
        &&& self.terminal.wf()
        &&& self.snippet_modal matches Some(modal) ==> modal.wf()
    }

    /// The number of the focused pane.
    pub open spec fn focus(&self) -> Option<PaneId> {
        match self.mux {
            Some(mux) => mux.focused,
            None => None,
        }
    }

    /// The focused pane.
    pub open spec fn focused_pane(&self) -> Option<Pane> {
        match self.mux {
            Some(mux) => match mux.focused_position() {
                Some(i) => Some(mux.panes@[i]),
                None => None,
            },
            None => None,
        }
    }

    /// The progress the outer terminal shows: that of the focused pane.
    pub open spec fn outer_progress(&self) -> ProgressState {
        match self.focused_pane() {
            Some(pane) => pane.shown_progress(),
            None => ProgressState::Clear,
        }
    }

    /// Whether the notes of the focused pane are on screen.
    pub open spec fn shows_scratchpad(&self) -> bool {
        self.view is Attached && self.scratchpad is Some && self.scratchpad_owner is Some
            && self.scratchpad_owner == self.focus()
    }

    /// Whether the terminal of the focused pane is on screen.
    pub open spec fn shows_terminal(&self) -> bool {
        self.view is Attached && self.terminal.shown() && self.terminal_owner is Some
            && self.terminal_owner == self.focus()
    }

    /// A program that shows the session list.
    pub fn new(mux: Option<MuxState>) -> (app: Self)
        ensures
            app.wf(),
            app.mux == mux,
            app.view == MainView::List,
            app.workspace_focus == WorkspaceFocus::Chat,
            !app.terminal_focused,
            !app.confirm_quit,
            !app.confirm_update_restart,
            !app.should_quit,
            app.should_resume is None,
            app.should_new_session is None,
            app.exit_dir is None,
            app.restart_after_update is None,
            app.installed_update_version is None,
            !app.background.any(),
            app.detail_pending is None,
            app.workspace_help is None,
            app.github_inspector is None,
            app.snippet_modal is None,
            app.update_notice is None,
            app.status_message is None,
            app.host_sequences@.len() == 0,
            app.scratchpad is None,
            app.scratchpad_owner is None,
            app.scratchpad_open@.len() == 0,
            app.terminal.entries@.len() == 0,
            app.terminal_owner is None,
            app.terminal_open@.len() == 0,
            app.pane_size == (0u16, 0u16),
            app.pane_origin == (0u16, 0u16),
    {
        App {
            mux,
            view: MainView::List,
            workspace_focus: WorkspaceFocus::Chat,
            terminal_focused: false,
            confirm_quit: false,
            confirm_update_restart: false,
            should_quit: false,
            should_resume: None,
            should_new_session: None,
            exit_dir: None,
            restart_after_update: None,
            installed_update_version: None,
            background: BackgroundWork {
                sessions: false,
                github: false,
                update_check: false,
                update_install: false,
                notifications: false,
                config: false,
            },
            detail_pending: None,
            workspace_help: None,
            github_inspector: None,
            snippet_modal: None,
            update_notice: None,
            status_message: None,
            host_sequences: Vec::new(),
            scratchpad: None,
            scratchpad_owner: None,
            scratchpad_open: Vec::new(),
            terminal: TerminalManager::new(),
            terminal_owner: None,
            terminal_open: Vec::new(),
            workspace_areas: WorkspaceAreas {
                chat: Rect { x: 0, y: 0, width: 0, height: 0 },
                scratchpad: None,
                terminal: None,
            },
            pane_size: (0, 0),
            pane_origin: (0, 0),
        }
    }

    /// The number of the focused pane.
    pub fn focused_id(&self) -> (id: Option<PaneId>)
        ensures
            id == self.focus(),
    {
        match &self.mux {
            Some(mux) => mux.focused,
            None => None,
        }
    }

    /// The user looked at the focused pane.
    pub fn acknowledge_focused_pane(&mut self)
        ensures
            acknowledged(old(self).mux, final(self).mux),
            *final(self) == (App { mux: final(self).mux, ..*old(self) }),
    {
        if let Some(mux) = &mut self.mux {
            if let Some(pane) = mux.focused_pane_mut() {
                pane.acknowledge_attention();
            }
        }
    }

    /// Tells the outer terminal the progress of the focused pane.
    pub fn sync_outer_progress(&mut self)
        ensures
            byte_views(final(self).host_sequences@) == byte_views(old(self).host_sequences@).push(
                report(old(self).outer_progress()),
            ),
            *final(self) == (App { host_sequences: final(self).host_sequences, ..*old(self) }),
    {
        let state = match &self.mux {
            Some(mux) => match mux.focused_pane() {
                Some(pane) => pane.effective_progress_state(),
                None => ProgressState::Clear,
            },
            None => ProgressState::Clear,
        };
        let sequence = progress_sequence_for_state(state);
        proof {
            lemma_byte_views_push(self.host_sequences@, sequence);
        }
        self.host_sequences.push(sequence);
    }

    /// Whether the notes of the focused pane are on screen.
    pub fn attached_scratchpad_visible(&self) -> (r: bool)
        ensures
            r == self.shows_scratchpad(),
    {
        let attached = match self.view {
            MainView::Attached(_) => true,
            MainView::List => false,
        };
        attached && self.scratchpad.is_some() && self.scratchpad_owner.is_some()
            && self.scratchpad_owner == self.focused_id()
    }

    /// Whether the terminal of the focused pane is on screen.
    pub fn attached_terminal_visible(&self) -> (r: bool)
        ensures
            r == self.shows_terminal(),
    {
        let attached = match self.view {
            MainView::Attached(_) => true,
            MainView::List => false,
        };
        attached && self.terminal.is_visible() && self.terminal_owner.is_some()
            && self.terminal_owner == self.focused_id()
    }

    /// Whether the user asked to leave: to quit, to resume a session, or to start one.
    pub open spec fn leaving(&self) -> bool {
        self.should_quit || self.should_resume is Some || self.should_new_session is Some
    }

    /// Whether an installed update is to take over now.
    pub open spec fn restart_due(&self) -> bool {
        self.restart_after_update is Some && self.installed_update_version is Some
    }

    /// Whether the user asked to leave.
    pub fn exit_requested(&self) -> (r: bool)
        ensures
            r == self.leaving(),
    {
        self.should_quit || self.should_resume.is_some() || self.should_new_session.is_some()
    }

    /// Whether an installed update is to take over now.
    pub fn update_restart_ready(&self) -> (r: bool)
        ensures
            r == self.restart_due(),
    {
        self.restart_after_update.is_some() && self.installed_update_version.is_some()
    }

    /// Gives up the restart into an update, because the user wants something else.
    pub fn cancel_update_restart_for_user_action(&mut self)
        ensures
            *final(self) == (App { restart_after_update: None, ..*old(self) }),
    {
        self.restart_after_update = None;
    }

    /// Gives up the restart into an update, because it failed.
    pub fn cancel_update_restart_after_failure(&mut self, message: String)
        ensures
            *final(self) == (App {
                restart_after_update: None,
                status_message: Some(message),
                ..*old(self)
            }),
    {
        self.restart_after_update = None;
        self.status_message = Some(message);
    }

    /// Whether any work goes on beside the screen.
    pub fn background_work_pending(&self) -> (r: bool)
        ensures
            r == self.background.any(),
    {
        let work = self.background;
        work.sessions || work.github || work.update_check || work.update_install
            || work.notifications || work.config
    }

    /// Whether some pane wants attention.
    pub open spec fn wants_attention(&self) -> bool {
        self.mux matches Some(mux) && exists|i: int|
            0 <= i < mux.panes@.len() && (#[trigger] mux.panes@[i]).marked()
    }

    /// Whether some pane wants attention.
    pub fn any_pane_needs_attention(&self) -> (r: bool)
        ensures
            r == self.wants_attention(),
    {
        if let Some(mux) = &self.mux {
            let mut i: usize = 0;
            while i < mux.panes.len()
                invariant
                    i <= mux.panes@.len(),
                    self.mux == Some(*mux),
                    forall|j: int| 0 <= j < i ==> !(#[trigger] mux.panes@[j]).marked(),
                decreases mux.panes@.len() - i,
            {
                if mux.panes[i].needs_attention() {
                    assert(mux.panes@[i as int].marked());
                    return true;
                }
                i = i + 1;
            }
        }
        false
    }

    /// The title of the focused pane, marked where it wants attention.
    pub fn focused_pane_title(&self) -> (title: Option<String>)
        ensures
            match self.focused_pane() {
                Some(pane) => title matches Some(t) && t@ == (if pane.marked() {
                    "? "@ + pane.title@
                } else {
                    pane.title@
                }),
                None => title is None,
            },
    {
        match &self.mux {
            Some(mux) => match mux.focused_pane() {
                Some(pane) => Some(pane.display_title()),
                None => None,
            },
            None => None,
        }
    }

    /// Goes back to the session list; every pane stays as it is.
    pub fn detach(&mut self)
        ensures
            *final(self) == (App { view: MainView::List, ..*old(self) }),
    {
        self.view = MainView::List;
    }

    /// Asks before ending the program while any session runs; without one it ends at once.
    pub fn request_quit_from_pane(&mut self)
        ensures
            ({
                let running = old(self).mux matches Some(mux) && exists|i: int|
                    0 <= i < mux.panes@.len() && (#[trigger] mux.panes@[i]).status
                        == PaneStatus::Running;
                *final(self) == (App {
                    confirm_quit: old(self).confirm_quit || running,
                    should_quit: old(self).should_quit || !running,
                    ..*old(self)
                })
            }),
    {
        let mut running = false;
        if let Some(mux) = &self.mux {
            let mut i: usize = 0;
            while i < mux.panes.len()
                invariant
                    i <= mux.panes@.len(),
                    self.mux == Some(*mux),
                    running == exists|j: int|
                        0 <= j < i && (#[trigger] mux.panes@[j]).status == PaneStatus::Running,
                decreases mux.panes@.len() - i,
            {
                if mux.panes[i].is_running() {
                    assert(mux.panes@[i as int].status == PaneStatus::Running);
                    running = true;
                }
                i = i + 1;
            }
        }
        if running {
            self.confirm_quit = true;
        } else {
            self.should_quit = true;
        }
    }
}

/// Looking at a pane takes its mark away, unless it waits for an answer, and changes no other pane and
/// nothing else of it.
pub proof fn law_looking_takes_the_mark_away(before: MuxState, after: Option<MuxState>, at: int, other: int)
    requires
        acknowledged(Some(before), after),
        before.focused_position() == Some(at),
        0 <= at < before.panes@.len(),
        0 <= other < before.panes@.len(),
    ensures
        after is Some,
        after->0.focused == before.focused,
        after->0.panes@.len() == before.panes@.len(),
        other != at ==> after->0.panes@[other] == before.panes@[other],
        after->0.panes@[at].marked() <==> before.panes@[at].waiting(),
        after->0.panes@[at].title == before.panes@[at].title && after->0.panes@[at].status
            == before.panes@[at].status && after->0.panes@[at].cycle.working
            == before.panes@[at].cycle.working,
{
}

/// The panels are shown with the pane that they belong to, and with no other.
pub proof fn law_panels_are_shown_with_their_pane(app: App)
    ensures
        app.shows_scratchpad() ==> app.view is Attached && app.scratchpad is Some
            && app.scratchpad_owner == app.focus() && app.focus() is Some,
        app.shows_terminal() ==> app.view is Attached && app.terminal.visible && app.terminal_owner
            == app.focus() && app.focus() is Some,
        app.view is Attached && app.scratchpad is Some && app.focus() is Some && app.scratchpad_owner
            == app.focus() ==> app.shows_scratchpad(),
{
}

/// Something is under way where any one of the works is, and nothing is where none is.
pub proof fn law_any_work_counts(work: BackgroundWork)
    ensures
        work.sessions ==> work.any(),
        work.github ==> work.any(),
        work.update_check ==> work.any(),
        work.update_install ==> work.any(),
        work.notifications ==> work.any(),
        work.config ==> work.any(),
        !work.sessions && !work.github && !work.update_check && !work.update_install
            && !work.notifications && !work.config ==> !work.any(),
{
}

/// The program is left for each of three reasons, and restarts only where an update was put in place and
/// a restart was asked for.
pub proof fn law_reasons_to_leave(app: App)
    ensures
        app.leaving() <==> app.should_quit || app.should_resume is Some || app.should_new_session is Some,
        app.restart_due() <==> app.restart_after_update is Some && app.installed_update_version is Some,
{
}

/// The outer terminal shows the progress of the focused pane, and none while that waits or where there
/// is none.
pub proof fn law_the_focused_progress_is_shown(app: App)
    ensures
        app.focused_pane() is None ==> app.outer_progress() == ProgressState::Clear,
        app.focused_pane() matches Some(pane) ==> app.outer_progress() == (if pane.pending_inputs@.len()
            > 0 {
            ProgressState::Clear
        } else {
            pane.cycle.progress
        }),
{
}

} // verus!
