//! The decisions of the program's main loop: when to paint, how long to wait, where panes lie, where
//! events go, and how the program is left or handed over to an updated copy of itself.

use crate::app::{acknowledged, App, MainView, WorkspaceAreas, WorkspaceFocus};
use crate::input::{Event, KeyEventKind, MouseEventKind, Rect};
use crate::mux::pane::{pane_viewport, PaneStatus};
use crate::mux::pty::{pty_size, PtySize};
use crate::mux::{MuxEvent, MuxState, PrefixState};
use crate::mux_input::{
    attached_event_effect, attention_noted, handle_attached_event, handle_mux_event,
    mux_event_effect, shows_attention, InputContext, MuxReaction, Step,
};
use crate::strings::{append_text, has_prefix, starts_with_text};
use crate::terminal_pane::{TerminalEntry, TerminalManager, TerminalPane};
use vstd::prelude::*;

verus! {

/// The most events that are applied between two looks at the screen.
pub const EVENT_BATCH: usize = 256;

/// Whether some pane still shows that its child is starting.
pub open spec fn starting_up(mux: Option<MuxState>) -> bool {
    mux matches Some(m) && exists|i: int|
        0 <= i < m.panes@.len() && (#[trigger] m.panes@[i]).status == PaneStatus::Running
            && !m.panes@[i].has_visible_output
}

/// Whether something on the screen moves by itself.
pub open spec fn animates(app: App) -> bool {
    starting_up(app.mux) || app.background.github || app.background.sessions
}

/// Whether something on the screen moves by itself: a pane that is starting, or a sign that
/// something is being loaded.
pub fn mux_animating(app: &App) -> (r: bool)
    ensures
        r == animates(*app),
{
    if let Some(mux) = &app.mux {
        let mut i: usize = 0;
        while i < mux.panes.len()
            invariant
                i <= mux.panes@.len(),
                app.mux == Some(*mux),
                forall|j: int|
                    0 <= j < i ==> !((#[trigger] mux.panes@[j]).status == PaneStatus::Running
                        && !mux.panes@[j].has_visible_output),
            decreases mux.panes@.len() - i,
        {
            if mux.panes[i].is_running() && mux.panes[i].is_blank() {
                assert(mux.panes@[i as int].status == PaneStatus::Running);
                return true;
            }
            i = i + 1;
        }
    }
    app.background.github || app.background.sessions
}

/// How many milliseconds to wait for an event: a tenth of a second while something moves, a quarter
/// while work goes on, and else five seconds, since events wake the program at once.
pub open spec fn wait_millis(app: App, animating: bool) -> u64 {
    if animating || app.shows_terminal() || app.detail_pending is Some {
        100
    } else if app.background.any() {
        250
    } else {
        5_000
    }
}

/// How many milliseconds to wait for an event.
pub fn mux_wait_timeout(app: &App, animating: bool) -> (millis: u64)
    ensures
        millis == wait_millis(*app, animating),
{
    if animating || app.attached_terminal_visible() || app.detail_pending.is_some() {
        100
    } else if app.background_work_pending() {
        250
    } else {
        5_000
    }
}

/// Whether to paint, `elapsed` milliseconds after the last time. With panes, what is shown never
/// gets older than the time to wait for an event.
pub fn mux_paint_due(app: &App, repaint: bool, elapsed: u64) -> (due: bool)
    ensures
        due == (repaint || (app.mux is Some && elapsed >= wait_millis(*app, animates(*app)))),
{
    repaint || (app.mux.is_some() && elapsed >= mux_wait_timeout(app, mux_animating(app)))
}

/// Whether the user asked to leave. What they ask for comes before a restart into an update.
pub fn prioritize_explicit_exit(app: &mut App) -> (requested: bool)
    ensures
        requested == old(app).leaving(),
        *final(app) == (if old(app).leaving() && old(app).restart_due() {
            App { restart_after_update: None, ..*old(app) }
        } else {
            *old(app)
        }),
{
    let requested = app.exit_requested();
    if requested && app.update_restart_ready() {
        app.cancel_update_restart_for_user_action();
    }
    requested
}

/// Whether leaving has to wait until an update is installed.
pub fn exit_waits_for_update(app: &App) -> (r: bool)
    ensures
        r == (app.background.update_install && app.leaving()),
{
    app.background.update_install && app.exit_requested()
}

/// Whether events go to the chat of an attached pane, with nothing over it.
pub open spec fn chat_in_front(app: App) -> bool {
    &&& app.view is Attached
    &&& app.workspace_focus == WorkspaceFocus::Chat
    &&& !app.confirm_quit
    &&& !app.confirm_update_restart
    &&& app.github_inspector is None
    &&& app.snippet_modal is None
    &&& app.workspace_help is None
    &&& app.terminal_focused
}

/// Whether an event of the terminal changes what is shown before the child answers. Typing and
/// pasting into a chat do not: the child echoes them.
pub open spec fn changes_screen(app: App, event: Event) -> bool {
    if !chat_in_front(app) || app.mux is None {
        true
    } else {
        match app.focused_pane() {
            Some(pane) => if pane.status == PaneStatus::Running && !pane.marked() {
                match event {
                    Event::Paste(_) => false,
                    Event::Key(key) => key.kind == KeyEventKind::Press && (app.update_notice is Some
                        || crate::mux_input::list_key_taken(app, key)),
                    _ => true,
                }
            } else {
                true
            },
            None => true,
        }
    }
}

/// Whether an event of the terminal changes what is shown before the child answers.
pub fn terminal_event_needs_repaint(app: &App, event: &Event) -> (r: bool)
    ensures
        r == changes_screen(*app, *event),
{
    let attached = match app.view {
        MainView::Attached(_) => true,
        MainView::List => false,
    };
    if !attached || app.workspace_focus != WorkspaceFocus::Chat || app.confirm_quit
        || app.confirm_update_restart || app.github_inspector.is_some()
        || app.snippet_modal.is_some() || app.workspace_help.is_some() || !app.terminal_focused {
        return true;
    }
    match &app.mux {
        Some(mux) => {
            let ready = match mux.focused_pane() {
                Some(pane) => pane.is_running() && !pane.needs_attention(),
                None => false,
            };
            if !ready {
                return true;
            }
            match event {
                Event::Paste(_) => false,
                Event::Key(key) => key.kind == KeyEventKind::Press && (app.update_notice.is_some()
                    || mux.prefix_state != PrefixState::Idle || mux.prefix.matches(key)),
                _ => true,
            }
        },
        None => true,
    }
}

/// The title of the outer terminal while no pane gives it one.
pub open spec fn program_title() -> Seq<char> {
    "Copilot Session Manager"@
}

/// The title of the outer terminal: that of the attached pane, or the program's own. It is marked,
/// once, where any pane wants attention.
pub open spec fn outer_title(app: App) -> Seq<char> {
    let title = match app.view {
        MainView::Attached(_) => match app.focused_pane() {
            Some(pane) => if pane.marked() {
                "? "@ + pane.title@
            } else {
                pane.title@
            },
            None => program_title(),
        },
        MainView::List => program_title(),
    };
    if app.wants_attention() && !has_prefix(title, "? "@) {
        "? "@ + title
    } else {
        title
    }
}

/// The title of the outer terminal.
pub fn desired_terminal_title(app: &App) -> (title: String)
    ensures
        title@ == outer_title(*app),
{
    let title = match app.view {
        MainView::Attached(_) => match app.focused_pane_title() {
            Some(title) => title,
            None => "Copilot Session Manager".to_owned(),
        },
        MainView::List => "Copilot Session Manager".to_owned(),
    };
    if app.any_pane_needs_attention() && !starts_with_text(title.as_str(), "? ") {
        let mut marked = "? ".to_owned();
        append_text(&mut marked, title.as_str());
        marked
    } else {
        title
    }
}

/// What became of an event of the terminal.
pub enum Routed {
    Done,
    /// It went to the attached workspace.
    Attached(Step),
    /// It is for the session list.
    List(Event),
}

/// What an event of the terminal does. Looking at the program, typing, pasting and clicking show that
/// the user is there; an attached pane then counts as seen, but one that is only listed does not.
pub open spec fn terminal_event_effect(
    before: App,
    event: Event,
    context: InputContext,
    after: App,
    routed: Routed,
) -> bool {
    match event {
        Event::FocusGained => {
            &&& routed is Done
            &&& if before.view is Attached {
                acknowledged(before.mux, after.mux)
            } else {
                after.mux == before.mux
            }
            &&& after == (App { terminal_focused: true, mux: after.mux, ..before })
        },
        Event::FocusLost => routed is Done && after == (App { terminal_focused: false, ..before }),
        _ => match before.view {
            MainView::Attached(_) => {
                &&& routed is Attached
                &&& exists|noted: App|
                    attention_noted(before, event, noted) && #[trigger] attached_event_effect(
                        noted,
                        event,
                        context,
                        after,
                        routed->Attached_0,
                    )
            },
            MainView::List => {
                &&& routed == Routed::List(event)
                &&& after == (App {
                    terminal_focused: before.terminal_focused || shows_attention(event),
                    ..before
                })
            },
        },
    }
}

/// Applies an event of the terminal.
pub fn apply_terminal_event(app: &mut App, event: Event, context: &InputContext) -> (routed: Routed)
    requires
        old(app).wf(),
    ensures
        final(app).wf(),
        terminal_event_effect(*old(app), event, *context, *final(app), routed),
{
    let attached = match app.view {
        MainView::Attached(_) => true,
        MainView::List => false,
    };
    match &event {
        Event::FocusGained => {
            app.terminal_focused = true;
            if attached {
                app.acknowledge_focused_pane();
            }
            return Routed::Done;
        },
        Event::FocusLost => {
            app.terminal_focused = false;
            return Routed::Done;
        },
        _ => {},
    }
    if attached {
        return Routed::Attached(handle_attached_event(app, event, context));
    }
    let attended = match &event {
        Event::Key(key) => key.kind == KeyEventKind::Press,
        Event::Paste(_) => true,
        Event::Mouse(mouse) => match mouse.kind {
            MouseEventKind::Down(_) => true,
            _ => false,
        },
        _ => false,
    };
    if attended {
        app.terminal_focused = true;
    }
    Routed::List(event)
}

/// What waiting for an event came to.
#[derive(Clone, Copy, Debug, PartialEq, Eq, Structural)]
pub enum Waited {
    Event,
    TimedOut,
    /// No event can come any more.
    Disconnected,
}

/// Whether to paint where no event came, which is a reason to paint in any case. Without a source of
/// events the program ends.
pub fn after_wait(app: &mut App, waited: Waited) -> (repaint: Option<bool>)
    ensures
        repaint == (if waited == Waited::Event {
            None
        } else {
            Some(true)
        }),
        *final(app) == (App {
            should_quit: old(app).should_quit || waited == Waited::Disconnected,
            ..*old(app)
        }),
{
    match waited {
        Waited::Event => None,
        Waited::TimedOut => Some(true),
        Waited::Disconnected => {
            app.should_quit = true;
            Some(true)
        },
    }
}

/// What an event came to, beside the state.
pub enum Pumped {
    Terminal { repaint: bool, routed: Routed },
    Pane(MuxReaction),
}

/// What an event does, from wherever it came. Whether an event of the terminal asks for a new picture
/// is decided before it is applied.
pub open spec fn pumped_effect(
    before: App,
    event: MuxEvent,
    context: InputContext,
    after: App,
    pumped: Pumped,
) -> bool {
    match event {
        MuxEvent::Term(event) => pumped matches Pumped::Terminal { repaint, routed } && repaint
            == changes_screen(before, event) && terminal_event_effect(
            before,
            event,
            context,
            after,
            routed,
        ),
        _ => pumped matches Pumped::Pane(reaction) && mux_event_effect(
            before,
            event,
            after,
            reaction,
        ),
    }
}

/// Applies an event, from wherever it came.
pub fn pump_event(app: &mut App, event: MuxEvent, context: &InputContext) -> (pumped: Pumped)
    requires
        old(app).wf(),
    ensures
        final(app).wf(),
        pumped_effect(*old(app), event, *context, *final(app), pumped),
{
    match event {
        MuxEvent::Term(event) => {
            let repaint = terminal_event_needs_repaint(app, &event);
            let routed = apply_terminal_event(app, event, context);
            Pumped::Terminal { repaint, routed }
        },
        other => Pumped::Pane(handle_mux_event(app, other)),
    }
}

/// How many lines the lists can show.
#[derive(Clone, Copy, Debug, PartialEq, Eq, Structural)]
pub struct LayoutMetrics {
    pub visible_rows: usize,
    pub project_visible_rows: usize,
}

/// A difference, or nothing where it would be less.
pub open spec fn at_least_zero(n: int) -> int {
    if n < 0 {
        0
    } else {
        n
    }
}

/// The part of the screen, in percent, that the list of projects takes: as much as its lines need,
/// for at most twenty of them, but no less than a quarter and no more than four fifths.
pub open spec fn popup_percent(height: u16, projects: usize) -> int {
    let lines = if projects > 14 {
        20
    } else {
        projects + 6
    };
    if height == 0 || lines * 100 / height as int > 80 {
        80
    } else if lines * 100 / (height as int) < 25 {
        25
    } else {
        lines * 100 / height as int
    }
}

/// How many lines the lists can show on a screen of some height. Six lines round the session list and
/// the group headers are not for sessions, and a session takes two lines unless one project is
/// shown; four lines of the list of projects are not for projects.
pub fn update_layout_metrics(
    height: u16,
    filtered: bool,
    header_lines: usize,
    projects: usize,
) -> (metrics: LayoutMetrics)
    ensures
        metrics.visible_rows == at_least_zero(at_least_zero(height - 6) - header_lines) / (
        if filtered {
            1int
        } else {
            2int
        }),
        metrics.project_visible_rows == at_least_zero(
            height as int * popup_percent(height, projects) / 100 - 4,
        ),
{
    let inner: usize = (height as usize).saturating_sub(6).saturating_sub(header_lines);
    let visible_rows: usize = if filtered {
        inner
    } else {
        inner / 2
    };
    let lines: u32 = if projects > 14 {
        20
    } else {
        projects as u32 + 6
    };
    let percent: u32 = if height == 0 {
        80
    } else {
        let wanted: u32 = lines * 100 / height as u32;
        if wanted > 80 {
            80
        } else if wanted < 25 {
            25
        } else {
            wanted
        }
    };
    assert(height as int * percent as int <= 65535 * 80) by (nonlinear_arith)
        requires
            height <= 65535,
            percent <= 80,
    ;
    assert(0 <= height as int * percent as int) by (nonlinear_arith);
    let popup: u32 = height as u32 * percent / 100;
    LayoutMetrics { visible_rows, project_visible_rows: (popup as usize).saturating_sub(4) }
}

/// What lies inside the border of an area; nothing where there is no room for one.
pub open spec fn inside_border(area: Rect) -> Rect {
    if area.width < 2 || area.height < 2 {
        Rect { x: 0, y: 0, width: 0, height: 0 }
    } else {
        Rect {
            x: Rect::edge(area.x, 1) as u16,
            y: Rect::edge(area.y, 1) as u16,
            width: (area.width - 2) as u16,
            height: (area.height - 2) as u16,
        }
    }
}

fn inner_area(area: Rect) -> (inner: Rect)
    ensures
        inner == inside_border(area),
{
    if area.width < 2 || area.height < 2 {
        Rect { x: 0, y: 0, width: 0, height: 0 }
    } else {
        Rect {
            x: area.x.saturating_add(1),
            y: area.y.saturating_add(1),
            width: area.width - 2,
            height: area.height - 2,
        }
    }
}

/// Where the panes of a program lie, and how large they are: inside the chat of the attached
/// workspace, or over all of the screen but its last line.
pub open spec fn pane_place(width: u16, height: u16, areas: Option<WorkspaceAreas>) -> (
    (u16, u16),
    (u16, u16),
) {
    match areas {
        Some(areas) => {
            let chat = inside_border(areas.chat);
            ((chat.x, chat.y), (one_at_least(chat.height as int), one_at_least(chat.width as int)))
        },
        None => (
            (0, 0),
            (one_at_least(height - 1), one_at_least(width as int)),
        ),
    }
}

/// A number of cells that is not zero.
pub open spec fn one_at_least(n: int) -> u16 {
    if n < 1 {
        1
    } else {
        n as u16
    }
}

/// The multiplexer with its panes at a place and of a size, each where its child took that size.
pub open spec fn panes_placed(
    before: Option<MuxState>,
    origin: (u16, u16),
    size: (u16, u16),
    taken: Seq<bool>,
    after: Option<MuxState>,
) -> bool {
    match before {
        Some(mux) => {
            &&& after is Some
            &&& after->0.panes@ == mux.panes_moved(
                pane_viewport(origin.0, origin.1, size.0, size.1),
                taken,
            )
            &&& after->0 == (MuxState { panes: after->0.panes, ..mux })
        },
        None => after is None,
    }
}

/// The terminals after the active one was moved into an area with a border, where its process took
/// the size.
pub open spec fn terminal_placed(
    before: TerminalManager,
    area: Rect,
    taken: bool,
    after: TerminalManager,
) -> bool {
    match before.active_position() {
        Some(i) => {
            let moved = pane_viewport(
                Rect::edge(area.x, 1) as u16,
                Rect::edge(area.y, 1) as u16,
                one_at_least(area.height - 2),
                one_at_least(area.width - 2),
            );
            let was = before.entries@[i].pane;
            &&& after.entries@ == before.entries@.update(
                i,
                TerminalEntry {
                    session_id: before.entries@[i].session_id,
                    pane: TerminalPane {
                        viewport: if taken {
                            moved
                        } else {
                            was.viewport
                        },
                        ..was
                    },
                },
            )
            &&& after == (TerminalManager { entries: after.entries, ..before })
        },
        None => after == before,
    }
}

/// The sizes that the children must get for the workspace to fit a screen.
#[derive(Clone, Copy, Debug)]
pub struct ChildSizes {
    /// What the process of the shown terminal gets.
    pub terminal: Option<PtySize>,
    /// What the child of every pane gets, where the panes are moved.
    pub panes: Option<PtySize>,
}

/// How the children took their sizes.
#[derive(Debug)]
pub struct ChildAnswers {
    /// The answer of the process of the shown terminal.
    pub terminal: Result<(), String>,
    /// For each pane whether its child took the size.
    pub panes: Vec<bool>,
}

impl ChildAnswers {
    /// Whether there is an answer for each pane.
    pub open spec fn fits(self, mux: Option<MuxState>) -> bool {
        mux matches Some(state) ==> self.panes@.len() == state.panes@.len()
    }
}

/// Whether the panes get another place or size on a screen.
pub open spec fn panes_move(
    app: App,
    width: u16,
    height: u16,
    areas: Option<WorkspaceAreas>,
) -> bool {
    let (origin, size) = pane_place(width, height, areas);
    (areas is Some || app.mux is Some) && (app.pane_size != size || app.pane_origin != origin)
}

/// The area of the terminal that is shown, if one is.
pub open spec fn shown_terminal(app: App, areas: Option<WorkspaceAreas>) -> Option<Rect> {
    match areas {
        Some(parts) => if app.terminal.active_position() is Some {
            parts.terminal
        } else {
            None
        },
        None => None,
    }
}

/// What fitting the workspace to a screen changes: the terminal goes into its area, and the panes are
/// moved where their place or size is another than before; a child that does not take its size keeps
/// its pane where it was, and that of the terminal is reported. Without panes and outside the
/// workspace nothing is kept of the screen's size.
pub open spec fn placed_effect(
    before: App,
    width: u16,
    height: u16,
    areas: Option<WorkspaceAreas>,
    answers: ChildAnswers,
    after: App,
) -> bool {
    let (origin, size) = pane_place(width, height, areas);
    let moves = panes_move(before, width, height, areas);
    let shown = shown_terminal(before, areas);
    &&& match shown {
        Some(area) => terminal_placed(
            before.terminal,
            area,
            answers.terminal is Ok,
            after.terminal,
        ),
        None => after.terminal == before.terminal,
    }
    &&& if moves {
        panes_placed(before.mux, origin, size, answers.panes@, after.mux)
    } else {
        after.mux == before.mux
    }
    &&& match (shown, answers.terminal) {
        (Some(_), Err(error)) => after.status_message matches Some(message) && message@
            == "Terminal resize failed: "@ + error@,
        _ => after.status_message == before.status_message,
    }
    &&& after == (App {
        terminal: after.terminal,
        mux: after.mux,
        status_message: after.status_message,
        workspace_areas: match areas {
            Some(a) => a,
            None => before.workspace_areas,
        },
        pane_size: if moves {
            size
        } else {
            before.pane_size
        },
        pane_origin: if moves {
            origin
        } else {
            before.pane_origin
        },
        ..before
    })
}

/// The sizes that the children must get for the workspace to fit a screen of some width and height;
/// `areas` are those of its parts while a pane is attached.
pub fn child_sizes(app: &App, width: u16, height: u16, areas: Option<WorkspaceAreas>) -> (
    sizes: ChildSizes)
    requires
        app.wf(),
    ensures
        match shown_terminal(*app, areas) {
            Some(area) => sizes.terminal == Some(
                (PtySize {
                    rows: one_at_least(area.height - 2),
                    cols: one_at_least(area.width - 2),
                }),
            ),
            None => sizes.terminal is None,
        },
        if app.mux is Some && panes_move(*app, width, height, areas) {
            let size = pane_place(width, height, areas).1;
            sizes.panes == Some((PtySize { rows: size.0, cols: size.1 }))
        } else {
            sizes.panes is None
        },
{
    proof {
        app.terminal.lemma_active_position();
    }
    let terminal = match areas {
        Some(parts) => match (parts.terminal, app.terminal.active()) {
            (Some(area), Some(_)) => Some(
                pty_size(area.height.saturating_sub(2), area.width.saturating_sub(2)),
            ),
            _ => None,
        },
        None => None,
    };
    let (origin, size) = chat_place(width, height, areas);
    let panes = if app.mux.is_some() && (app.pane_size.0 != size.0 || app.pane_size.1 != size.1
        || app.pane_origin.0 != origin.0 || app.pane_origin.1 != origin.1) {
        Some(pty_size(size.0, size.1))
    } else {
        None
    };
    ChildSizes { terminal, panes }
}

fn chat_place(width: u16, height: u16, areas: Option<WorkspaceAreas>) -> (place: (
    (u16, u16),
    (u16, u16),
))
    ensures
        place == pane_place(width, height, areas),
{
    match areas {
        Some(parts) => {
            let chat = inner_area(parts.chat);
            ((chat.x, chat.y), (some_cells(chat.height), some_cells(chat.width)))
        },
        None => ((0, 0), (some_cells(height.saturating_sub(1)), some_cells(width))),
    }
}

/// Moves the shown terminal into its area, where its process took the size.
fn place_terminal(terminal: &mut TerminalManager, area: Rect, resized: Result<(), String>) -> (
    result: Result<(), String>)
    requires
        old(terminal).wf(),
    ensures
        final(terminal).wf(),
        terminal_placed(*old(terminal), area, resized is Ok, *final(terminal)),
        result == if old(terminal).active_position() is Some {
            resized
        } else {
            Ok(())
        },
{
    proof {
        terminal.lemma_active_position();
    }
    match terminal.active_mut() {
        Some(pane) => pane.resize(
            area.x.saturating_add(1),
            area.y.saturating_add(1),
            some_cells(area.height.saturating_sub(2)),
            some_cells(area.width.saturating_sub(2)),
            resized,
        ),
        None => Ok(()),
    }
}

fn place_panes(app: &mut App, origin: (u16, u16), size: (u16, u16), taken: &Vec<bool>)
    requires
        old(app).mux matches Some(state) ==> taken@.len() == state.panes@.len(),
    ensures
        ({
            let moves = old(app).pane_size != size || old(app).pane_origin != origin;
            &&& if moves {
                panes_placed(old(app).mux, origin, size, taken@, final(app).mux)
            } else {
                final(app).mux == old(app).mux
            }
            &&& *final(app) == (App {
                mux: final(app).mux,
                pane_size: size,
                pane_origin: origin,
                ..*old(app)
            })
        }),
{
    if app.pane_size.0 != size.0 || app.pane_size.1 != size.1 || app.pane_origin.0 != origin.0
        || app.pane_origin.1 != origin.1 {
        app.pane_size = size;
        app.pane_origin = origin;
        if let Some(mux) = &mut app.mux {
            mux.resize_all_at(origin.0, origin.1, size.0, size.1, taken);
        }
    }
}

fn some_cells(n: u16) -> (cells: u16)
    ensures
        cells == one_at_least(n as int),
{
    if n > 0 {
        n
    } else {
        1
    }
}

/// Fits the workspace to a screen of some width and height; `areas` are those of its parts while a
/// pane is attached, and `answers` say how the children took the sizes of `child_sizes`.
pub fn place_workspace(
    app: &mut App,
    width: u16,
    height: u16,
    areas: Option<WorkspaceAreas>,
    answers: ChildAnswers,
)
    requires
        old(app).wf(),
        answers.fits(old(app).mux),
    ensures
        final(app).wf(),
        placed_effect(*old(app), width, height, areas, answers, *final(app)),
{
    let (origin, size) = chat_place(width, height, areas);
    match areas {
        Some(parts) => {
            app.workspace_areas = parts;
            if let Some(area) = parts.terminal {
                match place_terminal(&mut app.terminal, area, answers.terminal) {
                    Ok(_) => {},
                    Err(error) => {
                        app.status_message = Some(terminal_resize_failure(&error));
                    },
                }
            }
            place_panes(app, origin, size, &answers.panes);
        },
        None => {
            if app.mux.is_some() {
                place_panes(app, origin, size, &answers.panes);
            }
        },
    }
}

/// What is said where the process of a terminal did not take its size.
pub fn terminal_resize_failure(error: &str) -> (message: String)
    ensures
        message@ == "Terminal resize failed: "@ + error@,
{
    let mut message = "Terminal resize failed: ".to_owned();
    append_text(&mut message, error);
    message
}

/// How a round of the loop ends.
#[derive(Clone, Copy, Debug, PartialEq, Eq, Structural)]
pub enum LoopStep {
    /// The loop goes on.
    Continue,
    /// The restart into an update waits, because something is being edited.
    DeferRestart,
    /// An updated copy of the program is to take over.
    Restart,
    Quit,
    /// A session is to be run in the foreground.
    Leave,
}

/// What is said while leaving waits for an update.
pub open spec fn update_first() -> Seq<char> {
    "Finishing the update before leaving; running sessions stay open..."@
}

/// How a round of the loop ends. An update that is being installed comes first, then what the user
/// asked for, and a restart into the update last.
pub open spec fn loop_effect(
    before: App,
    editing: bool,
    notifying: bool,
    after: App,
    step: LoopStep,
) -> bool {
    if before.background.update_install && before.leaving() {
        &&& step == LoopStep::Continue
        &&& after.status_message matches Some(message) && message@ == update_first()
        &&& after == (App { status_message: after.status_message, ..before })
    } else {
        &&& step == (if !before.leaving() && !before.restart_due() {
            LoopStep::Continue
        } else if !before.leaving() && editing {
            LoopStep::DeferRestart
        } else if notifying {
            LoopStep::Continue
        } else if !before.leaving() {
            LoopStep::Restart
        } else if before.should_quit {
            LoopStep::Quit
        } else {
            LoopStep::Leave
        })
        &&& after == (if before.leaving() && before.restart_due() {
            App { restart_after_update: None, ..before }
        } else {
            before
        })
    }
}

/// How a round of the loop ends. `editing` says whether something is being edited that a restart
/// would lose, and `notifying` whether notifications are still to be sent.
pub fn loop_step(app: &mut App, editing: bool, notifying: bool) -> (step: LoopStep)
    ensures
        loop_effect(*old(app), editing, notifying, *final(app), step),
{
    if exit_waits_for_update(app) {
        app.status_message = Some(
            "Finishing the update before leaving; running sessions stay open...".to_owned(),
        );
        return LoopStep::Continue;
    }
    let explicit = prioritize_explicit_exit(app);
    if !explicit && app.update_restart_ready() && editing {
        return LoopStep::DeferRestart;
    }
    let leaving = explicit || app.update_restart_ready();
    if leaving && notifying {
        return LoopStep::Continue;
    }
    if app.update_restart_ready() {
        return LoopStep::Restart;
    }
    if app.should_quit {
        return LoopStep::Quit;
    }
    if app.should_resume.is_some() || app.should_new_session.is_some() {
        return LoopStep::Leave;
    }
    LoopStep::Continue
}

/// The directory a program is left in: the one that was chosen, or else that of the focused pane.
pub open spec fn left_in(before: Option<String>, mux: Option<MuxState>, after: Option<String>) -> bool {
    match before {
        Some(_) => after == before,
        None => match mux {
            Some(m) => match m.focused_position() {
                Some(i) => after == Some(m.panes@[i].cwd),
                None => after is None,
            },
            None => after is None,
        },
    }
}

fn note_exit_directory(app: &mut App)
    ensures
        left_in(old(app).exit_dir, old(app).mux, final(app).exit_dir),
        *final(app) == (App { exit_dir: final(app).exit_dir, ..*old(app) }),
{
    if app.exit_dir.is_none() {
        app.exit_dir = match &app.mux {
            Some(mux) => mux.focused_cwd(),
            None => None,
        };
    }
}

/// What quitting comes to, where the sessions were told to end and did or did not. With a session
/// that did not end, the program goes back to its list and says so.
pub open spec fn quit_effect(before: App, stopped: Result<(), String>, after: App) -> bool {
    &&& left_in(before.exit_dir, before.mux, after.exit_dir)
    &&& match stopped {
        Ok(_) => {
            &&& match before.mux {
                Some(mux) => {
                    &&& after.mux is Some
                    &&& after.mux->0.panes@.len() == 0
                    &&& after.mux->0 == (MuxState {
                        panes: after.mux->0.panes,
                        focused: None,
                        ..mux
                    })
                },
                None => after.mux is None,
            }
            &&& after == (App { exit_dir: after.exit_dir, mux: after.mux, ..before })
        },
        Err(error) => {
            &&& after.status_message matches Some(message) && message@ == "Cannot quit yet: "@
                + error@
            &&& after == (App {
                exit_dir: after.exit_dir,
                should_quit: false,
                view: MainView::List,
                status_message: after.status_message,
                ..before
            })
        },
    }
}

/// Ends the program, where its sessions ended.
pub fn finish_quit(app: &mut App, stopped: &Result<(), String>) -> (quits: bool)
    ensures
        quits == (*stopped is Ok),
        quit_effect(*old(app), *stopped, *final(app)),
{
    note_exit_directory(app);
    match stopped {
        Ok(_) => {
            if let Some(mux) = &mut app.mux {
                mux.shutdown();
            }
            true
        },
        Err(error) => {
            app.should_quit = false;
            app.detach();
            let mut message = "Cannot quit yet: ".to_owned();
            append_text(&mut message, error.as_str());
            app.status_message = Some(message);
            false
        },
    }
}

/// What is still to be done when the loop has ended.
#[derive(Clone, Copy, Debug, PartialEq, Eq, Structural)]
pub struct LastWork {
    /// The notes are to be saved.
    pub save_notes: bool,
    /// Sessions are to be ended.
    pub stop_panes: bool,
}

/// What is still to be done when the loop has ended. The notes were saved already where an updated
/// copy takes over, and the directory of the focused pane is noted before its pane goes.
pub fn last_work(app: &mut App) -> (work: LastWork)
    ensures
        work.save_notes == (old(app).restart_after_update is None && old(app).scratchpad is Some),
        work.stop_panes == (old(app).mux matches Some(mux) && mux.panes@.len() > 0),
        left_in(old(app).exit_dir, old(app).mux, final(app).exit_dir),
        *final(app) == (App { exit_dir: final(app).exit_dir, ..*old(app) }),
{
    note_exit_directory(app);
    LastWork {
        save_notes: app.restart_after_update.is_none() && app.scratchpad.is_some(),
        stop_panes: match &app.mux {
            Some(mux) => mux.panes.len() > 0,
            None => false,
        },
    }
}

/// What the user asks for is never overtaken by a restart: once they asked to leave, the restart is
/// given up, and the program leaves as soon as nothing is installed and no notification is pending.
pub proof fn law_user_comes_before_the_update(
    before: App,
    editing: bool,
    notifying: bool,
    after: App,
    step: LoopStep,
)
    requires
        before.leaving(),
        loop_effect(before, editing, notifying, after, step),
    ensures
        step != LoopStep::Restart && step != LoopStep::DeferRestart,
        !before.background.update_install ==> !after.restart_due(),
        !before.background.update_install && !notifying ==> step == LoopStep::Quit || step
            == LoopStep::Leave,
        after.should_quit == before.should_quit,
        after.should_resume == before.should_resume,
        after.should_new_session == before.should_new_session,
{
}

/// While an update is being installed the program is not left, whatever is asked for.
pub proof fn law_installation_is_finished_first(
    before: App,
    editing: bool,
    notifying: bool,
    after: App,
    step: LoopStep,
)
    requires
        before.background.update_install,
        loop_effect(before, editing, notifying, after, step),
    ensures
        step != LoopStep::Quit && step != LoopStep::Leave,
{
}

/// Where the user is needed is always to be seen in the title of the outer terminal, and a title
/// is marked but once.
pub proof fn law_title_tells_of_attention(app: App)
    ensures
        app.wants_attention() ==> has_prefix(outer_title(app), "? "@),
        app.view is List ==> (outer_title(app) == "? "@ + program_title() <==>
            app.wants_attention()),
        app.focused_pane() matches Some(pane) ==> app.view is Attached ==> (outer_title(app)
            == pane.title@ || outer_title(app) == "? "@ + pane.title@),
{
    reveal_strlit("? ");
    reveal_strlit("Copilot Session Manager");
    let title = program_title();
    assert(("? "@ + title).len() != title.len());
    assert(!has_prefix(title, "? "@)) by {
        assert(title[0] == 'C');
        assert("? "@[0] == '?');
        if has_prefix(title, "? "@) {
            assert(title.take(2)[0] == title[0]);
        }
    }
    assert(("? "@ + title).take(2) =~= "? "@);
    if let Some(pane) = app.focused_pane() {
        assert(("? "@ + pane.title@).take(2) =~= "? "@);
    }
}

/// How long the program sleeps: a tenth of a second while something moves on the screen, a quarter while
/// something is under way behind it, and else five seconds.
pub proof fn law_the_program_sleeps_as_long_as_it_may(app: App, animating: bool)
    ensures
        ({
            let moving = animating || app.shows_terminal() || app.detail_pending is Some;
            &&& wait_millis(app, animating) == 100 <==> moving
            &&& wait_millis(app, animating) == 250 <==> !moving && app.background.any()
            &&& wait_millis(app, animating) == 5000 <==> !moving && !app.background.any()
        }),
{
}

/// The outer title is that of the focused pane while it is shown and nothing asks for attention, and
/// that of the program in the list.
pub proof fn law_the_title_is_that_of_the_pane(app: App)
    requires
        !app.wants_attention(),
    ensures
        app.view is List ==> outer_title(app) == "Copilot Session Manager"@,
        app.focused_pane() matches Some(pane) ==> app.view is Attached ==> !pane.marked()
            ==> outer_title(app) == pane.title@,
{
}

/// How the loop goes on. Nothing ends it while an update is put in place or a notice is on its way; a
/// restart gives way to the user who leaves, and to an editor that is open.
pub proof fn law_the_loop_ends_in_order(
    before: App,
    editing: bool,
    notifying: bool,
    after: App,
    step: LoopStep,
)
    requires
        loop_effect(before, editing, notifying, after, step),
    ensures
        ({
            let held = before.background.update_install && before.leaving();
            &&& step == LoopStep::Quit <==> !held && !notifying && before.leaving()
                && before.should_quit
            &&& step == LoopStep::Leave <==> !held && !notifying && before.leaving()
                && !before.should_quit
            &&& step == LoopStep::Restart <==> !notifying && !before.leaving() && before.restart_due()
                && !editing
            &&& step == LoopStep::DeferRestart <==> !before.leaving() && before.restart_due() && editing
            &&& after.mux == before.mux && after.should_quit == before.should_quit
        }),
{
}

/// Quitting ends every pane or none: where one could not be ended, all stay, and the list is shown.
pub proof fn law_quitting_ends_all_panes_or_none(before: App, stopped: Result<(), String>, after: App)
    requires
        quit_effect(before, stopped, after),
    ensures
        after.mux matches Some(mux) ==> stopped is Ok ==> mux.panes@.len() == 0 && mux.focused is None,
        stopped is Err ==> after.mux == before.mux && !after.should_quit && after.view == MainView::List,
        before.focused_pane() matches Some(pane) ==> before.exit_dir is None ==> after.exit_dir == Some(
            pane.cwd,
        ),
        before.exit_dir is Some ==> after.exit_dir == before.exit_dir,
{
}

/// What lies inside a border is the area without its outermost cells.
pub proof fn law_a_border_is_one_cell_wide(area: Rect, column: u16, row: u16)
    requires
        area.x + area.width < u16::MAX,
        area.y + area.height < u16::MAX,
        area.width >= 2,
        area.height >= 2,
    ensures
        inside_border(area).holds(column, row) <==> area.x < column < area.x + area.width - 1 && area.y
            < row < area.y + area.height - 1,
{
}

/// A popup takes a quarter of the screen at least and four fifths at most, and never less for more
/// projects.
pub proof fn law_popups_grow_with_their_lines(height: u16, few: usize, many: usize)
    requires
        few <= many,
    ensures
        25 <= popup_percent(height, few) <= 80,
        popup_percent(height, few) <= popup_percent(height, many),
{
    if height > 0 {
        let a: int = if few > 14 {
            20
        } else {
            few + 6
        };
        let b: int = if many > 14 {
            20
        } else {
            many + 6
        };
        let h = height as int;
        assert(a * 100 / h <= b * 100 / h) by (nonlinear_arith)
            requires
                a <= b,
                h > 0,
        ;
    }
}

/// The panes take the whole screen but for the last row, or the inside of their part of the workspace;
/// and there is always a cell to draw in.
pub proof fn law_panes_fill_their_place(width: u16, height: u16, areas: Option<WorkspaceAreas>)
    ensures
        ({
            let (origin, size) = pane_place(width, height, areas);
            &&& size.0 >= 1 && size.1 >= 1
            &&& areas is None ==> origin == (0u16, 0u16) && (height >= 2 ==> size.0 == height - 1) && (
            width >= 1 ==> size.1 == width)
            &&& areas matches Some(parts) ==> parts.chat.width > 2 && parts.chat.height > 2
                && parts.chat.x < u16::MAX && parts.chat.y < u16::MAX ==> origin == (
                (parts.chat.x + 1) as u16,
                (parts.chat.y + 1) as u16,
            ) && size.0 == parts.chat.height - 2 && size.1 == parts.chat.width - 2
        }),
{
}

/// The focus of the terminal is noted as it is told.
pub proof fn law_focus_is_noted(before: App, context: InputContext, after: App, routed: Routed)
    ensures
        terminal_event_effect(before, Event::FocusGained, context, after, routed)
            ==> after.terminal_focused && routed is Done,
        terminal_event_effect(before, Event::FocusLost, context, after, routed)
            ==> !after.terminal_focused && after.mux == before.mux && routed is Done,
{
}

/// A key that goes into the pane in front changes nothing on the screen before the pane answers; what
/// the program itself takes does.
pub proof fn law_typing_waits_for_the_pane(app: App, key: crate::input::KeyEvent, pane: crate::mux::pane::Pane)
    requires
        app.focused_pane() == Some(pane),
        app.mux is Some,
    ensures
        ({
            let front = app.view is Attached && app.workspace_focus == WorkspaceFocus::Chat
                && !app.confirm_quit && !app.confirm_update_restart && app.github_inspector is None
                && app.snippet_modal is None && app.workspace_help is None && app.terminal_focused;
            let quiet = front && pane.status == PaneStatus::Running && !pane.marked();
            &&& !quiet ==> changes_screen(app, Event::Key(key))
            &&& quiet && key.kind == KeyEventKind::Press && app.update_notice is None ==> (
            changes_screen(app, Event::Key(key)) <==> crate::mux_input::list_key_taken(app, key))
            &&& quiet && key.kind != KeyEventKind::Press ==> !changes_screen(app, Event::Key(key))
        }),
{
}

/// Placing the workspace: the panes that took their new size have it, and the others keep theirs.
pub proof fn law_panes_get_their_place(
    before: App,
    width: u16,
    height: u16,
    areas: Option<WorkspaceAreas>,
    answers: ChildAnswers,
    after: App,
    i: int,
)
    requires
        placed_effect(before, width, height, areas, answers, after),
        before.mux matches Some(mux) && 0 <= i < mux.panes@.len(),
        panes_move(before, width, height, areas),
    ensures
        ({
            let (origin, size) = pane_place(width, height, areas);
            let pane = before.mux->0.panes@[i];
            let now = after.mux->0.panes@[i];
            &&& after.mux is Some && after.mux->0.panes@.len() == before.mux->0.panes@.len()
            &&& answers.panes@[i] ==> now.viewport.x == origin.0 && now.viewport.y == origin.1
                && now.viewport.rows == size.0 && now.viewport.cols == size.1
            &&& !answers.panes@[i] ==> now == pane
            &&& now.id == pane.id && now.status == pane.status && now.title == pane.title
            &&& after.pane_size == size && after.pane_origin == origin
        }),
{
}

/// Something moves on the screen while a pane starts up or something is loaded that is shown so.
pub proof fn law_starting_panes_are_animated(app: App)
    ensures
        app.background.github || app.background.sessions ==> animates(app),
        app.mux matches Some(mux) ==> (exists|i: int|
            0 <= i < mux.panes@.len() && (#[trigger] mux.panes@[i]).status == PaneStatus::Running
                && !mux.panes@[i].has_visible_output) ==> animates(app),
        animates(app) && !app.background.github && !app.background.sessions ==> app.mux is Some,
{
}

/// Placing the terminal of the workspace: it takes the inside of its area where its shell took the size,
/// and nothing else of the terminals changes.
pub proof fn law_the_terminal_gets_its_place(
    before: TerminalManager,
    area: Rect,
    taken: bool,
    after: TerminalManager,
    at: int,
    other: int,
)
    requires
        terminal_placed(before, area, taken, after),
        before.active_position() == Some(at),
        0 <= at < before.entries@.len(),
        0 <= other < before.entries@.len(),
    ensures
        after.entries@.len() == before.entries@.len(),
        other != at ==> after.entries@[other] == before.entries@[other],
        !taken ==> after.entries@[at].pane == before.entries@[at].pane,
        taken && area.width > 2 && area.height > 2 && area.x < u16::MAX && area.y < u16::MAX ==> ({
            let viewport = after.entries@[at].pane.viewport;
            &&& viewport.x == area.x + 1 && viewport.y == area.y + 1
            &&& viewport.rows == area.height - 2 && viewport.cols == area.width - 2
        }),
        after.active_id == before.active_id && after.visible == before.visible && after.focused
            == before.focused && after.next_generation == before.next_generation,
{
}

} // verus!
