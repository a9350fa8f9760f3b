//! How the program starts and hands over: which session it opens first, what an updated copy of
//! itself is told, and where the shell that started it goes afterwards.

use crate::app::{UpdateRestartPane, UpdateRestartRequest};
use crate::session::worktree::{done_outcome, quote, quoted, Failure};
use crate::session::Session;
use crate::strings::{
    append_text, ascii_lower_text, ascii_lowered, chars_of, decimal, decimal_text, same_text,
    text_between, text_views, utf8_width, width_of_char,
};
use vstd::prelude::*;

verus! {

/// A session that is opened when the program starts.
#[derive(Debug)]
pub struct StartupSession {
    pub id: String,
    pub cwd: String,
    pub title: String,
}

/// The position of the first session with an id, at or behind `from`.
pub open spec fn session_position(sessions: Seq<Session>, id: Seq<char>, from: int) -> Option<int>
    decreases sessions.len() - from,
{
    if from >= sessions.len() {
        None
    } else if sessions[from].id@ == id {
        Some(from)
    } else {
        session_position(sessions, id, from + 1)
    }
}

fn find_session(sessions: &Vec<Session>, id: &str) -> (at: Option<usize>)
    ensures
        match at {
            Some(i) => i < sessions@.len() && session_position(sessions@, id@, 0) == Some(i as int),
            None => session_position(sessions@, id@, 0) is None,
        },
{
    let mut i: usize = 0;
    while i < sessions.len()
        invariant
            i <= sessions@.len(),
            session_position(sessions@, id@, 0) == session_position(sessions@, id@, i as int),
        decreases sessions@.len() - i,
    {
        if same_text(sessions[i].id.as_str(), id) {
            return Some(i);
        }
        i = i + 1;
    }
    None
}

/// Whether a session is opened under its own name and in its own directory.
pub open spec fn opens(opened: StartupSession, session: Session) -> bool {
    opened.id@ == session.id@ && opened.cwd@ == session.cwd@ && opened.title@
        == session.listed_name()
}

fn open_session(session: &Session) -> (opened: StartupSession)
    ensures
        opens(opened, *session),
{
    StartupSession {
        id: session.id.clone(),
        cwd: session.cwd.clone(),
        title: session.display_name().to_owned(),
    }
}

/// The session to open for an id the user gave: it must be there, and no one may hold it.
pub fn resolve_startup_session(sessions: &Vec<Session>, id: &str) -> (r: Result<
    StartupSession,
    String,
>)
    ensures
        match session_position(sessions@, id@, 0) {
            Some(i) => if sessions@[i].is_active {
                r matches Err(message) && message@ == quoted(
                    "Session '"@,
                    sessions@[i].listed_name(),
                    "' is already active"@,
                )
            } else {
                r matches Ok(opened) && opens(opened, sessions@[i])
            },
            None => r matches Err(message) && message@ == quoted(
                "Session '"@,
                id@,
                "' was not found"@,
            ),
        },
{
    match find_session(sessions, id) {
        Some(i) => {
            let session = &sessions[i];
            if session.is_active {
                Err(quote("Session '", session.display_name(), "' is already active"))
            } else {
                Ok(open_session(session))
            }
        },
        None => Err(quote("Session '", id, "' was not found")),
    }
}

/// The session to open again after a restart. One that is not listed yet is opened in the directory
/// it had, under a title made of its id.
pub fn resolve_restored_startup_session(
    sessions: &Vec<Session>,
    id: &str,
    fallback_cwd: &str,
) -> (opened: StartupSession)
    ensures
        match session_position(sessions@, id@, 0) {
            Some(i) => opens(opened, sessions@[i]),
            None => {
                &&& opened.id@ == id@
                &&& opened.cwd@ == fallback_cwd@
                &&& opened.title@ == "session "@ + short_id(id@)
            },
        },
{
    match find_session(sessions, id) {
        Some(i) => open_session(&sessions[i]),
        None => {
            let mut title = "session ".to_owned();
            append_text(&mut title, short_session_id(id).as_str());
            StartupSession { id: id.to_owned(), cwd: fallback_cwd.to_owned(), title }
        },
    }
}

/// The number of leading characters, at or behind `from`, that take just the given bytes.
pub open spec fn chars_taking(s: Seq<char>, bytes: nat, from: int) -> Option<int>
    decreases s.len() + 1 - from,
{
    if from < 0 || from > s.len() {
        None
    } else if utf8_width(s.take(from)) == bytes {
        Some(from)
    } else {
        chars_taking(s, bytes, from + 1)
    }
}

/// The start of an id by which it is shown: its first eight bytes, or all of it where these do not
/// end with a character.
pub open spec fn short_id(id: Seq<char>) -> Seq<char> {
    match chars_taking(id, 8, 0) {
        Some(n) => id.take(n),
        None => id,
    }
}

proof fn lemma_longer_takes_more(s: Seq<char>, from: int)
    requires
        0 <= from <= s.len(),
        utf8_width(s.take(from)) > 8,
    ensures
        chars_taking(s, 8, from) is None,
    decreases s.len() - from,
{
    if from < s.len() {
        assert(s.take(from + 1).drop_last() == s.take(from));
        lemma_longer_takes_more(s, from + 1);
    } else {
        assert(chars_taking(s, 8, from + 1) is None);
    }
}

/// The start of an id by which it is shown.
pub fn short_session_id(id: &str) -> (short: String)
    ensures
        short@ == short_id(id@),
{
    let chars = chars_of(id);
    let mut bytes: usize = 0;
    let mut i: usize = 0;
    while i < chars.len() && bytes < 8
        invariant
            i <= chars@.len(),
            chars@ == id@,
            bytes == utf8_width(id@.take(i as int)),
            bytes <= 11,
            chars_taking(id@, 8, 0) == chars_taking(id@, 8, i as int),
        decreases chars@.len() - i,
    {
        assert(id@.take(i + 1).drop_last() == id@.take(i as int));
        bytes = bytes + width_of_char(chars[i]);
        i = i + 1;
    }
    if bytes == 8 {
        text_between(&chars, 0, i)
    } else {
        proof {
            if bytes > 8 {
                lemma_longer_takes_more(id@, i as int);
            } else {
                assert(chars_taking(id@, 8, i as int + 1) is None);
            }
        }
        id.to_owned()
    }
}

/// The directory to open a session in: its own where that is there, else the present one, and its
/// own again where the present one is not known.
pub fn existing_or_current_dir(cwd: &str, is_dir: bool, current: &Option<String>) -> (dir: String)
    ensures
        dir@ == (if is_dir {
            cwd@
        } else {
            match *current {
                Some(c) => c@,
                None => cwd@,
            }
        }),
{
    if is_dir {
        return cwd.to_owned();
    }
    match current {
        Some(c) => c.clone(),
        None => cwd.to_owned(),
    }
}

/// The first opened session, at or behind `from`, that had the focus.
pub open spec fn focused_among(
    restored: Seq<StartupSession>,
    focused: Option<String>,
    from: int,
) -> Option<int>
    decreases restored.len() - from,
{
    if from >= restored.len() {
        None
    } else if focused matches Some(id) && restored[from].id@ == id@ {
        Some(from)
    } else {
        focused_among(restored, focused, from + 1)
    }
}

/// The directory whose project is listed first: that of the session the user named, else of the
/// restored one that had the focus, else of the last restored one. Without any of them it is the
/// present directory, and nothing is returned.
pub fn startup_directory(
    startup: &Option<StartupSession>,
    restored: &Vec<StartupSession>,
    focused: &Option<String>,
) -> (cwd: Option<String>)
    ensures
        match (*startup, focused_among(restored@, *focused, 0)) {
            (Some(session), _) => cwd matches Some(c) && c@ == session.cwd@,
            (None, Some(i)) => cwd matches Some(c) && c@ == restored@[i].cwd@,
            (None, None) => if restored@.len() > 0 {
                cwd matches Some(c) && c@ == restored@.last().cwd@
            } else {
                cwd is None
            },
        },
{
    if let Some(session) = startup {
        return Some(session.cwd.clone());
    }
    let count: usize = restored.len();
    let mut i: usize = 0;
    while i < count
        invariant
            i <= count,
            count == restored@.len(),
            *startup is None,
            focused_among(restored@, *focused, 0) == focused_among(restored@, *focused, i as int),
        decreases count - i,
    {
        if let Some(id) = focused {
            if same_text(restored[i].id.as_str(), id.as_str()) {
                return Some(restored[i].cwd.clone());
            }
        }
        i = i + 1;
    }
    if count > 0 {
        Some(restored[count - 1].cwd.clone())
    } else {
        None
    }
}

/// What the command line says of panes: nothing, to use them, or not to.
pub fn mux_override(mux: bool, no_mux: bool) -> (r: Option<bool>)
    ensures
        r == (if mux {
            Some(true)
        } else if no_mux {
            Some(false)
        } else {
            None::<bool>
        }),
{
    if mux {
        Some(true)
    } else if no_mux {
        Some(false)
    } else {
        None
    }
}

/// The sessions that are read before the screen is shown.
#[derive(Clone, Copy, Debug, PartialEq, Eq, Structural)]
pub enum FirstLoad {
    /// The one the user named.
    Named,
    /// Those an earlier copy of the program had open.
    Restored,
    /// The favorites.
    Favorites,
}

/// What is read before the screen is shown, and whether all sessions are read beside it.
#[derive(Clone, Copy, Debug, PartialEq, Eq, Structural)]
pub struct StartupLoad {
    pub first: FirstLoad,
    pub background: bool,
    /// Whether the program cannot go on where the first sessions cannot be read.
    pub required: bool,
}

/// What is read before the screen is shown: the named session needs no other, and neither does
/// opening the favorites elsewhere.
pub fn plan_startup_load(named: bool, restored: bool, open_favorites: bool) -> (load: StartupLoad)
    ensures
        load.first == (if named {
            FirstLoad::Named
        } else if restored {
            FirstLoad::Restored
        } else {
            FirstLoad::Favorites
        }),
        load.background == (!named && (restored || !open_favorites)),
        load.required == (named || restored || open_favorites),
{
    let first = if named {
        FirstLoad::Named
    } else if restored {
        FirstLoad::Restored
    } else {
        FirstLoad::Favorites
    };
    StartupLoad {
        first,
        background: !named && (restored || !open_favorites),
        required: named || restored || open_favorites,
    }
}

impl FirstLoad {
    /// What is said where the sessions cannot be read.
    pub fn failure(self) -> (message: String)
        ensures
            message@ == (match self {
                FirstLoad::Named => "Failed to load Copilot session"@,
                FirstLoad::Restored => "Failed to load sessions after updating CST"@,
                FirstLoad::Favorites => "Failed to load favorite Copilot sessions"@,
            }),
    {
        match self {
            FirstLoad::Named => "Failed to load Copilot session".to_owned(),
            FirstLoad::Restored => "Failed to load sessions after updating CST".to_owned(),
            FirstLoad::Favorites => "Failed to load favorite Copilot sessions".to_owned(),
        }
    }
}

/// What is printed before a session is resumed in the foreground.
pub fn resume_announcement(id: &str, cwd: &str) -> (text: String)
    ensures
        text@ == quoted("Resuming session "@, short_id(id@), " in "@) + cwd@ + "..."@,
{
    let mut text = quote("Resuming session ", short_session_id(id).as_str(), " in ");
    append_text(&mut text, cwd);
    append_text(&mut text, "...");
    text
}

/// What is printed before a session is started in the foreground.
pub fn start_announcement(cwd: &str) -> (text: String)
    ensures
        text@ == quoted("Starting new session in "@, cwd@, "..."@),
{
    quote("Starting new session in ", cwd, "...")
}

/// Whether two texts are one but for the case of ASCII letters.
pub open spec fn same_but_for_case(a: Seq<char>, b: Seq<char>) -> bool {
    ascii_lower_text(a) == ascii_lower_text(b)
}

/// Where the shell goes after the program: into the directory of the session that was started or
/// resumed, else where the program was left, else into the project whose sessions were listed, unless
/// it is the one the program was started in.
pub fn last_directory(
    resumed: &Option<String>,
    started: &Option<String>,
    exit_dir: &Option<String>,
    project_filter: &Option<String>,
    cwd_project: &Option<String>,
) -> (dir: Option<String>)
    ensures
        match (*started, *resumed, *exit_dir, *project_filter) {
            (Some(d), _, _, _) => dir matches Some(r) && r@ == d@,
            (None, Some(d), _, _) => dir matches Some(r) && r@ == d@,
            (None, None, Some(d), _) => dir matches Some(r) && r@ == d@,
            (None, None, None, Some(project)) => if *cwd_project matches Some(p)
                && same_but_for_case(p@, project@) {
                dir is None
            } else {
                dir matches Some(r) && r@ == project@
            },
            (None, None, None, None) => dir is None,
        },
{
    if let Some(d) = started {
        return Some(d.clone());
    }
    if let Some(d) = resumed {
        return Some(d.clone());
    }
    if let Some(d) = exit_dir {
        return Some(d.clone());
    }
    match project_filter {
        Some(project) => {
            let launched_here = match cwd_project {
                Some(p) => same_text(
                    ascii_lowered(p.as_str()).as_str(),
                    ascii_lowered(project.as_str()).as_str(),
                ),
                None => false,
            };
            if launched_here {
                None
            } else {
                Some(project.clone())
            }
        },
        None => None,
    }
}

/// The shell function that follows the program into its last directory, for `bash` and `zsh`.
pub const POSIX_SHELL_FUNCTION: &'static str = "cst() {
    local tmpfile
    tmpfile=$(mktemp)
    command copilot-session-tui --last-dir-file=\"$tmpfile\" \"$@\"
    local last_dir
    last_dir=$(cat \"$tmpfile\" 2>/dev/null)
    rm -f \"$tmpfile\"
    if [ -n \"$last_dir\" ] && [ -d \"$last_dir\" ]; then
        cd \"$last_dir\" || true
    fi
}
";

/// The shell function that follows the program into its last directory, for PowerShell.
pub const POWERSHELL_FUNCTION: &'static str = "function cst {
    $tmpfile = [System.IO.Path]::GetTempFileName()
    copilot-session-tui --last-dir-file=\"$tmpfile\" @args
    $lastDir = Get-Content $tmpfile -ErrorAction SilentlyContinue
    Remove-Item $tmpfile -ErrorAction SilentlyContinue
    if ($lastDir -and (Test-Path $lastDir)) {
        Set-Location $lastDir
    }
}
";

/// The shell function for a shell, if it is one of those that are known.
pub fn shell_init(shell: &str) -> (text: Option<&'static str>)
    ensures
        text == (if shell@ == "bash"@ || shell@ == "zsh"@ {
            Some(POSIX_SHELL_FUNCTION)
        } else if shell@ == "powershell"@ {
            Some(POWERSHELL_FUNCTION)
        } else {
            None::<&'static str>
        }),
{
    if same_text(shell, "bash") || same_text(shell, "zsh") {
        Some(POSIX_SHELL_FUNCTION)
    } else if same_text(shell, "powershell") {
        Some(POWERSHELL_FUNCTION)
    } else {
        None
    }
}

/// A session that an updated copy of the program opens again.
#[derive(Debug)]
pub struct RestartManifestPane {
    pub session_id: String,
    pub cwd: String,
}

/// What an updated copy of the program opens again, and what had the focus.
#[derive(Debug)]
pub struct RestartManifest {
    pub panes: Vec<RestartManifestPane>,
    pub focused_session_id: Option<String>,
}

/// The sessions that ran, with their directories, in their order.
pub open spec fn running_sessions(panes: Seq<UpdateRestartPane>) -> Seq<(Seq<char>, Seq<char>)>
    decreases panes.len(),
{
    if panes.len() == 0 {
        Seq::empty()
    } else {
        let earlier = running_sessions(panes.drop_last());
        if panes.last().copilot_running {
            earlier.push((panes.last().session_id@, panes.last().cwd@))
        } else {
            earlier
        }
    }
}

/// Whether a session ran.
pub open spec fn runs(panes: Seq<UpdateRestartPane>, id: Seq<char>) -> bool {
    exists|i: int|
        0 <= i < panes.len() && (#[trigger] panes[i]).copilot_running && panes[i].session_id@ == id
}

/// The sessions of a manifest, with their directories.
pub open spec fn manifest_sessions(panes: Seq<RestartManifestPane>) -> Seq<(Seq<char>, Seq<char>)> {
    panes.map_values(|pane: RestartManifestPane| (pane.session_id@, pane.cwd@))
}

/// Whether the focus of a manifest is that of a request: it stays where its session ran, and is
/// dropped where only its shell did.
pub open spec fn focus_kept(request: UpdateRestartRequest, focused: Option<String>) -> bool {
    match request.focused_session_id {
        Some(id) => if runs(request.panes@, id@) {
            focused matches Some(f) && f@ == id@
        } else {
            focused is None
        },
        None => focused is None,
    }
}

/// What an updated copy of the program is told to open: the sessions that ran, and nothing that only
/// had a shell.
pub fn restart_manifest(request: &UpdateRestartRequest) -> (manifest: RestartManifest)
    ensures
        manifest_sessions(manifest.panes@) == running_sessions(request.panes@),
        focus_kept(*request, manifest.focused_session_id),
{
    let mut panes: Vec<RestartManifestPane> = Vec::new();
    let mut focus_runs = false;
    let mut i: usize = 0;
    assert(manifest_sessions(panes@) =~= running_sessions(request.panes@.take(0)));
    while i < request.panes.len()
        invariant
            i <= request.panes@.len(),
            manifest_sessions(panes@) == running_sessions(request.panes@.take(i as int)),
            focus_runs == (request.focused_session_id matches Some(id) && runs(
                request.panes@.take(i as int),
                id@,
            )),
        decreases request.panes@.len() - i,
    {
        let ghost before = request.panes@.take(i as int);
        let ghost after = request.panes@.take(i + 1);
        assert(after.drop_last() == before);
        let pane = &request.panes[i];
        if pane.copilot_running {
            let ghost shown = panes@;
            let kept = RestartManifestPane {
                session_id: pane.session_id.clone(),
                cwd: pane.cwd.clone(),
            };
            panes.push(kept);
            assert(manifest_sessions(panes@) =~= manifest_sessions(shown).push(
                (pane.session_id@, pane.cwd@),
            ));
        }
        if let Some(id) = &request.focused_session_id {
            let here = pane.copilot_running && same_text(pane.session_id.as_str(), id.as_str());
            proof {
                lemma_runs_step(request.panes@, i as int, id@);
            }
            focus_runs = focus_runs || here;
        }
        i = i + 1;
    }
    assert(request.panes@.take(i as int) == request.panes@);
    let focused_session_id = match &request.focused_session_id {
        Some(id) => {
            if focus_runs {
                Some(id.clone())
            } else {
                None
            }
        },
        None => None,
    };
    RestartManifest { panes, focused_session_id }
}

proof fn lemma_runs_step(panes: Seq<UpdateRestartPane>, i: int, id: Seq<char>)
    requires
        0 <= i < panes.len(),
    ensures
        runs(panes.take(i + 1), id) == (runs(panes.take(i), id) || (panes[i].copilot_running
            && panes[i].session_id@ == id)),
{
    let before = panes.take(i);
    let after = panes.take(i + 1);
    if runs(after, id) {
        let j = choose|j: int|
            0 <= j < after.len() && (#[trigger] after[j]).copilot_running && after[j].session_id@
                == id;
        if j < i {
            assert(before[j] == after[j]);
        }
    }
    if runs(before, id) {
        let j = choose|j: int|
            0 <= j < before.len() && (#[trigger] before[j]).copilot_running && before[j].session_id@
                == id;
        assert(after[j] == before[j]);
    }
    assert(after[i] == panes[i]);
}

/// What the program was started with, as far as an updated copy of it needs to know.
#[derive(Debug)]
pub struct RuntimeOptions {
    pub copilot_home: String,
    pub auto_filter: bool,
    pub mux: bool,
    pub last_dir_file: Option<String>,
}

/// The arguments that start the program with the same options.
pub open spec fn option_arguments(options: RuntimeOptions) -> Seq<Seq<char>> {
    let first = seq![
        "--copilot-home"@,
        options.copilot_home@,
        "--auto-filter"@,
        if options.auto_filter {
            "true"@
        } else {
            "false"@
        },
        if options.mux {
            "--mux"@
        } else {
            "--no-mux"@
        },
    ];
    match options.last_dir_file {
        Some(path) => first + seq!["--last-dir-file"@, path@],
        None => first,
    }
}

/// The arguments that start the program with the same options.
pub fn restart_arguments(options: &RuntimeOptions) -> (args: Vec<String>)
    ensures
        text_views(args@) == option_arguments(*options),
{
    let mut args: Vec<String> = Vec::new();
    args.push("--copilot-home".to_owned());
    args.push(options.copilot_home.clone());
    args.push("--auto-filter".to_owned());
    args.push(
        if options.auto_filter {
            "true".to_owned()
        } else {
            "false".to_owned()
        },
    );
    args.push(
        if options.mux {
            "--mux".to_owned()
        } else {
            "--no-mux".to_owned()
        },
    );
    if let Some(path) = &options.last_dir_file {
        args.push("--last-dir-file".to_owned());
        args.push(path.clone());
    }
    assert(text_views(args@) =~= option_arguments(*options));
    args
}

/// The arguments for an updated copy of the program that waits at a gate for the process that
/// started it.
pub fn handoff_arguments(options: &RuntimeOptions, gate: &str, process: u32) -> (args: Vec<String>)
    ensures
        text_views(args@) == option_arguments(*options) + seq![
            "--restart-gate"@,
            gate@,
            "--restart-parent-pid"@,
            decimal(process as nat),
        ],
{
    let mut args = restart_arguments(options);
    let ghost first = args@;
    args.push("--restart-gate".to_owned());
    args.push(gate.to_owned());
    args.push("--restart-parent-pid".to_owned());
    args.push(decimal_text(process as u64));
    assert(text_views(args@) =~= text_views(first) + seq![
        "--restart-gate"@,
        gate@,
        "--restart-parent-pid"@,
        decimal(process as nat),
    ]);
    args
}

/// The two signs that the supervising process waits for.
#[derive(Clone, Copy, Debug, PartialEq, Eq, Structural)]
pub enum Awaited {
    /// The updated copy runs and waits at its gate.
    Ready,
    /// The updated copy has opened its workspace.
    Started,
}

impl Awaited {
    /// The time in milliseconds after which waiting is given up.
    pub open spec fn patience(self) -> u64 {
        match self {
            Awaited::Ready => 5_000,
            Awaited::Started => 15_000,
        }
    }

    /// What is said where the updated copy ended instead.
    pub open spec fn ended_message(self) -> Seq<char> {
        match self {
            Awaited::Ready => "Updated CST exited before handoff with status "@,
            Awaited::Started => "Updated CST exited during startup with status "@,
        }
    }

    /// What is said where the sign did not come in time.
    pub open spec fn late_message(self) -> Seq<char> {
        match self {
            Awaited::Ready => "Updated CST did not become ready for restart within 5 seconds"@,
            Awaited::Started => "Updated CST did not open its workspace within 15 seconds"@,
        }
    }
}

/// What is seen of the updated copy: nothing, that it runs, that it ended with a status, or that it
/// could not be looked at.
#[derive(Debug)]
pub enum UpdatedProcess {
    Unavailable,
    Running,
    Ended { status: String },
    Unknown { failure: Failure },
}

/// Where waiting for the updated copy stands.
#[derive(Debug)]
pub enum HandoffStep {
    Arrived,
    /// Look again in 25 milliseconds.
    Wait,
    Failed(Failure),
}

/// Why waiting for the updated copy fails, if it does.
pub open spec fn handoff_failure(awaited: Awaited, process: UpdatedProcess) -> Option<
    Seq<Seq<char>>,
> {
    match process {
        UpdatedProcess::Unavailable => Some(seq!["Updated CST process is unavailable"@]),
        UpdatedProcess::Running => None,
        UpdatedProcess::Ended { status } => Some(seq![awaited.ended_message() + status@]),
        UpdatedProcess::Unknown { failure } => Some(
            seq!["Failed to inspect the updated CST process"@] + failure@,
        ),
    }
}

/// Where waiting for the updated copy stands, `elapsed` milliseconds after it began. The sign counts
/// only in time, and counts before the end of the process does.
pub fn handoff_step(
    awaited: Awaited,
    elapsed: u64,
    signalled: bool,
    process: UpdatedProcess,
) -> (step: HandoffStep)
    ensures
        if elapsed >= awaited.patience() {
            step matches HandoffStep::Failed(failure) && failure@ == seq![awaited.late_message()]
        } else if signalled {
            step is Arrived
        } else {
            match handoff_failure(awaited, process) {
                Some(messages) => step matches HandoffStep::Failed(failure) && failure@ == messages,
                None => step is Wait,
            }
        },
{
    let (patience, ended, late): (u64, &str, &str) = match awaited {
        Awaited::Ready => (
            5_000,
            "Updated CST exited before handoff with status ",
            "Updated CST did not become ready for restart within 5 seconds",
        ),
        Awaited::Started => (
            15_000,
            "Updated CST exited during startup with status ",
            "Updated CST did not open its workspace within 15 seconds",
        ),
    };
    if elapsed >= patience {
        return HandoffStep::Failed(Failure::of(late.to_owned()));
    }
    if signalled {
        return HandoffStep::Arrived;
    }
    match process {
        UpdatedProcess::Unavailable => HandoffStep::Failed(
            Failure::of("Updated CST process is unavailable".to_owned()),
        ),
        UpdatedProcess::Running => HandoffStep::Wait,
        UpdatedProcess::Ended { status } => {
            let mut message = ended.to_owned();
            append_text(&mut message, status.as_str());
            HandoffStep::Failed(Failure::of(message))
        },
        UpdatedProcess::Unknown { failure } => HandoffStep::Failed(
            failure.context("Failed to inspect the updated CST process".to_owned()),
        ),
    }
}

/// How the updated copy's own end is reported, once it took over.
pub fn updated_outcome(success: bool, status: &str) -> (r: Result<(), Failure>)
    ensures
        done_outcome(r) == (if success {
            Ok(())
        } else {
            Err(seq!["Updated CST exited with status "@ + status@])
        }),
{
    if success {
        Ok(())
    } else {
        let mut message = "Updated CST exited with status ".to_owned();
        append_text(&mut message, status);
        Err(Failure::of(message))
    }
}

/// What becomes of an updated copy that is not needed any more.
#[derive(Clone, Copy, Debug, PartialEq, Eq, Structural)]
pub enum Dismissal {
    /// It has ended.
    Gone,
    /// It is given time to end by itself: look again in 25 milliseconds.
    Wait,
    Kill,
}

/// What becomes of an updated copy that is not needed any more, `elapsed` milliseconds after it was
/// told to give up. Only one that was let through its gate is given time: five seconds.
pub fn dismissal_step(released: bool, elapsed: u64, ended: bool) -> (step: Dismissal)
    ensures
        step == (if released && elapsed < 5_000 {
            if ended {
                Dismissal::Gone
            } else {
                Dismissal::Wait
            }
        } else {
            Dismissal::Kill
        }),
{
    if released && elapsed < 5_000 {
        if ended {
            Dismissal::Gone
        } else {
            Dismissal::Wait
        }
    } else {
        Dismissal::Kill
    }
}

/// What a copy of the program that waits at its gate does.
#[derive(Clone, Copy, Debug, PartialEq, Eq, Structural)]
pub enum Release {
    /// It reads the manifest and takes over.
    Go,
    /// It ends.
    GiveUp,
    /// It looks again in 25 milliseconds.
    Wait,
}

/// What a copy of the program that waits at its gate does: being let through comes first, and one
/// that was called off, or whose supervisor is gone, ends.
pub fn release_step(go: bool, abort: bool, supervisor_runs: bool) -> (step: Release)
    ensures
        step == (if go {
            Release::Go
        } else if abort || !supervisor_runs {
            Release::GiveUp
        } else {
            Release::Wait
        }),
{
    if go {
        Release::Go
    } else if abort || !supervisor_runs {
        Release::GiveUp
    } else {
        Release::Wait
    }
}

/// An updated copy of the program opens nothing that did not run, and its focus is on something it
/// opens.
pub proof fn law_restart_opens_what_ran(request: UpdateRestartRequest, manifest: RestartManifest)
    requires
        manifest_sessions(manifest.panes@) == running_sessions(request.panes@),
        focus_kept(request, manifest.focused_session_id),
    ensures
        forall|i: int|
            0 <= i < manifest.panes@.len() ==> runs(
                request.panes@,
                (#[trigger] manifest.panes@[i]).session_id@,
            ),
        manifest.focused_session_id matches Some(id) ==> exists|i: int|
            0 <= i < manifest.panes@.len() && (#[trigger] manifest.panes@[i]).session_id@ == id@,
{
    let sessions = manifest_sessions(manifest.panes@);
    assert forall|i: int| 0 <= i < manifest.panes@.len() implies runs(
        request.panes@,
        (#[trigger] manifest.panes@[i]).session_id@,
    ) by {
        lemma_running_sessions_run(request.panes@, i);
        assert(sessions[i].0 == manifest.panes@[i].session_id@);
    }
    if let Some(id) = manifest.focused_session_id {
        lemma_running_is_listed(request.panes@, id@);
        let i = choose|i: int| 0 <= i < sessions.len() && (#[trigger] sessions[i]).0 == id@;
        assert(manifest.panes@[i].session_id@ == id@);
    }
}

proof fn lemma_running_sessions_run(panes: Seq<UpdateRestartPane>, i: int)
    requires
        0 <= i < running_sessions(panes).len(),
    ensures
        runs(panes, running_sessions(panes)[i].0),
    decreases panes.len(),
{
    let earlier = running_sessions(panes.drop_last());
    if i < earlier.len() {
        lemma_running_sessions_run(panes.drop_last(), i);
        let j = choose|j: int|
            0 <= j < panes.drop_last().len() && (#[trigger] panes.drop_last()[j]).copilot_running
                && panes.drop_last()[j].session_id@ == earlier[i].0;
        assert(panes[j].copilot_running && panes[j].session_id@ == earlier[i].0);
    } else {
        assert(panes[panes.len() - 1].copilot_running);
    }
}

proof fn lemma_running_is_listed(panes: Seq<UpdateRestartPane>, id: Seq<char>)
    requires
        runs(panes, id),
    ensures
        exists|i: int|
            0 <= i < running_sessions(panes).len() && (#[trigger] running_sessions(panes)[i]).0 == id,
    decreases panes.len(),
{
    let j = choose|j: int|
        0 <= j < panes.len() && (#[trigger] panes[j]).copilot_running && panes[j].session_id@ == id;
    let earlier = running_sessions(panes.drop_last());
    let all = running_sessions(panes);
    if j == panes.len() - 1 {
        assert(all[all.len() - 1].0 == id);
    } else {
        assert(panes.drop_last()[j] == panes[j]);
        lemma_running_is_listed(panes.drop_last(), id);
        let i = choose|i: int| 0 <= i < earlier.len() && (#[trigger] earlier[i]).0 == id;
        assert(all[i].0 == id);
    }
}

/// What can be shown of an id is never empty where the id is not, and never more than the id.
pub proof fn law_short_id_begins_the_id(id: Seq<char>)
    ensures
        short_id(id).is_prefix_of(id),
        short_id(id).len() == 0 <==> id.len() == 0,
        utf8_width(id) <= 8 ==> short_id(id) == id,
{
    lemma_chars_taking(id, 0);
    lemma_taken_is_less(id);
    if let Some(n) = chars_taking(id, 8, 0) {
        if utf8_width(id) <= 8 && n < id.len() {
            lemma_prefix_takes_less(id, n);
        }
        if n == id.len() {
            assert(id.take(n) == id);
        }
    }
}

proof fn lemma_taken_is_less(id: Seq<char>)
    ensures
        utf8_width(id.take(0)) == 0,
{
    assert(id.take(0).len() == 0);
}

proof fn lemma_chars_taking(s: Seq<char>, from: int)
    requires
        0 <= from,
    ensures
        chars_taking(s, 8, from) matches Some(n) ==> from <= n <= s.len() && utf8_width(
            s.take(n),
        ) == 8,
    decreases s.len() + 1 - from,
{
    if from <= s.len() && utf8_width(s.take(from)) != 8 {
        lemma_chars_taking(s, from + 1);
    }
}

proof fn lemma_prefix_takes_less(s: Seq<char>, n: int)
    requires
        0 <= n < s.len(),
    ensures
        utf8_width(s.take(n)) < utf8_width(s),
    decreases s.len(),
{
    assert(s.drop_last().take(n) == s.take(n));
    if n < s.len() - 1 {
        lemma_prefix_takes_less(s.drop_last(), n);
    } else {
        assert(s.drop_last() == s.take(n));
    }
}

proof fn lemma_width_grows(s: Seq<char>, n: int, m: int)
    requires
        0 <= n <= m <= s.len(),
    ensures
        utf8_width(s.take(m)) >= utf8_width(s.take(n)) + (m - n),
    decreases m - n,
{
    if n < m {
        lemma_width_grows(s, n, m - 1);
        assert(s.take(m).drop_last() =~= s.take(m - 1));
    }
}

/// The short form of an id that begins with eight plain characters is these eight.
pub proof fn law_short_ids_have_eight_characters(id: Seq<char>)
    requires
        id.len() >= 8,
        utf8_width(id.take(8)) == 8,
    ensures
        short_id(id) == id.take(8),
{
    lemma_eight_found(id, 0);
}

proof fn lemma_eight_found(id: Seq<char>, from: int)
    requires
        id.len() >= 8,
        utf8_width(id.take(8)) == 8,
        0 <= from <= 8,
    ensures
        chars_taking(id, 8, from) == Some(8int),
    decreases 8 - from,
{
    if from < 8 {
        lemma_width_grows(id, from, 8);
        lemma_eight_found(id, from + 1);
    }
}

/// The first session with an id is found, and none where no session has it.
pub proof fn law_sessions_are_found_by_id(sessions: Seq<Session>, id: Seq<char>, from: int)
    requires
        0 <= from,
    ensures
        match session_position(sessions, id, from) {
            Some(i) => from <= i < sessions.len() && sessions[i].id@ == id && forall|j: int|
                from <= j < i ==> (#[trigger] sessions[j]).id@ != id,
            None => forall|j: int| from <= j < sessions.len() ==> (#[trigger] sessions[j]).id@ != id,
        },
    decreases sessions.len() - from,
{
    if from < sessions.len() && sessions[from].id@ != id {
        law_sessions_are_found_by_id(sessions, id, from + 1);
    }
}

/// The options of a running program reach the one that follows it, each under its own name.
pub proof fn law_options_are_handed_on(options: RuntimeOptions)
    ensures
        ({
            let args = option_arguments(options);
            &&& args.len() == (if options.last_dir_file is Some {
                7int
            } else {
                5int
            })
            &&& args[0] == "--copilot-home"@ && args[1] == options.copilot_home@
            &&& args[2] == "--auto-filter"@
            &&& options.auto_filter ==> args[3] == "true"@
            &&& !options.auto_filter ==> args[3] == "false"@
            &&& options.mux ==> args[4] == "--mux"@
            &&& !options.mux ==> args[4] == "--no-mux"@
            &&& options.last_dir_file matches Some(path) ==> args[5] == "--last-dir-file"@ && args[6]
                == path@
        }),
{
}

/// Exactly the sessions that run are opened again, each in its directory, in their order.
pub proof fn law_running_sessions_are_kept(panes: Seq<UpdateRestartPane>)
    ensures
        running_sessions(panes) == panes.filter(|p: UpdateRestartPane| p.copilot_running).map_values(
            |p: UpdateRestartPane| (p.session_id@, p.cwd@),
        ),
    decreases panes.len(),
{
    reveal(Seq::filter);
    let kept = |p: UpdateRestartPane| p.copilot_running;
    let told = |p: UpdateRestartPane| (p.session_id@, p.cwd@);
    if panes.len() > 0 {
        law_running_sessions_are_kept(panes.drop_last());
        let before = panes.drop_last().filter(kept);
        assert(before.push(panes.last()).map_values(told) =~= before.map_values(told).push(
            told(panes.last()),
        ));
    } else {
        assert(panes.filter(kept).map_values(told) =~= Seq::<(Seq<char>, Seq<char>)>::empty());
    }
}

/// The updated program is waited for only while it runs; how it ended is told with its status.
pub proof fn law_only_a_running_program_is_waited_for(awaited: Awaited, process: UpdatedProcess)
    ensures
        handoff_failure(awaited, process) is None <==> process is Running,
        process matches UpdatedProcess::Ended { status } ==> handoff_failure(awaited, process) == Some(
            seq![
                (if awaited == Awaited::Ready {
                    "Updated CST exited before handoff with status "@
                } else {
                    "Updated CST exited during startup with status "@
                }) + status@,
            ],
        ),
        Awaited::Ready.patience() == 5000 && Awaited::Started.patience() == 15000,
{
}

/// The session that had the focus is found by its id among those that were opened again, and none where
/// it was not.
pub proof fn law_the_focus_is_found_again(
    restored: Seq<StartupSession>,
    focused: Option<String>,
    from: int,
)
    requires
        0 <= from,
    ensures
        match focused_among(restored, focused, from) {
            Some(i) => from <= i < restored.len() && focused is Some && restored[i].id@ == focused->0@,
            None => focused is None || forall|i: int|
                from <= i < restored.len() ==> (#[trigger] restored[i]).id@ != focused->0@,
        },
    decreases restored.len() - from,
{
    if from < restored.len() && !(focused matches Some(id) && restored[from].id@ == id@) {
        law_the_focus_is_found_again(restored, focused, from + 1);
    }
}

} // verus!
